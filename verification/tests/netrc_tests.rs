use magic_nix_cache::error::Error;
use magic_nix_cache::netrc::{append_line, has_host, parse_netrc, NetrcEntry};

fn entry_names(entries: &[NetrcEntry]) -> Vec<Option<String>> {
    entries.iter().map(|e| e.name.clone()).collect()
}

#[test]
fn parses_two_entries() {
    let text = "machine api.flakehub.com login user-1 password pw-1\n\nmachine cache.flakehub.com login user-2 password pw-2\n";
    let entries = parse_netrc(text).unwrap();
    assert_eq!(entries.len(), 2);
    assert_eq!(
        entry_names(&entries),
        vec![
            Some("api.flakehub.com".to_string()),
            Some("cache.flakehub.com".to_string())
        ]
    );
    assert_eq!(entries[0].login.as_deref(), Some("user-1"));
    assert_eq!(entries[0].password.as_deref(), Some("pw-1"));
    assert_eq!(entries[1].login.as_deref(), Some("user-2"));
    assert_eq!(entries[1].password.as_deref(), Some("pw-2"));
}

#[test]
fn parses_default_entry() {
    let entries = parse_netrc("default login anon password guest\n").unwrap();
    assert_eq!(entries.len(), 1);
    assert_eq!(entries[0].name, None);
    assert_eq!(entries[0].login.as_deref(), Some("anon"));
    assert_eq!(entries[0].password.as_deref(), Some("guest"));
}

#[test]
fn parses_entry_missing_fields() {
    let entries = parse_netrc("machine api.flakehub.com login only-login\n").unwrap();
    assert_eq!(entries.len(), 1);
    assert_eq!(entries[0].login.as_deref(), Some("only-login"));
    assert_eq!(entries[0].password, None);
}

#[test]
fn ignores_account_and_port() {
    let entries =
        parse_netrc("machine h1 account acct port 8080 login l1 password p1\n").unwrap();
    assert_eq!(entries.len(), 1);
    assert_eq!(entries[0].login.as_deref(), Some("l1"));
    assert_eq!(entries[0].password.as_deref(), Some("p1"));
}

#[test]
fn rejects_trailing_keyword() {
    let r = parse_netrc("machine h1 login");
    assert!(matches!(r, Err(Error::Netrc { .. })));
}

#[test]
fn rejects_field_before_entry() {
    let r = parse_netrc("login l1 machine h1");
    assert!(matches!(r, Err(Error::Netrc { .. })));
}

#[test]
fn rejects_unknown_token() {
    let r = parse_netrc("machine h1 macdef something");
    assert!(matches!(r, Err(Error::Netrc { .. })));
}

#[test]
fn empty_file_has_no_entries() {
    let entries = parse_netrc("").unwrap();
    assert!(entries.is_empty());
    let entries = parse_netrc("  \n\t \n").unwrap();
    assert!(entries.is_empty());
}

#[test]
fn finds_host_exactly() {
    let entries = parse_netrc("machine h1 login l password p\nmachine h2 login l password p\n")
        .unwrap();
    assert!(has_host(&entries, "h1"));
    assert!(has_host(&entries, "h2"));
    assert!(!has_host(&entries, "h3"));
    assert!(!has_host(&entries, "h"));
}

#[test]
fn append_line_is_one_well_formed_entry() {
    let line = append_line("cache.flakehub.com", "user-1", "pw-1");
    assert_eq!(
        line,
        "\nmachine cache.flakehub.com login user-1 password pw-1\n\n"
    );
    let entries = parse_netrc(&line).unwrap();
    assert_eq!(entries.len(), 1);
    assert_eq!(entries[0].name.as_deref(), Some("cache.flakehub.com"));
    assert_eq!(entries[0].login.as_deref(), Some("user-1"));
    assert_eq!(entries[0].password.as_deref(), Some("pw-1"));
}

#[test]
fn appending_extends_without_disturbing() {
    let text = "machine api.flakehub.com login user-1 password pw-1\n";
    let line = append_line("cache.flakehub.com", "user-1", "pw-1");
    let extended = format!("{}{}", text, line);
    assert!(extended.starts_with(text));
    let entries = parse_netrc(&extended).unwrap();
    assert_eq!(entries.len(), 2);
    assert_eq!(entries[0].name.as_deref(), Some("api.flakehub.com"));
    assert_eq!(entries[1].name.as_deref(), Some("cache.flakehub.com"));
    assert_eq!(entries[1].login.as_deref(), Some("user-1"));
    assert_eq!(entries[1].password.as_deref(), Some("pw-1"));
    assert!(has_host(&entries, "cache.flakehub.com"));
}
