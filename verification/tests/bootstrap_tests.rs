use magic_nix_cache::bootstrap::{
    basic_auth, bearer_header, build_session_plan, cache_config_endpoint,
    decode_cache_config_response, decode_project_response, join_url, plan_cache_credentials,
    project_endpoint, resolve_credentials, Credentials, ServerUrl, USER_AGENT,
};
use magic_nix_cache::error::Error;
use magic_nix_cache::netrc::parse_netrc;

fn url(text: &str, host: Option<&str>) -> ServerUrl {
    ServerUrl {
        text: text.to_string(),
        host: host.map(|h| h.to_string()),
    }
}

fn creds(login: &str, password: &str) -> Credentials {
    Credentials {
        login: login.to_string(),
        password: password.to_string(),
    }
}

const API: &str = "https://api.flakehub.com/";
const CACHE: &str = "https://cache.flakehub.com/";

#[test]
fn resolves_matching_entry_exactly() {
    let entries =
        parse_netrc("machine other.example login x password y\nmachine api.flakehub.com login user-1 password pw-1\n")
            .unwrap();
    let c = resolve_credentials(&entries, &url(API, Some("api.flakehub.com"))).unwrap();
    assert_eq!(c.login, "user-1");
    assert_eq!(c.password, "pw-1");
}

#[test]
fn missing_host_names_the_metadata_url() {
    let entries = parse_netrc("machine other.example login x password y\n").unwrap();
    let r = resolve_credentials(&entries, &url(API, Some("api.flakehub.com")));
    assert_eq!(
        r.unwrap_err(),
        Error::MissingCreds {
            url: API.to_string()
        }
    );
}

#[test]
fn missing_login_is_a_config_error() {
    let entries = parse_netrc("machine api.flakehub.com password pw-1\n").unwrap();
    let r = resolve_credentials(&entries, &url(API, Some("api.flakehub.com")));
    assert_eq!(
        r.unwrap_err(),
        Error::Config {
            message: format!("netrc file does not contain a login for '{}'", API)
        }
    );
}

#[test]
fn missing_password_is_a_config_error() {
    let entries = parse_netrc("machine api.flakehub.com login user-1\n").unwrap();
    let r = resolve_credentials(&entries, &url(API, Some("api.flakehub.com")));
    assert_eq!(
        r.unwrap_err(),
        Error::Config {
            message: format!("netrc file does not contain a password for '{}'", API)
        }
    );
}

#[test]
fn default_entry_matches_hostless_url() {
    let entries = parse_netrc("default login anon password guest\n").unwrap();
    let c = resolve_credentials(&entries, &url("data:text/plain,x", None)).unwrap();
    assert_eq!(c.login, "anon");
    assert_eq!(c.password, "guest");
}

#[test]
fn plan_skips_write_when_host_is_present() {
    let entries =
        parse_netrc("machine api.flakehub.com login l password p\nmachine cache.flakehub.com login l password p\n")
            .unwrap();
    let r = plan_cache_credentials(&entries, &url(CACHE, Some("cache.flakehub.com")), &creds("l", "p"));
    assert_eq!(r.unwrap(), None);
}

#[test]
fn plan_appends_one_entry_when_host_is_absent() {
    let entries = parse_netrc("machine api.flakehub.com login l password p\n").unwrap();
    let r = plan_cache_credentials(&entries, &url(CACHE, Some("cache.flakehub.com")), &creds("l", "p"));
    assert_eq!(
        r.unwrap(),
        Some("\nmachine cache.flakehub.com login l password p\n\n".to_string())
    );
}

#[test]
fn plan_twice_writes_once() {
    let text = "machine api.flakehub.com login l password p\n";
    let entries = parse_netrc(text).unwrap();
    let cache = url(CACHE, Some("cache.flakehub.com"));
    let c = creds("l", "p");
    let line = plan_cache_credentials(&entries, &cache, &c).unwrap().unwrap();
    let extended = format!("{}{}", text, line);
    let entries_after = parse_netrc(&extended).unwrap();
    let second = plan_cache_credentials(&entries_after, &cache, &c).unwrap();
    assert_eq!(second, None);
}

#[test]
fn hostless_cache_url_is_a_bad_url() {
    let entries = parse_netrc("machine api.flakehub.com login l password p\n").unwrap();
    let r = plan_cache_credentials(&entries, &url("data:text/plain,x", None), &creds("l", "p"));
    assert_eq!(
        r.unwrap_err(),
        Error::BadUrl {
            url: "data:text/plain,x".to_string()
        }
    );
}

#[test]
fn missing_project_identifier_fails_before_any_request() {
    let r = project_endpoint(&url(API, Some("api.flakehub.com")), &None);
    assert_eq!(
        r.unwrap_err(),
        Error::Config {
            message: "GITHUB_REPOSITORY environment variable is not set".to_string()
        }
    );
}

#[test]
fn project_endpoint_joins_identifier() {
    let r = project_endpoint(
        &url(API, Some("api.flakehub.com")),
        &Some("some-org/some-repo".to_string()),
    );
    assert_eq!(r.unwrap(), "https://api.flakehub.com/project/some-org/some-repo");
}

#[test]
fn join_url_inserts_exactly_one_slash() {
    assert_eq!(join_url("https://h/", "a/b"), "https://h/a/b");
    assert_eq!(join_url("https://h", "a/b"), "https://h/a/b");
    assert_eq!(join_url("", "a"), "/a");
}

#[test]
fn namespace_is_org_colon_project() {
    let body = "{\"organization_uuid_v7\": \"11111111-1111-1111-1111-111111111111\", \"project_uuid_v7\": \"22222222-2222-2222-2222-222222222222\"}";
    let ns = decode_project_response(200, body).unwrap();
    assert_eq!(
        ns,
        "11111111-1111-1111-1111-111111111111:22222222-2222-2222-2222-222222222222"
    );
}

#[test]
fn namespace_uuids_are_canonicalized() {
    let body = "{\"project_uuid_v7\": \"22222222222222222222222222222222\", \"organization_uuid_v7\": \"1111AAAA-1111-1111-1111-111111111111\"}";
    let ns = decode_project_response(299, body).unwrap();
    assert_eq!(
        ns,
        "1111aaaa-1111-1111-1111-111111111111:22222222-2222-2222-2222-222222222222"
    );
}

#[test]
fn metadata_failure_carries_status_and_body_verbatim() {
    let r = decode_project_response(404, "not found");
    assert_eq!(
        r.unwrap_err(),
        Error::GetCacheName {
            status: 404,
            body: "not found".to_string()
        }
    );
}

#[test]
fn metadata_success_with_bad_body_is_a_decode_error() {
    let r = decode_project_response(200, "{\"organization_uuid_v7\": \"not-a-uuid\", \"project_uuid_v7\": \"22222222-2222-2222-2222-222222222222\"}");
    assert!(matches!(r.unwrap_err(), Error::Decode { .. }));
    let r = decode_project_response(200, "no json here");
    assert!(matches!(r.unwrap_err(), Error::Decode { .. }));
    let r = decode_project_response(200, "{\"project_uuid_v7\": \"22222222-2222-2222-2222-222222222222\"}");
    assert!(matches!(r.unwrap_err(), Error::Decode { .. }));
}

#[test]
fn cache_config_endpoint_names_the_namespace() {
    let e = cache_config_endpoint(&url(CACHE, Some("cache.flakehub.com")), "org:proj");
    assert_eq!(e, "https://cache.flakehub.com/_api/v1/cache-config/org:proj");
}

#[test]
fn cache_config_success_keeps_the_body() {
    let r = decode_cache_config_response(200, "{\"substituter_endpoint\": \"https://cache\"}");
    assert_eq!(r.unwrap(), "{\"substituter_endpoint\": \"https://cache\"}");
}

#[test]
fn cache_config_failure_is_the_decoded_api_error() {
    let r = decode_cache_config_response(
        401,
        "{\"error\": \"unauthorized\", \"message\": \"bad token\"}",
    );
    assert_eq!(
        r.unwrap_err(),
        Error::Api {
            status: 401,
            error: "unauthorized".to_string(),
            message: "bad token".to_string()
        }
    );
}

#[test]
fn cache_config_failure_without_structure_is_a_decode_error() {
    let r = decode_cache_config_response(500, "gateway exploded");
    assert!(matches!(r.unwrap_err(), Error::Decode { .. }));
}

#[test]
fn session_plan_carries_the_fixed_policy() {
    let p = build_session_plan(
        &url(CACHE, Some("cache.flakehub.com")),
        &creds("user-1", "pw-1"),
        "org:proj".to_string(),
        "{}".to_string(),
    );
    assert_eq!(p.endpoint, CACHE);
    assert_eq!(p.token, "pw-1");
    assert_eq!(p.namespace, "org:proj");
    assert_eq!(p.config, "{}");
    assert_eq!(p.num_workers, 5);
    assert!(!p.force_preamble);
    assert!(!p.no_closure);
    assert!(!p.ignore_upstream_cache_filter);
}

#[test]
fn credential_projections_are_distinct() {
    let c = creds("user-1", "pw-1");
    assert_eq!(bearer_header(&c), "Bearer pw-1");
    let (login, password) = basic_auth(&c);
    assert_eq!(login, "user-1");
    assert_eq!(password, "pw-1");
}

#[test]
fn user_agent_is_fixed() {
    assert_eq!(USER_AGENT, "magic-nix-cache");
}
