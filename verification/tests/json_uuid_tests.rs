use magic_nix_cache::json::parse_json_object;
use magic_nix_cache::uuid::canonical_uuid;

#[test]
fn reads_flat_string_objects() {
    let fields = parse_json_object("{\"a\": \"1\", \"b\": \"2\"}").unwrap();
    assert_eq!(fields.len(), 2);
    assert_eq!(fields[0].key, "a");
    assert_eq!(fields[0].value, "1");
    assert_eq!(fields[1].key, "b");
    assert_eq!(fields[1].value, "2");
}

#[test]
fn reads_empty_object_and_odd_whitespace() {
    assert!(parse_json_object("  { } ").unwrap().is_empty());
    let fields = parse_json_object("\t{\n  \"k\"  :\r\n \"v\" }\n").unwrap();
    assert_eq!(fields.len(), 1);
    assert_eq!(fields[0].key, "k");
    assert_eq!(fields[0].value, "v");
}

#[test]
fn decodes_common_escapes() {
    let fields =
        parse_json_object("{\"k\": \"a\\\"b\\\\c\\/d\\ne\\tf\\rg\"}").unwrap();
    assert_eq!(fields[0].value, "a\"b\\c/d\ne\tf\rg");
}

#[test]
fn rejects_other_json_shapes() {
    assert!(parse_json_object("[1, 2]").is_none());
    assert!(parse_json_object("{\"k\": 5}").is_none());
    assert!(parse_json_object("{\"k\": \"v\",}").is_none());
    assert!(parse_json_object("{\"k\" \"v\"}").is_none());
    assert!(parse_json_object("{\"k\": \"v\"} trailing").is_none());
    assert!(parse_json_object("{\"k\": \"unterminated").is_none());
    assert!(parse_json_object("{\"k\": \"bad\\uescape\"}").is_none());
    assert!(parse_json_object("").is_none());
}

#[test]
fn agrees_with_a_reference_reader() {
    let bodies = [
        "{\"organization_uuid_v7\": \"11111111-1111-1111-1111-111111111111\", \"project_uuid_v7\": \"22222222-2222-2222-2222-222222222222\"}",
        "{ \"error\" : \"unauthorized\" , \"message\" : \"no \\\"token\\\"\" }",
        "{}",
    ];
    for body in bodies {
        let mine = parse_json_object(body).unwrap();
        let reference: serde_json::Value = serde_json::from_str(body).unwrap();
        let obj = reference.as_object().unwrap();
        assert_eq!(mine.len(), obj.len());
        for field in &mine {
            assert_eq!(obj.get(&field.key).and_then(|v| v.as_str()), Some(field.value.as_str()));
        }
    }
}

#[test]
fn canonical_uuid_accepts_both_spellings() {
    assert_eq!(
        canonical_uuid("11111111-1111-1111-1111-111111111111").as_deref(),
        Some("11111111-1111-1111-1111-111111111111")
    );
    assert_eq!(
        canonical_uuid("0190F5A0-DEAD-7BEE-8000-0123456789AB").as_deref(),
        Some("0190f5a0-dead-7bee-8000-0123456789ab")
    );
    assert_eq!(
        canonical_uuid("0190f5a0dead7bee80000123456789ab").as_deref(),
        Some("0190f5a0-dead-7bee-8000-0123456789ab")
    );
}

#[test]
fn canonical_uuid_rejects_other_text() {
    assert_eq!(canonical_uuid(""), None);
    assert_eq!(canonical_uuid("11111111-1111-1111-1111-11111111111"), None);
    assert_eq!(canonical_uuid("11111111-1111-1111-1111-1111111111112"), None);
    assert_eq!(canonical_uuid("g1111111-1111-1111-1111-111111111111"), None);
    assert_eq!(canonical_uuid("11111111x1111-1111-1111-111111111111"), None);
    assert_eq!(canonical_uuid("{11111111-1111-1111-1111-111111111111}"), None);
    assert_eq!(
        canonical_uuid("urn:uuid:11111111-1111-1111-1111-111111111111"),
        None
    );
}
