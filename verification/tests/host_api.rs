use proton_launcher::error::HostError;
use proton_launcher::host::{
    host_append, host_regex_capture, host_replace, host_substring, host_to_json,
};
use proton_launcher::json::JsonValue;

fn b(s: &str) -> Vec<u8> {
    s.as_bytes().to_vec()
}

#[test]
fn substring_slices_code_points() {
    let s: Vec<char> = "héllo".chars().collect();
    assert_eq!(host_substring(&s, 1, 3), vec!['é', 'l']);
    assert_eq!(host_substring(&s, 0, 50), "héllo".chars().collect::<Vec<_>>());
    assert_eq!(host_substring(&s, 10, 20), Vec::<char>::new());
}

#[test]
fn append_concatenates() {
    assert_eq!(host_append(&b("foo"), &b("bar")), b("foobar"));
}

#[test]
fn replace_hits_every_occurrence() {
    assert_eq!(
        host_replace(&b("a-b-c-"), &b("-"), &b("__")).unwrap(),
        b("a__b__c__")
    );
    assert_eq!(
        host_replace(&b("aaa"), &b("aa"), &b("x")).unwrap(),
        b("xa")
    );
    assert_eq!(
        host_replace(&b("none here"), &b("zz"), &b("y")).unwrap(),
        b("none here")
    );
    assert_eq!(
        host_replace(&b("abc"), &b(""), &b("y")),
        Err(HostError::EmptyPattern)
    );
}

#[test]
fn regex_capture_returns_the_first_group() {
    assert_eq!(
        host_regex_capture("version v42 here", "v([0-9]+)").unwrap(),
        "42".to_string()
    );
}

#[test]
fn regex_capture_without_match_raises() {
    assert_eq!(
        host_regex_capture("nothing", "v([0-9]+)"),
        Err(HostError::NoMatch)
    );
    // a match without a first group also raises
    assert_eq!(
        host_regex_capture("abc", "abc"),
        Err(HostError::NoMatch)
    );
}

#[test]
fn regex_capture_rejects_bad_patterns() {
    assert_eq!(
        host_regex_capture("abc", "(unclosed"),
        Err(HostError::BadPattern)
    );
}

#[test]
fn to_json_bridges_objects_strings_and_integers() {
    let v = host_to_json(&b("{\"a\":\"x\",\"n\":3,\"o\":{\"b\":1}}")).unwrap();
    assert_eq!(
        v,
        JsonValue::Obj(vec![
            (b("a"), JsonValue::Str(b("x"))),
            (b("n"), JsonValue::Int(3)),
            (b("o"), JsonValue::Obj(vec![(b("b"), JsonValue::Int(1))])),
        ])
    );
}

#[test]
fn to_json_raises_on_unbridged_shapes() {
    assert_eq!(host_to_json(&b("[1,2]")), Err(HostError::UnsupportedJson));
    assert_eq!(host_to_json(&b("{\"f\":1.5}")), Err(HostError::UnsupportedJson));
    assert_eq!(host_to_json(&b("{\"b\":true}")), Err(HostError::UnsupportedJson));
    assert_eq!(host_to_json(&b("{nope")), Err(HostError::BadJson));
}
