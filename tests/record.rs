use mdp::record::{decode, encode, DELIMITER};

#[test]
fn encode_joins_with_delimiter() {
    assert_eq!(encode("p1", "site-a"), "p1∫∆∫site-a");
    assert_eq!(DELIMITER.chars().count(), 3);
}

#[test]
fn decode_splits_at_first_delimiter() {
    assert_eq!(
        decode("p1∫∆∫site-a"),
        Some(("p1".to_string(), "site-a".to_string()))
    );
    assert_eq!(
        decode("a∫∆∫b∫∆∫c"),
        Some(("a".to_string(), "b∫∆∫c".to_string()))
    );
    assert_eq!(decode("∫∆∫"), Some((String::new(), String::new())));
}

#[test]
fn decode_malformed_line_is_none() {
    assert_eq!(decode("legacy line"), None);
    assert_eq!(decode(""), None);
    assert_eq!(decode("x∫∆y"), None);
}

#[test]
fn round_trip_restores_fields() {
    let cases = [("secret", "description"), ("", ""), ("p@ss∫", "∆ site"), ("🔑", "clé")];
    for (s, d) in cases {
        assert_eq!(decode(&encode(s, d)), Some((s.to_string(), d.to_string())));
    }
}

#[test]
fn round_trip_fails_when_secret_ends_with_delimiter_head() {
    let line = encode("a∫∆", "b");
    assert_eq!(decode(&line), Some(("a".to_string(), "∆∫b".to_string())));
}
