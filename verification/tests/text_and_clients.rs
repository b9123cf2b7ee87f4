use backup_docker_files::clients::pocketbase::{
    authorization_value, pocketbase_backup_name, pocketbase_credentials, token_from_response,
};
use backup_docker_files::models::extraction::ExtractionType;
use backup_docker_files::models::labels::Labels;
use backup_docker_files::text::{
    find_first, join_path, join_segments, replace_first_str, split_segments, starts_with,
    str_equals, str_precedes,
};

#[test]
fn string_helpers() {
    assert!(str_equals("abc", "abc"));
    assert!(!str_equals("abc", "abd"));
    assert!(starts_with("bdf.file_path.0", "bdf.file_path"));
    assert!(!starts_with("bdf", "bdf."));
    assert_eq!(join_path("/a", "b"), "/a/b");
    assert!(str_precedes("a", "b"));
    assert!(str_precedes("ab", "abc"));
    assert!(!str_precedes("abc", "abc"));
    assert!(!str_precedes("b", "ab"));
    assert_eq!(find_first("hello", "l"), Some(2));
    assert_eq!(find_first("hello", "z"), None);
    assert_eq!(replace_first_str("a-b-c", "-", "+"), "a+b-c");
    assert_eq!(replace_first_str("abc", "x", "y"), "abc");
    assert_eq!(replace_first_str("abc", "", "_"), "_abc");
}

#[test]
fn split_and_join_round_trip() {
    for s in ["", "/", "a", "/a/b", "a//b/", "//"] {
        let pieces = split_segments(s);
        let std_pieces: Vec<String> = s.split('/').map(|p| p.to_string()).collect();
        assert_eq!(pieces, std_pieces);
        assert_eq!(join_segments(&pieces), s);
    }
}

#[test]
fn tokens_are_read_from_json_answers() {
    assert_eq!(token_from_response("{\"token\":\"abc\",\"record\":{}}"), Ok("abc".to_string()));
    assert_eq!(token_from_response("{\"token\":5}"), Ok("".to_string()));
    let missing = token_from_response("{\"other\":1}").unwrap_err();
    assert!(missing.starts_with("Token not found in response: "));
    let bad = token_from_response("not json").unwrap_err();
    assert!(bad.starts_with("Failed to parse response: "));
}

#[test]
fn token_errors_carry_the_json_texts() {
    let body = "{\"other\":1}";
    let value: serde_json::Value = serde_json::from_str(body).unwrap();
    assert_eq!(
        token_from_response(body),
        Err(format!("Token not found in response: {:?}", value))
    );
    let bad = "{\"token\":";
    let error = serde_json::from_str::<serde_json::Value>(bad).unwrap_err();
    assert_eq!(
        token_from_response(bad),
        Err(format!("Failed to parse response: {}", error))
    );
}

#[test]
fn pocketbase_request_pieces() {
    assert_eq!(authorization_value("t0k"), "Bearer t0k");
    let name = pocketbase_backup_name();
    assert!(name.starts_with("bdf-backup-") && name.ends_with(".zip"));
    assert_eq!(name.len(), "bdf-backup-".len() + 36 + ".zip".len());
    assert_ne!(name, pocketbase_backup_name());
    let id: Vec<char> = name["bdf-backup-".len()..name.len() - ".zip".len()].chars().collect();
    assert_eq!(id[14], '4');
    assert_eq!([id[8], id[13], id[18], id[23]], ['-'; 4]);
    assert!(id.iter().all(|c| *c == '-' || c.is_ascii_digit() || ('a'..='f').contains(c)));
}

#[test]
fn pocketbase_credentials_come_from_other_labels() {
    let with = |pairs: &[(&str, &str)]| {
        Labels::new(
            true,
            ExtractionType::Pocketbase,
            false,
            vec![],
            Some(pairs.iter().map(|(k, v)| (k.to_string(), v.to_string())).collect()),
        )
    };
    let full = with(&[("pocketbase.url", "http://pb:8090"), ("pocketbase.username", "u"), ("pocketbase.password", "p")]);
    assert_eq!(
        pocketbase_credentials(&full),
        Ok(("http://pb:8090".to_string(), "u".to_string(), "p".to_string()))
    );
    assert_eq!(
        pocketbase_credentials(&with(&[])).unwrap_err(),
        "Pocketbase URL not found in container labels"
    );
    assert_eq!(
        pocketbase_credentials(&with(&[("pocketbase.url", "x")])).unwrap_err(),
        "Pocketbase username not found in container labels"
    );
    assert_eq!(
        pocketbase_credentials(&with(&[("pocketbase.url", "x"), ("pocketbase.username", "u")])).unwrap_err(),
        "Pocketbase password not found in container labels"
    );
    let none = Labels::new(true, ExtractionType::Pocketbase, false, vec![], None);
    assert!(pocketbase_credentials(&none).is_err());
}
