use std::collections::HashMap;

use backup_docker_files::models::extraction::ExtractionType;
use backup_docker_files::models::label::{self, Label};
use backup_docker_files::models::labels::{label_keys, Labels};

#[test]
fn test_single_file_path() {
    let expected_file_path = "/data/file1.txt".to_string();
    let mut labels_map = HashMap::new();
    labels_map.insert("bdf.enable".to_string(), "true".to_string());
    labels_map.insert("bdf.extraction_type".to_string(), "File".to_string());
    labels_map.insert("bdf.online".to_string(), "false".to_string());
    labels_map.insert("bdf.file_path".to_string(), expected_file_path.clone());

    let labels = Labels::from_labels(&labels_map).unwrap();

    assert_eq!(labels.file_paths, vec![expected_file_path]);
}

#[test]
fn test_multiple_file_paths() {
    let expected_file_paths = vec!["/data/file1.txt".to_string(), "/data/file2.txt".to_string()];
    let mut labels_map = HashMap::new();
    labels_map.insert("bdf.enable".to_string(), "true".to_string());
    labels_map.insert("bdf.extraction_type".to_string(), "File".to_string());
    labels_map.insert("bdf.online".to_string(), "false".to_string());
    labels_map.insert("bdf.file_path.0".to_string(), expected_file_paths[0].clone());
    labels_map.insert("bdf.file_path.1".to_string(), expected_file_paths[1].clone());

    let labels = Labels::from_labels(&labels_map).unwrap();

    assert_eq!(labels.file_paths, expected_file_paths);
}

fn base_labels() -> HashMap<String, String> {
    let mut m = HashMap::new();
    m.insert("bdf.enable".to_string(), "true".to_string());
    m.insert("bdf.extraction_type".to_string(), "sqlite".to_string());
    m.insert("bdf.online".to_string(), "true".to_string());
    m
}

#[test]
fn missing_required_key_is_refused() {
    for key in ["bdf.enable", "bdf.extraction_type", "bdf.online"] {
        let mut m = base_labels();
        m.remove(key);
        let r = Labels::from_labels(&m);
        assert_eq!(r.unwrap_err(), "Missing required label keys".to_string());
    }
}

#[test]
fn flags_and_extraction_type_are_read() {
    let labels = Labels::from_labels(&base_labels()).unwrap();
    assert!(labels.enabled);
    assert!(labels.online);
    assert_eq!(labels.extraction_type, ExtractionType::SQLite);

    let mut m = base_labels();
    m.insert("bdf.enable".to_string(), "True".to_string());
    m.insert("bdf.online".to_string(), "no".to_string());
    m.insert("bdf.extraction_type".to_string(), "pocketbase".to_string());
    let labels = Labels::from_labels(&m).unwrap();
    assert!(!labels.enabled);
    assert!(!labels.online);
    assert_eq!(labels.extraction_type, ExtractionType::Pocketbase);

    for (name, t) in [
        ("file", ExtractionType::File),
        ("tinydb", ExtractionType::TinyDB),
        ("sqlite", ExtractionType::SQLite),
        ("pocketbase", ExtractionType::Pocketbase),
        ("SQLite", ExtractionType::File),
        ("", ExtractionType::File),
    ] {
        let mut m = base_labels();
        m.insert("bdf.extraction_type".to_string(), name.to_string());
        assert_eq!(Labels::from_labels(&m).unwrap().extraction_type, t);
    }
}

#[test]
fn file_paths_follow_key_order_and_other_labels_lose_their_prefix() {
    let mut m = base_labels();
    m.insert("bdf.file_path.b".to_string(), "/b".to_string());
    m.insert("bdf.file_path.a".to_string(), "/a".to_string());
    m.insert("bdf.file_path".to_string(), "/root".to_string());
    m.insert("bdf.pocketbase.url".to_string(), "http://pb".to_string());
    m.insert("bdf.pocketbase.username".to_string(), "admin".to_string());
    m.insert("com.example.unrelated".to_string(), "x".to_string());
    m.insert("bdfx.not_ours".to_string(), "y".to_string());
    let labels = Labels::from_labels(&m).unwrap();
    assert_eq!(labels.file_paths, vec!["/root".to_string(), "/a".to_string(), "/b".to_string()]);
    assert_eq!(
        labels.other,
        Some(vec![
            ("pocketbase.url".to_string(), "http://pb".to_string()),
            ("pocketbase.username".to_string(), "admin".to_string()),
        ])
    );
    assert_eq!(labels.other_value("pocketbase.url"), Some(&"http://pb".to_string()));
    assert_eq!(labels.other_value("pocketbase.password"), None);
}

#[test]
fn parsing_from_entries_agrees_with_parsing_the_map() {
    let entries = vec![
        ("bdf.file_path.1".to_string(), "/two".to_string()),
        ("bdf.online".to_string(), "false".to_string()),
        ("bdf.extraction_type".to_string(), "tinydb".to_string()),
        ("bdf.file_path.0".to_string(), "/one".to_string()),
        ("bdf.enable".to_string(), "true".to_string()),
        ("bdf.extra".to_string(), "z".to_string()),
    ];
    let map: HashMap<String, String> = entries.iter().cloned().collect();
    let a = Labels::from_entries(&entries).unwrap();
    let b = Labels::from_labels(&map).unwrap();
    assert_eq!(a.file_paths, vec!["/one".to_string(), "/two".to_string()]);
    assert_eq!(a.file_paths, b.file_paths);
    assert_eq!(a.other, b.other);
    assert_eq!(a.other, Some(vec![("extra".to_string(), "z".to_string())]));
    assert_eq!(a.extraction_type, ExtractionType::TinyDB);
}

#[test]
fn label_keys_name_the_three_required_labels() {
    let expected = vec![
        ("enable".to_string(), "bdf.enable".to_string()),
        ("extraction_type".to_string(), "bdf.extraction_type".to_string()),
        ("online".to_string(), "bdf.online".to_string()),
    ];
    assert_eq!(label_keys(), expected);
    assert_eq!(label::label_keys(), expected);
}

#[test]
fn basic_label_reads_capitalised_types_and_defaults() {
    let empty = HashMap::new();
    let l = Label::from_labels(&empty);
    assert!(!l.enabled && !l.online);
    assert_eq!(l.extraction_type, ExtractionType::File);

    let mut m = HashMap::new();
    m.insert("bdf.enable".to_string(), "true".to_string());
    m.insert("bdf.extraction_type".to_string(), "TinyDB".to_string());
    let l = Label::from_labels(&m);
    assert!(l.enabled && !l.online);
    assert_eq!(l.extraction_type, ExtractionType::TinyDB);

    for (name, t) in [
        ("File", ExtractionType::File),
        ("SQLite", ExtractionType::SQLite),
        ("Pocketbase", ExtractionType::Pocketbase),
        ("sqlite", ExtractionType::File),
    ] {
        let mut m = HashMap::new();
        m.insert("bdf.extraction_type".to_string(), name.to_string());
        assert_eq!(Label::from_labels(&m).extraction_type, t);
    }
    let made = Label::new(true, ExtractionType::SQLite, true);
    assert!(made.enabled && made.online);
}
