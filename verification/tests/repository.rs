use backup_docker_files::models::backup::Backup;
use backup_docker_files::models::container::Container;
use backup_docker_files::models::extraction::ExtractionType;
use backup_docker_files::models::labels::Labels;
use backup_docker_files::models::repo::Repository;
use backup_docker_files::services::backup::{complete_backup, enabled_containers};
use backup_docker_files::services::discovery::container_from_summary;
use backup_docker_files::services::repository::{new_backup, repository_name};
use std::collections::HashMap;

fn backup(id: &str, created_at: u64) -> Backup {
    Backup::from_parts(id.to_string(), created_at, vec![], 0, format!("/repo/{}", id))
}

fn ids(v: &Vec<Backup>) -> Vec<String> {
    v.iter().map(|b| b.id().clone()).collect()
}

#[test]
fn new_backup_without_rotation_appends() {
    let mut repo = Repository::new("r".to_string(), "/repo".to_string(), 3).unwrap();
    assert_eq!(repo.id().len(), 36);
    assert_eq!(repo.name(), "r");
    assert_eq!(repo.rotation_limit(), 3);
    repo.add_backup(backup("b", 20));
    repo.add_backup(backup("a", 10));
    let evicted = new_backup(&mut repo).unwrap();
    assert!(evicted.is_empty());
    assert_eq!(repo.backups().len(), 3);
    assert_eq!(ids(repo.backups())[..2], ["b".to_string(), "a".to_string()]);
    let last = repo.backups().last().unwrap();
    assert_eq!(last.root(), "/repo");
    assert!(last.contents().is_empty());
    assert_eq!(last.size(), 0);
    assert_eq!(last.id().len(), 36);
}

#[test]
fn full_repository_rotates_out_the_oldest() {
    let mut repo = Repository::from_parts("id".to_string(), "r".to_string(), 1, "/repo".to_string(), 2, vec![
        backup("c", 30),
        backup("a", 10),
        backup("b", 20),
    ]);
    let evicted = new_backup(&mut repo).unwrap();
    assert_eq!(ids(&evicted), vec!["a", "b"]);
    assert_eq!(repo.backups().len(), 2);
    assert_eq!(repo.backups()[0].id(), "c");
    assert_eq!(repo.backups()[1].root(), "/repo");
    assert_eq!(repo.location(), "/repo");
    assert_eq!(repo.created_at(), 1);
}

#[test]
fn rotation_is_stable_for_equal_times() {
    let mut repo = Repository::from_parts("id".to_string(), "r".to_string(), 1, "/repo".to_string(), 3, vec![
        backup("x", 5),
        backup("y", 5),
        backup("z", 1),
    ]);
    let evicted = new_backup(&mut repo).unwrap();
    assert_eq!(ids(&evicted), vec!["z"]);
    assert_eq!(ids(repo.backups())[..2], ["x".to_string(), "y".to_string()]);
}

#[test]
fn limit_of_one_keeps_only_the_new_backup() {
    let mut repo = Repository::from_parts("id".to_string(), "r".to_string(), 1, "/repo".to_string(), 1, vec![backup("a", 1)]);
    let evicted = new_backup(&mut repo).unwrap();
    assert_eq!(ids(&evicted), vec!["a"]);
    assert_eq!(repo.backups().len(), 1);
}

#[test]
fn completing_a_backup_sums_sizes() {
    let mut b = Backup::new("/repo".to_string()).unwrap();
    assert!(b.created_at() > 0);
    complete_backup(&mut b, vec!["/repo/c/a".to_string(), "/repo/c/b".to_string()], &vec![10, 32]);
    assert_eq!(b.size(), 42);
    assert_eq!(b.contents(), &vec!["/repo/c/a".to_string(), "/repo/c/b".to_string()]);
    let mirrored = b.mirror_to("/m/x".to_string());
    assert_eq!(mirrored.root(), "/m/x");
    assert_eq!(mirrored.size(), 42);
    assert_eq!(mirrored.id(), b.id());
}

fn labels(enabled: bool) -> Labels {
    Labels::new(enabled, ExtractionType::File, false, vec![], None)
}

#[test]
fn only_enabled_containers_are_backed_up() {
    let cs = vec![
        Container::new("1".to_string(), "a".to_string(), labels(true)),
        Container::new("2".to_string(), "b".to_string(), labels(false)),
        Container::new("3".to_string(), "c".to_string(), labels(true)),
    ];
    assert_eq!(enabled_containers(&cs), vec![0, 2]);
}

#[test]
fn listing_entries_become_containers_when_labelled() {
    let mut m = HashMap::new();
    m.insert("bdf.enable".to_string(), "true".to_string());
    m.insert("bdf.extraction_type".to_string(), "file".to_string());
    m.insert("bdf.online".to_string(), "false".to_string());
    m.insert("bdf.file_path".to_string(), "/data".to_string());
    let c = container_from_summary(Some("abc".to_string()), Some(vec!["/web".to_string(), "/alias".to_string()]), Some(&m)).unwrap();
    assert_eq!(c.id, "abc");
    assert_eq!(c.name, "/web");
    assert!(c.labels.enabled);
    assert_eq!(c.labels.file_paths, vec!["/data".to_string()]);

    m.remove("bdf.online");
    assert!(container_from_summary(None, None, Some(&m)).is_none());
    assert!(container_from_summary(None, None, None).is_none());
}

fn is_hyphenated(id: &str, version: char) -> bool {
    let chars: Vec<char> = id.chars().collect();
    chars.len() == 36
        && chars.iter().enumerate().all(|(i, c)| {
            if [8, 13, 18, 23].contains(&i) {
                *c == '-'
            } else {
                c.is_ascii_digit() || ('a'..='f').contains(c)
            }
        })
        && chars[14] == version
        && "89ab".contains(chars[19])
}

#[test]
fn new_records_get_version_7_ids_of_their_creation_time() {
    let repo = Repository::new("r".to_string(), "/repo".to_string(), 3).unwrap();
    assert!(is_hyphenated(repo.id(), '7'));
    let b = Backup::new("/repo".to_string()).unwrap();
    assert!(is_hyphenated(b.id(), '7'));
    let hex: String = b.id().chars().filter(|c| *c != '-').take(12).collect();
    let millis = u64::from_str_radix(&hex, 16).unwrap();
    assert_eq!(millis / 1000, b.created_at());
}

#[test]
fn repository_names_come_from_the_last_component() {
    assert_eq!(repository_name("/srv/backups/main"), "main");
    assert_eq!(repository_name("/srv/backups/main/"), "main");
    assert_eq!(repository_name("relative/dir/."), "dir");
    assert_eq!(repository_name("/"), "/");
    assert_eq!(repository_name("/srv/.."), "/srv/..");
    assert_eq!(repository_name("."), ".");
}
