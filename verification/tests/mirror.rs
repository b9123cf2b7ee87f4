use backup_docker_files::models::backup::Backup;
use backup_docker_files::models::mirror::{Mirror, MirrorConfig, MirrorType, StorageBackend};
use backup_docker_files::services::mirror::{
    advance_counter, distribute_backup, record_mirrored_backup, resolve_destination,
    should_keep_backup,
};

fn backup(id: &str, created_at: u64) -> Backup {
    Backup::from_parts(id.to_string(), created_at, vec!["/r/a".to_string()], 7, "/repo".to_string())
}

fn local(path: &str) -> MirrorConfig {
    MirrorConfig::new(StorageBackend::Local { path: path.to_string() }, MirrorType::Full)
}

#[test]
fn new_mirror_starts_empty() {
    let m = Mirror::new("m".to_string(), "/mirror".to_string(), "repo".to_string(), MirrorType::Partial { n: 3 }).unwrap();
    assert_eq!(m.id().len(), 36);
    assert_eq!(m.name(), "m");
    assert_eq!(m.location(), "/mirror");
    assert_eq!(m.source_repository(), "repo");
    assert_eq!(*m.mirror_type(), MirrorType::Partial { n: 3 });
    assert!(m.backups().is_empty());
    assert_eq!(m.backups_until_next_keep(), 0);
    assert!(m.created_at() > 0);
}

#[test]
fn full_mirror_keeps_every_backup() {
    let mut m = Mirror::new("m".to_string(), "/mirror".to_string(), "repo".to_string(), MirrorType::Full).unwrap();
    let config = local("/mnt/mirror");
    for i in 0..4 {
        assert!(should_keep_backup(&m));
        let b = backup(&format!("b{}", i), i);
        let dest = distribute_backup(&b, &mut m, &config).unwrap();
        assert_eq!(dest, Some(format!("/mnt/mirror/b{}", i)));
        assert_eq!(m.backups_until_next_keep(), 0);
    }
}

#[test]
fn partial_mirror_keeps_one_in_n() {
    let mut m = Mirror::new("m".to_string(), "/mirror".to_string(), "repo".to_string(), MirrorType::Partial { n: 3 }).unwrap();
    let config = local("/mnt/mirror");
    let mut kept = vec![];
    let mut counters = vec![];
    for i in 0..7 {
        let b = backup(&format!("b{}", i), i);
        if let Some(dest) = distribute_backup(&b, &mut m, &config).unwrap() {
            record_mirrored_backup(&mut m, &b, dest);
            kept.push(i);
        }
        counters.push(m.backups_until_next_keep());
    }
    assert_eq!(kept, vec![0, 3, 6]);
    assert_eq!(counters, vec![2, 1, 0, 2, 1, 0, 2]);
    let roots: Vec<String> = m.backups().iter().map(|b| b.root().clone()).collect();
    assert_eq!(roots, vec!["/mnt/mirror/b0", "/mnt/mirror/b3", "/mnt/mirror/b6"]);
    assert_eq!(m.backups()[1].id(), "b3");
    assert_eq!(m.backups()[1].size(), 7);
    assert_eq!(m.backups()[1].created_at(), 3);
    assert_eq!(m.backups()[1].contents(), &vec!["/r/a".to_string()]);
}

#[test]
fn partial_mirror_of_one_keeps_everything() {
    let mut m = Mirror::new("m".to_string(), "/mirror".to_string(), "repo".to_string(), MirrorType::Partial { n: 1 }).unwrap();
    for _ in 0..3 {
        assert!(should_keep_backup(&m));
        advance_counter(&mut m);
        assert_eq!(m.backups_until_next_keep(), 0);
    }
}

#[test]
fn counter_counts_down_then_resets() {
    let mut m = Mirror::from_parts(
        "id".to_string(),
        "m".to_string(),
        5,
        "/mirror".to_string(),
        "repo".to_string(),
        MirrorType::Partial { n: 4 },
        vec![],
        2,
    );
    assert!(!should_keep_backup(&m));
    advance_counter(&mut m);
    assert_eq!(m.backups_until_next_keep(), 1);
    advance_counter(&mut m);
    assert_eq!(m.backups_until_next_keep(), 0);
    assert!(should_keep_backup(&m));
    advance_counter(&mut m);
    assert_eq!(m.backups_until_next_keep(), 3);
    m.set_backups_until_next_keep(9);
    assert_eq!(m.backups_until_next_keep(), 9);
}

#[test]
fn destination_is_under_the_backend_path() {
    assert_eq!(resolve_destination(&local("/mnt/m"), "abc"), Ok("/mnt/m/abc".to_string()));
    let backend = StorageBackend::Local { path: "/x".to_string() };
    assert_eq!(backend.local_path(), Ok("/x"));
    let config = MirrorConfig::new(backend, MirrorType::Partial { n: 2 });
    assert_eq!(*config.mirror_type(), MirrorType::Partial { n: 2 });
    match config.backend() {
        StorageBackend::Local { path } => assert_eq!(path, "/x"),
    }
}

#[test]
fn removing_a_backup_by_id_keeps_the_others_in_order() {
    let mut m = Mirror::new("m".to_string(), "/mirror".to_string(), "repo".to_string(), MirrorType::Full).unwrap();
    m.add_backup(backup("a", 1));
    m.add_backup(backup("b", 2));
    m.add_backup(backup("a", 3));
    m.add_backup(backup("c", 4));
    m.remove_backup_by_id("a");
    let ids: Vec<String> = m.backups().iter().map(|b| b.id().clone()).collect();
    assert_eq!(ids, vec!["b", "c"]);
    m.remove_backup_by_id("zzz");
    assert_eq!(m.backups().len(), 2);
    m.backups_mut().clear();
    assert!(m.backups().is_empty());
}
