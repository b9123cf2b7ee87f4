use backup_docker_files::services::extraction::run::{ExtractionEvent, FileExtraction};
use backup_docker_files::services::extraction::sqlite::sqlite_file_paths;

fn paths(items: &[&str]) -> Vec<String> {
    items.iter().map(|s| s.to_string()).collect()
}

fn next(run: &FileExtraction) -> String {
    format!("{:?}", run.next_action())
}

#[test]
fn offline_files_are_copied_in_order() {
    let mut run = FileExtraction::start("db", false, "/tmp/stage", &paths(&["/a", "/b"]));
    assert_eq!(next(&run), "CreateStaging");
    run.on_event(ExtractionEvent::StagingCreated(Ok(())));
    assert_eq!(next(&run), "CopyFile(\"/a\")");
    run.on_event(ExtractionEvent::Copied(Ok(())));
    assert_eq!(next(&run), "CopyFile(\"/b\")");
    run.on_event(ExtractionEvent::Copied(Ok(())));
    assert_eq!(next(&run), "Done(Ok(\"/tmp/stage/db\"))");
}

#[test]
fn online_container_is_paused_then_unpaused() {
    let mut run = FileExtraction::start("db", true, "/tmp/stage", &paths(&["/a"]));
    assert_eq!(next(&run), "Pause(\"db\")");
    run.on_event(ExtractionEvent::Paused(Ok(())));
    assert_eq!(next(&run), "CreateStaging");
    run.on_event(ExtractionEvent::StagingCreated(Ok(())));
    assert_eq!(next(&run), "CopyFile(\"/a\")");
    run.on_event(ExtractionEvent::Copied(Ok(())));
    assert_eq!(next(&run), "Unpause(\"db\")");
    run.on_event(ExtractionEvent::Unpaused(Ok(())));
    assert_eq!(next(&run), "Done(Ok(\"/tmp/stage/db\"))");
}

#[test]
fn glob_matches_are_copied_before_the_next_path() {
    let mut run = FileExtraction::start("db", false, "/s", &paths(&["/data/*.txt", "/etc/x"]));
    run.on_event(ExtractionEvent::StagingCreated(Ok(())));
    assert_eq!(next(&run), "ExpandGlob(\"/data/*.txt\", \"/data\")");
    run.on_event(ExtractionEvent::GlobExpanded(Ok(paths(&["/data/a.txt", "/data/b.txt"]))));
    assert_eq!(next(&run), "CopyFile(\"/data/a.txt\")");
    run.on_event(ExtractionEvent::Copied(Ok(())));
    assert_eq!(next(&run), "CopyFile(\"/data/b.txt\")");
    run.on_event(ExtractionEvent::Copied(Ok(())));
    assert_eq!(next(&run), "CopyFile(\"/etc/x\")");
    run.on_event(ExtractionEvent::Copied(Ok(())));
    assert_eq!(next(&run), "Done(Ok(\"/s/db\"))");
}

#[test]
fn glob_without_matches_moves_on() {
    let mut run = FileExtraction::start("db", false, "/s", &paths(&["/data/*.txt"]));
    run.on_event(ExtractionEvent::StagingCreated(Ok(())));
    run.on_event(ExtractionEvent::GlobExpanded(Ok(vec![])));
    assert_eq!(next(&run), "Done(Ok(\"/s/db\"))");
}

#[test]
fn failed_glob_ends_the_run_without_unpausing() {
    let mut run = FileExtraction::start("db", true, "/s", &paths(&["/data/*", "/b"]));
    run.on_event(ExtractionEvent::Paused(Ok(())));
    run.on_event(ExtractionEvent::StagingCreated(Ok(())));
    assert_eq!(next(&run), "ExpandGlob(\"/data/*\", \"/data\")");
    run.on_event(ExtractionEvent::GlobExpanded(Err("no such container".to_string())));
    assert_eq!(next(&run), "Done(Err(\"no such container\"))");
    run.on_event(ExtractionEvent::Unpaused(Ok(())));
    assert_eq!(next(&run), "Done(Err(\"no such container\"))");
}

#[test]
fn failed_copies_are_collected() {
    let mut run = FileExtraction::start("db", true, "/s", &paths(&["/a", "/b", "/c"]));
    run.on_event(ExtractionEvent::Paused(Ok(())));
    run.on_event(ExtractionEvent::StagingCreated(Ok(())));
    run.on_event(ExtractionEvent::Copied(Err("e1".to_string())));
    assert_eq!(next(&run), "CopyFile(\"/b\")");
    run.on_event(ExtractionEvent::Copied(Ok(())));
    run.on_event(ExtractionEvent::Copied(Err("e3".to_string())));
    assert_eq!(next(&run), "Unpause(\"db\")");
    run.on_event(ExtractionEvent::Unpaused(Ok(())));
    assert_eq!(
        next(&run),
        "Done(Err(\"Failed to copy file /a: e1; Failed to copy file /c: e3\"))"
    );
}

#[test]
fn failed_pause_staging_and_unpause_end_the_run() {
    let mut run = FileExtraction::start("db", true, "/s", &paths(&["/a"]));
    run.on_event(ExtractionEvent::Paused(Err("denied".to_string())));
    assert_eq!(next(&run), "Done(Err(\"Failed to pause container db: denied\"))");

    let mut run = FileExtraction::start("db", false, "/s", &paths(&["/a"]));
    run.on_event(ExtractionEvent::StagingCreated(Err("read-only".to_string())));
    assert_eq!(next(&run), "Done(Err(\"Failed to create staging directory: read-only\"))");

    let mut run = FileExtraction::start("db", true, "/s", &paths(&[]));
    run.on_event(ExtractionEvent::Paused(Ok(())));
    run.on_event(ExtractionEvent::StagingCreated(Ok(())));
    run.on_event(ExtractionEvent::Unpaused(Err("gone".to_string())));
    assert_eq!(next(&run), "Done(Err(\"Failed to unpause container db: gone\"))");
}

#[test]
fn events_out_of_turn_change_nothing() {
    let mut run = FileExtraction::start("db", true, "/s", &paths(&["/a"]));
    run.on_event(ExtractionEvent::Copied(Err("e".to_string())));
    run.on_event(ExtractionEvent::StagingCreated(Ok(())));
    assert_eq!(next(&run), "Pause(\"db\")");
}

#[test]
fn sqlite_paths_widen_the_first_path() {
    assert_eq!(
        sqlite_file_paths(&paths(&["/data/app.db", "/data/other"])),
        paths(&["/data/app.db*", "/data/other"])
    );
    assert_eq!(sqlite_file_paths(&paths(&["db.sqlite"])), paths(&["db.sqlite*"]));
}
