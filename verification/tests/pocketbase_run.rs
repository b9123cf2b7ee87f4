use backup_docker_files::models::extraction::ExtractionType;
use backup_docker_files::models::labels::Labels;
use backup_docker_files::services::extraction::pocketbase::{PocketbaseEvent, PocketbaseExtraction};

fn labels(pairs: &[(&str, &str)]) -> Labels {
    Labels::new(
        true,
        ExtractionType::Pocketbase,
        true,
        vec![],
        Some(pairs.iter().map(|(k, v)| (k.to_string(), v.to_string())).collect()),
    )
}

fn full() -> Labels {
    labels(&[("pocketbase.url", "http://pb:8090"), ("pocketbase.username", "u"), ("pocketbase.password", "p")])
}

fn next(run: &PocketbaseExtraction) -> String {
    format!("{:?}", run.next_action())
}

fn ok(s: &str) -> Result<String, String> {
    Ok(s.to_string())
}

#[test]
fn online_pocketbase_extraction_runs_every_step() {
    let mut run = PocketbaseExtraction::start("pb", true, "/tmp/stage", &full());
    assert_eq!(next(&run), "Connect");
    run.on_event(PocketbaseEvent::Connected(Ok(())));
    assert_eq!(next(&run), "Pause(\"pb\")");
    run.on_event(PocketbaseEvent::Paused(Ok(())));
    assert_eq!(next(&run), "Authenticate(\"http://pb:8090\", \"u\", \"p\")");
    run.on_event(PocketbaseEvent::Authenticated(ok("t0k")));
    assert_eq!(next(&run), "CreateBackup(\"t0k\")");
    run.on_event(PocketbaseEvent::BackupCreated(ok("bdf-backup-1.zip")));
    assert_eq!(next(&run), "GetFileToken(\"t0k\")");
    run.on_event(PocketbaseEvent::FileTokenIssued(ok("ft")));
    assert_eq!(
        next(&run),
        "Download(\"t0k\", \"bdf-backup-1.zip\", \"ft\", \"/tmp/stage/pb\")"
    );
    run.on_event(PocketbaseEvent::Downloaded(ok("/tmp/stage/pb")));
    assert_eq!(next(&run), "Unpause(\"pb\")");
    run.on_event(PocketbaseEvent::Unpaused(Ok(())));
    assert_eq!(next(&run), "Done(Ok(\"/tmp/stage/pb\"))");
}

#[test]
fn offline_pocketbase_extraction_skips_pause_and_unpause() {
    let mut run = PocketbaseExtraction::start("pb", false, "/s", &full());
    run.on_event(PocketbaseEvent::Connected(Ok(())));
    assert_eq!(next(&run), "Authenticate(\"http://pb:8090\", \"u\", \"p\")");
    run.on_event(PocketbaseEvent::Authenticated(ok("t")));
    run.on_event(PocketbaseEvent::BackupCreated(ok("k")));
    run.on_event(PocketbaseEvent::FileTokenIssued(ok("f")));
    run.on_event(PocketbaseEvent::Downloaded(ok("/s/pb")));
    assert_eq!(next(&run), "Done(Ok(\"/s/pb\"))");
}

#[test]
fn missing_credentials_end_before_anything_else() {
    let run = PocketbaseExtraction::start("pb", true, "/s", &labels(&[("pocketbase.url", "x")]));
    assert_eq!(next(&run), "Done(Err(\"Pocketbase username not found in container labels\"))");
}

#[test]
fn failed_steps_end_the_extraction_and_leave_it_paused() {
    let mut run = PocketbaseExtraction::start("pb", true, "/s", &full());
    run.on_event(PocketbaseEvent::Connected(Ok(())));
    run.on_event(PocketbaseEvent::Paused(Ok(())));
    run.on_event(PocketbaseEvent::Authenticated(ok("t")));
    run.on_event(PocketbaseEvent::BackupCreated(Err("Failed to create backup: no".to_string())));
    assert_eq!(next(&run), "Done(Err(\"Failed to create backup: no\"))");
    run.on_event(PocketbaseEvent::Unpaused(Ok(())));
    assert_eq!(next(&run), "Done(Err(\"Failed to create backup: no\"))");

    let mut run = PocketbaseExtraction::start("pb", true, "/s", &full());
    run.on_event(PocketbaseEvent::Connected(Err("Failed to connect to Docker: down".to_string())));
    assert_eq!(next(&run), "Done(Err(\"Failed to connect to Docker: down\"))");

    let mut run = PocketbaseExtraction::start("pb", true, "/s", &full());
    run.on_event(PocketbaseEvent::Connected(Ok(())));
    run.on_event(PocketbaseEvent::Paused(Err("denied".to_string())));
    assert_eq!(next(&run), "Done(Err(\"Failed to pause container pb: denied\"))");

    let mut run = PocketbaseExtraction::start("pb", true, "/s", &full());
    run.on_event(PocketbaseEvent::Connected(Ok(())));
    run.on_event(PocketbaseEvent::Paused(Ok(())));
    run.on_event(PocketbaseEvent::Authenticated(ok("t")));
    run.on_event(PocketbaseEvent::BackupCreated(ok("k")));
    run.on_event(PocketbaseEvent::FileTokenIssued(ok("f")));
    run.on_event(PocketbaseEvent::Downloaded(ok("/s/pb")));
    run.on_event(PocketbaseEvent::Unpaused(Err("gone".to_string())));
    assert_eq!(next(&run), "Done(Err(\"Failed to unpause container pb: gone\"))");
}

#[test]
fn pocketbase_events_out_of_turn_change_nothing() {
    let mut run = PocketbaseExtraction::start("pb", true, "/s", &full());
    run.on_event(PocketbaseEvent::Authenticated(ok("t")));
    run.on_event(PocketbaseEvent::Paused(Ok(())));
    assert_eq!(next(&run), "Connect");
}
