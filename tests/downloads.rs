use chunked_transfer::download::{transfer_speed, DownloadController, DownloadPhase};

#[test]
fn matching_file_is_skipped() {
    let (c, event) =
        DownloadController::start("t1".to_string(), "/tmp/a.bin".to_string(), 4096, Some(4096), 0);
    assert_eq!(c.phase, DownloadPhase::Skipped);
    assert_eq!(event.status, "skipped");
    assert_eq!(event.downloaded, 4096);
    assert_eq!(event.total, 4096);
    assert_eq!(event.speed, 0);
    assert_eq!(event.task_id, "t1");
    let result = c.result();
    assert!(result.success);
    assert_eq!(result.task_id, "t1");
    assert_eq!(result.file_path, "/tmp/a.bin");
    assert_eq!(result.error, None);
}

#[test]
fn smaller_file_is_downloaded_again() {
    let (mut c, event) =
        DownloadController::start("t2".to_string(), "/tmp/b.bin".to_string(), 4096, Some(100), 0);
    assert_eq!(c.phase, DownloadPhase::Streaming);
    assert_eq!(event.status, "downloading");
    assert_eq!(event.downloaded, 0);
    assert_eq!(event.total, 4096);
    assert!(c.record_chunk(1024, 50).is_none());
    assert_eq!(c.record_chunk(1024, 120).is_none(), true);
    let mid = c.record_chunk(1024, 250).unwrap();
    assert_eq!(mid.status, "downloading");
    assert_eq!(mid.downloaded, 3072);
    assert_eq!(mid.speed, 3072 * 1000 / 250);
    assert!(c.record_chunk(1024, 300).is_none());
    let done = c.finish();
    assert_eq!(done.status, "completed");
    assert_eq!(done.downloaded, 4096);
    assert_eq!(done.total, 4096);
    assert_eq!(done.speed, 0);
    assert_eq!(c.phase, DownloadPhase::Finalized);
    assert_eq!(c.result().file_path, "/tmp/b.bin");
}

#[test]
fn unknown_length_is_never_skipped() {
    let (c, event) = DownloadController::start("t3".to_string(), "p".to_string(), 0, Some(0), 7);
    assert_eq!(c.phase, DownloadPhase::Streaming);
    assert_eq!(event.downloaded, 0);
    assert_eq!(event.total, 0);
    assert_eq!(c.last_emit_ms, 7);
}

#[test]
fn missing_file_is_not_skipped() {
    let (c, _) = DownloadController::start("t4".to_string(), "p".to_string(), 10, None, 0);
    assert_eq!(c.phase, DownloadPhase::Streaming);
}

#[test]
fn reports_at_most_every_interval() {
    let (mut c, _) = DownloadController::start("t5".to_string(), "p".to_string(), 0, None, 1000);
    assert!(c.record_chunk(10, 1199).is_none());
    let first = c.record_chunk(10, 1200).unwrap();
    assert_eq!(first.downloaded, 20);
    assert_eq!(first.speed, 100);
    assert!(c.record_chunk(10, 1399).is_none());
    let second = c.record_chunk(30, 1600).unwrap();
    assert_eq!(second.downloaded, 60);
    assert_eq!(second.speed, 40 * 1000 / 400);
    assert_eq!(c.last_emit_bytes, 60);
    assert_eq!(c.last_emit_ms, 1600);
}

#[test]
fn whole_body_download() {
    let (mut c, _) = DownloadController::start("t6".to_string(), "p".to_string(), 500, Some(3), 100);
    let done = c.finish_whole(500, 600);
    assert_eq!(done.status, "completed");
    assert_eq!(done.downloaded, 500);
    assert_eq!(done.speed, 1000);
    assert_eq!(c.phase, DownloadPhase::Finalized);
}

#[test]
fn speed_values() {
    assert_eq!(transfer_speed(1000, 0), 0);
    assert_eq!(transfer_speed(1000, 1000), 1000);
    assert_eq!(transfer_speed(1, 3), 333);
    assert_eq!(transfer_speed(u64::MAX, 1), u64::MAX);
    assert_eq!(transfer_speed(u64::MAX, 1000), u64::MAX);
}
