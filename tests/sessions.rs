use chunked_transfer::session::{UploadPart, UploadSession, UploadStatus};
use chunked_transfer::transfer::{part_upload_outcome, TransferError};

fn session(file_size: u64, part_size: u64) -> UploadSession {
    UploadSession::new(
        "upload-1".to_string(),
        "objects/model.bin".to_string(),
        "/tmp/model.bin".to_string(),
        file_size,
        part_size,
    )
}

fn numbers(parts: &[UploadPart]) -> Vec<u32> {
    parts.iter().map(|p| p.part_number).collect()
}

#[test]
fn new_session_is_pending_and_empty() {
    let s = session(10_000_001, 5_000_000);
    assert_eq!(s.total_parts, 3);
    assert_eq!(s.upload_id, "upload-1");
    assert_eq!(s.storage_key, "objects/model.bin");
    assert_eq!(s.file_path, "/tmp/model.bin");
    assert_eq!(s.file_size, 10_000_001);
    assert_eq!(s.part_size, 5_000_000);
    assert!(s.uploaded_parts.is_empty());
    assert_eq!(s.status, UploadStatus::Pending);
}

#[test]
fn zero_byte_file_has_zero_parts() {
    let s = session(0, 5_000_000);
    assert_eq!(s.total_parts, 0);
    assert_eq!(s.next_part_number(), None);
    assert_eq!(s.status, UploadStatus::Pending);
}

#[test]
fn two_parts_out_of_order_complete() {
    let mut s = session(10_000_000, 5_000_000);
    assert_eq!(s.total_parts, 2);
    s.add_part(2, "etagB".to_string());
    assert_eq!(s.status, UploadStatus::Pending);
    s.add_part(1, "etagA".to_string());
    let sorted = s.get_sorted_parts();
    assert_eq!(numbers(&sorted), vec![1, 2]);
    assert_eq!(sorted[0].etag, "etagA");
    assert_eq!(sorted[1].etag, "etagB");
    assert_eq!(s.status, UploadStatus::Completed);
}

#[test]
fn adding_a_part_twice_keeps_one_entry() {
    let mut s = session(30, 10);
    s.add_part(2, "t2".to_string());
    s.add_part(2, "t2".to_string());
    assert_eq!(s.uploaded_parts.len(), 1);
    s.add_part(2, "other".to_string());
    assert_eq!(s.uploaded_parts.len(), 1);
    assert_eq!(s.uploaded_parts[0].etag, "t2");
}

#[test]
fn next_part_fills_gaps_from_the_left() {
    let mut s = session(50, 10);
    assert_eq!(s.next_part_number(), Some(1));
    s.add_part(1, "a".to_string());
    s.add_part(3, "c".to_string());
    assert_eq!(s.next_part_number(), Some(2));
    s.add_part(2, "b".to_string());
    assert_eq!(s.next_part_number(), Some(4));
    s.add_part(5, "e".to_string());
    assert_eq!(s.next_part_number(), Some(4));
    s.add_part(4, "d".to_string());
    assert_eq!(s.next_part_number(), None);
    assert_eq!(s.uploaded_parts.len() as u32, s.total_parts);
}

#[test]
fn all_but_one_part_does_not_complete() {
    let mut s = session(40, 10);
    s.status = UploadStatus::Uploading;
    for p in [4, 1, 3] {
        s.add_part(p, format!("t{}", p));
        assert_eq!(s.status, UploadStatus::Uploading);
    }
    s.add_part(2, "t2".to_string());
    assert_eq!(s.status, UploadStatus::Completed);
}

#[test]
fn sorted_parts_for_any_insertion_order() {
    let mut s = session(70, 10);
    for p in [5, 7, 1, 6, 3] {
        s.add_part(p, format!("tag{}", p));
    }
    let sorted = s.get_sorted_parts();
    assert_eq!(numbers(&sorted), vec![1, 3, 5, 6, 7]);
    for part in &sorted {
        assert_eq!(part.etag, format!("tag{}", part.part_number));
    }
    assert_eq!(numbers(&s.uploaded_parts), vec![5, 7, 1, 6, 3]);
}

#[test]
fn missing_token_leaves_session_unchanged() {
    let mut s = session(20, 10);
    s.add_part(1, "a".to_string());
    let outcome = part_upload_outcome(2, 200, None, String::new());
    assert_eq!(outcome, Err(TransferError::MissingIntegrityToken { part_number: 2 }));
    let r = s.record_part_outcome(2, outcome);
    assert_eq!(r, Err(TransferError::MissingIntegrityToken { part_number: 2 }));
    assert_eq!(numbers(&s.uploaded_parts), vec![1]);
    assert_eq!(s.status, UploadStatus::Pending);
}

#[test]
fn recorded_token_completes_session() {
    let mut s = session(20, 10);
    s.add_part(1, "a".to_string());
    let outcome = part_upload_outcome(2, 200, Some("\"b\"".to_string()), String::new());
    assert_eq!(s.record_part_outcome(2, outcome), Ok(()));
    assert_eq!(numbers(&s.get_sorted_parts()), vec![1, 2]);
    assert_eq!(s.uploaded_parts[1].etag, "\"b\"");
    assert_eq!(s.status, UploadStatus::Completed);
}
