use chunked_transfer::byte_range::PartRange;
use chunked_transfer::transfer::{
    bearer_value, check_part_read, check_status, form_field_name, part_upload_outcome,
    whole_upload_outcome, TransferError,
};

#[test]
fn status_classes() {
    assert_eq!(check_status(200, String::new()), Ok(()));
    assert_eq!(check_status(299, String::new()), Ok(()));
    assert_eq!(
        check_status(199, "x".to_string()),
        Err(TransferError::RemoteRejected { status: 199, body: "x".to_string() })
    );
    assert_eq!(
        check_status(404, "gone".to_string()),
        Err(TransferError::RemoteRejected { status: 404, body: "gone".to_string() })
    );
}

#[test]
fn part_outcome_returns_token() {
    assert_eq!(
        part_upload_outcome(3, 200, Some("abc".to_string()), "ignored".to_string()),
        Ok("abc".to_string())
    );
}

#[test]
fn part_outcome_without_token_fails() {
    assert_eq!(
        part_upload_outcome(3, 204, None, String::new()),
        Err(TransferError::MissingIntegrityToken { part_number: 3 })
    );
}

#[test]
fn part_outcome_rejected() {
    assert_eq!(
        part_upload_outcome(3, 403, Some("abc".to_string()), "denied".to_string()),
        Err(TransferError::RemoteRejected { status: 403, body: "denied".to_string() })
    );
}

#[test]
fn whole_upload_outcomes() {
    assert_eq!(whole_upload_outcome(201, "{\"id\":1}".to_string()), Ok("{\"id\":1}".to_string()));
    assert_eq!(
        whole_upload_outcome(500, "boom".to_string()),
        Err(TransferError::RemoteRejected { status: 500, body: "boom".to_string() })
    );
}

#[test]
fn short_read_is_reported() {
    let range = PartRange { offset: 10, length: 5 };
    assert_eq!(check_part_read(2, range, 5), Ok(()));
    assert_eq!(
        check_part_read(2, range, 3),
        Err(TransferError::ShortRead { part_number: 2, expected: 5, actual: 3 })
    );
}

#[test]
fn field_name_defaults_to_file() {
    assert_eq!(form_field_name(None), "file");
    assert_eq!(form_field_name(Some("attachment".to_string())), "attachment");
}

#[test]
fn bearer_header_value() {
    assert_eq!(bearer_value("SECRET-REDACTED"), "Bearer SECRET-REDACTED");
    assert_eq!(bearer_value(""), "Bearer ");
}
