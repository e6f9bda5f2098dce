//! The checks applied to one remote exchange: a part upload, a whole-file
//! upload or a download request, and the errors they report.
use crate::byte_range::PartRange;
use vstd::prelude::*;

verus! {

/// Why one transfer operation failed.
#[derive(Debug, Clone, PartialEq, Eq)]
pub enum TransferError {
    /// The part number names no part of the file.
    PartOutOfRange { part_number: u32 },
    /// A local file or directory operation failed.
    LocalIo { path: String, message: String },
    /// The source file held fewer bytes than the part's range.
    ShortRead { part_number: u32, expected: u64, actual: u64 },
    /// The request could not be sent or its response not read.
    Transport { message: String },
    /// The remote answered with a status outside 2xx.
    RemoteRejected { status: u16, body: String },
    /// A part upload succeeded without the integrity token header.
    MissingIntegrityToken { part_number: u32 },
}

/// An HTTP status in the success class 2xx.
pub open spec fn is_success_status(status: u16) -> bool {
    200 <= status <= 299
}

/// Field name of the multipart form used when the caller names none.
pub open spec fn default_field_name() -> Seq<char> {
    seq!['f', 'i', 'l', 'e']
}

/// Value of the `Authorization` header for a bearer `token`.
pub open spec fn bearer_header(token: Seq<char>) -> Seq<char> {
    seq!['B', 'e', 'a', 'r', 'e', 'r', ' '] + token
}

/// Succeeds exactly for a 2xx status; otherwise reports the status with
/// `body` as detail.
pub fn check_status(status: u16, body: String) -> (r: Result<(), TransferError>)
    ensures
        r is Ok <==> is_success_status(status),
        !is_success_status(status) ==> r == Err::<(), _>(
            TransferError::RemoteRejected { status, body },
        ),
{
    if 200 <= status && status <= 299 {
        Ok(())
    } else {
        Err(TransferError::RemoteRejected { status, body })
    }
}

/// Checks that all `range.length` bytes of part `part_number` were read
/// from the source file.
pub fn check_part_read(part_number: u32, range: PartRange, bytes_read: u64) -> (r: Result<
    (),
    TransferError,
>)
    ensures
        r is Ok <==> bytes_read >= range.length,
        bytes_read < range.length ==> r == Err::<(), _>(
            TransferError::ShortRead { part_number, expected: range.length, actual: bytes_read },
        ),
{
    if bytes_read < range.length {
        Err(TransferError::ShortRead { part_number, expected: range.length, actual: bytes_read })
    } else {
        Ok(())
    }
}

/// The result of one part upload, from the response's status, its
/// integrity-token header (if any) and its body: the token on a 2xx status
/// with the header, `MissingIntegrityToken` on a 2xx status without it,
/// and `RemoteRejected` otherwise.
pub fn part_upload_outcome(part_number: u32, status: u16, etag: Option<String>, body: String) -> (r:
    Result<String, TransferError>)
    ensures
        is_success_status(status) && etag is Some ==> r == Ok::<String, TransferError>(
            etag->Some_0,
        ),
        is_success_status(status) && etag is None ==> r == Err::<String, _>(
            TransferError::MissingIntegrityToken { part_number },
        ),
        !is_success_status(status) ==> r == Err::<String, _>(
            TransferError::RemoteRejected { status, body },
        ),
{
    match check_status(status, body) {
        Err(e) => Err(e),
        Ok(()) => match etag {
            Some(token) => Ok(token),
            None => Err(TransferError::MissingIntegrityToken { part_number }),
        },
    }
}

/// The result of a whole-file upload: the response body on a 2xx status,
/// `RemoteRejected` with the status and body otherwise.
pub fn whole_upload_outcome(status: u16, body: String) -> (r: Result<String, TransferError>)
    ensures
        is_success_status(status) ==> r == Ok::<String, TransferError>(body),
        !is_success_status(status) ==> r == Err::<String, _>(
            TransferError::RemoteRejected { status, body },
        ),
{
    if 200 <= status && status <= 299 {
        Ok(body)
    } else {
        Err(TransferError::RemoteRejected { status, body })
    }
}

/// The form field that carries the file: the caller's choice, or `file`.
pub fn form_field_name(field_name: Option<String>) -> (r: String)
    ensures
        field_name matches Some(f) ==> r == f,
        field_name is None ==> r@ == default_field_name(),
{
    match field_name {
        Some(f) => f,
        None => {
            let r = String::from_str("file");
            proof {
                reveal_strlit("file");
            }
            r
        },
    }
}

/// `Bearer <token>`, the value of the `Authorization` header.
pub fn bearer_value(token: &str) -> (r: String)
    ensures
        r@ == bearer_header(token@),
{
    let prefix = String::from_str("Bearer ");
    proof {
        reveal_strlit("Bearer ");
    }
    prefix.concat(token)
}

} // verus!
