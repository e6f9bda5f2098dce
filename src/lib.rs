//! A resumable chunked transfer engine: byte-range arithmetic for numbered
//! parts, the bookkeeping of a multipart upload session, the decisions of a
//! streaming download and the checks applied to each remote exchange;
//! beside it, the folder layout and sync rules of a project and the media
//! types reported for files.
pub mod byte_range;
pub mod download;
pub mod mime;
pub mod project_folders;
pub mod session;
pub mod transfer;
