//! The message shapes exchanged with clients, as plain values. The
//! transport layer marshals these to and from its wire encoding.

use vstd::prelude::*;

verus! {

/// A client announcing itself after connecting.
#[derive(Clone, Debug)]
pub struct ConnectRequest {
    pub client_id: String,
}

/// Answer to a connection announcement: the directories this server offers.
#[derive(Clone, Debug)]
pub struct ConnectResponse {
    pub success: bool,
    pub message: String,
    pub available_directories: Vec<String>,
}

/// Liveness report of the server.
#[derive(Clone, Debug)]
pub struct HealthStatus {
    pub healthy: bool,
    pub uptime_seconds: i64,
    pub version: String,
    pub message: String,
}

/// Asks for the metadata of one virtual path.
#[derive(Clone, Debug)]
pub struct StatRequest {
    pub path: String,
}

/// Asks for the entries under one virtual path.
#[derive(Clone, Debug)]
pub struct ListRequest {
    pub path: String,
}

/// The entries of a listed directory.
#[derive(Clone, Debug)]
pub struct ListResponse {
    pub entries: Vec<FileEntry>,
}

/// Asks for a byte range of one virtual path.
#[derive(Clone, Debug)]
pub struct ReadRequest {
    pub path: String,
    pub offset: Option<u64>,
    pub length: Option<u64>,
}

/// One segment of a streamed file payload: the virtual path it belongs to,
/// its bytes, their position, and whether it ends the transfer.
#[derive(Clone, Debug)]
pub struct DataChunk {
    pub path: String,
    pub data: Vec<u8>,
    pub offset: u64,
    pub is_last: bool,
}

/// Outcome of a write transfer.
#[derive(Clone, Debug)]
pub struct WriteResponse {
    pub success: bool,
    pub message: String,
    pub bytes_written: u64,
}

/// Asks for one virtual path to be removed.
#[derive(Clone, Debug)]
pub struct DeleteRequest {
    pub path: String,
}

/// Outcome of a delete.
#[derive(Clone, Debug)]
pub struct DeleteResponse {
    pub success: bool,
    pub message: String,
}

/// A message with no content.
#[derive(Clone, Debug)]
pub struct Empty {}

/// Metadata of one file or directory.
#[derive(Clone, Debug)]
pub struct FileMetadata {
    pub name: String,
    pub size: u64,
    pub is_directory: bool,
    pub permissions: String,
    pub modified_time: i64,
    pub created_time: i64,
}

/// One entry of a directory listing.
#[derive(Clone, Debug)]
pub struct FileEntry {
    pub name: String,
    pub is_directory: bool,
    pub size: u64,
    pub modified_time: i64,
    pub permissions: String,
}

} // verus!
