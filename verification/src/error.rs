//! Error taxonomy of the library.
//!
//! Per-call failures are reported as `FileServerError`; the session layer
//! translates them into a `StatusError`, the transport-level status that a
//! caller receives.

use vstd::prelude::*;

verus! {

/// Everything that can go wrong inside the library.
///
/// Each variant carries a human-readable detail string. Failures that
/// originate outside the library (the filesystem, the transport, the
/// configuration parser) arrive already rendered to text.
#[derive(Debug)]
pub enum FileServerError {
    PermissionDenied(String),
    FileNotFound(String),
    ConnectionFailed(String),
    InvalidPath(String),
    ConfigError(String),
    IoError(String),
    GrpcError(String),
    TomlError(String),
}

impl FileServerError {
    /// The category prefix used when rendering this error.
    pub open spec fn prefix_spec(&self) -> Seq<char> {
        match self {
            FileServerError::PermissionDenied(_) => "Permission denied: "@,
            FileServerError::FileNotFound(_) => "File not found: "@,
            FileServerError::ConnectionFailed(_) => "Connection failed: "@,
            FileServerError::InvalidPath(_) => "Invalid path: "@,
            FileServerError::ConfigError(_) => "Configuration error: "@,
            FileServerError::IoError(_) => "IO error: "@,
            FileServerError::GrpcError(_) => "gRPC error: "@,
            FileServerError::TomlError(_) => "TOML parsing error: "@,
        }
    }

    /// The detail string carried by this error.
    pub open spec fn detail_spec(&self) -> Seq<char> {
        match self {
            FileServerError::PermissionDenied(m) => m@,
            FileServerError::FileNotFound(m) => m@,
            FileServerError::ConnectionFailed(m) => m@,
            FileServerError::InvalidPath(m) => m@,
            FileServerError::ConfigError(m) => m@,
            FileServerError::IoError(m) => m@,
            FileServerError::GrpcError(m) => m@,
            FileServerError::TomlError(m) => m@,
        }
    }

    /// Full rendered text of the error: category prefix followed by detail.
    pub open spec fn message_spec(&self) -> Seq<char> {
        self.prefix_spec() + self.detail_spec()
    }

    /// Renders the error as `"<category>: <detail>"`.
    pub fn message(&self) -> (r: String)
        ensures
            r@ == self.message_spec(),
    {
        let mut s: String = match self {
            FileServerError::PermissionDenied(_) => String::from_str("Permission denied: "),
            FileServerError::FileNotFound(_) => String::from_str("File not found: "),
            FileServerError::ConnectionFailed(_) => String::from_str("Connection failed: "),
            FileServerError::InvalidPath(_) => String::from_str("Invalid path: "),
            FileServerError::ConfigError(_) => String::from_str("Configuration error: "),
            FileServerError::IoError(_) => String::from_str("IO error: "),
            FileServerError::GrpcError(_) => String::from_str("gRPC error: "),
            FileServerError::TomlError(_) => String::from_str("TOML parsing error: "),
        };
        let d: &String = match self {
            FileServerError::PermissionDenied(m) => m,
            FileServerError::FileNotFound(m) => m,
            FileServerError::ConnectionFailed(m) => m,
            FileServerError::InvalidPath(m) => m,
            FileServerError::ConfigError(m) => m,
            FileServerError::IoError(m) => m,
            FileServerError::GrpcError(m) => m,
            FileServerError::TomlError(m) => m,
        };
        s.append(d.as_str());
        s
    }
}

/// Transport-level status of a failed call, as the session gateway reports
/// it to a client. Mirrors the four status codes the gateway uses.
#[derive(Debug)]
pub enum StatusError {
    InvalidArgument(String),
    PermissionDenied(String),
    NotFound(String),
    Internal(String),
}

impl StatusError {
    /// The detail string carried by this status.
    pub open spec fn detail_spec(&self) -> Seq<char> {
        match self {
            StatusError::InvalidArgument(m) => m@,
            StatusError::PermissionDenied(m) => m@,
            StatusError::NotFound(m) => m@,
            StatusError::Internal(m) => m@,
        }
    }

    /// The detail string, for display by a transport layer.
    pub fn message(&self) -> (r: String)
        ensures
            r@ == self.detail_spec(),
    {
        let m: &String = match self {
            StatusError::InvalidArgument(m) => m,
            StatusError::PermissionDenied(m) => m,
            StatusError::NotFound(m) => m,
            StatusError::Internal(m) => m,
        };
        m.clone()
    }
}

} // verus!
