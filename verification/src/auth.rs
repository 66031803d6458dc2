//! The authorization engine: network-origin checks at connection time,
//! syntactic validation of relative paths, and per-directory permission
//! checks.

use vstd::prelude::*;
use crate::error::{FileServerError, StatusError};
use crate::net::{entry_admits, ip_text_spec, ip_to_string, IpAddress};
use crate::server_config::{find_dir_spec, ServerConfig};
use crate::text::{concat3, contains_double_dot, has_double_dot, str_eq};

verus! {

/// Authorization engine over the immutable server configuration.
pub struct AuthService {
    pub config: ServerConfig,
}

/// A relative path begins with a root marker.
pub open spec fn starts_with_root(p: Seq<char>) -> bool {
    p.len() > 0 && (p[0] == '/' || p[0] == '\\')
}

/// A relative path is syntactically safe: no parent-directory segment
/// anywhere, and no leading root marker.
pub open spec fn path_is_safe(p: Seq<char>) -> bool {
    !has_double_dot(p) && !starts_with_root(p)
}

/// The client address a connection is judged by: the transport's remote
/// address when it is known, the loopback address otherwise.
pub open spec fn effective_client_ip(remote: Option<IpAddress>) -> IpAddress {
    match remote {
        Some(ip) => ip,
        None => IpAddress::V4(0x7f000001),
    }
}

/// The origin is admitted by some allowlist entry.
pub open spec fn origin_allowed(config: ServerConfig, ip: IpAddress) -> bool {
    exists|i: int|
        0 <= i < config.server.allowed_ips@.len() && entry_admits(
            #[trigger] config.server.allowed_ips@[i]@,
            ip,
        )
}

impl AuthService {
    /// Wraps a configuration.
    pub fn new(config: ServerConfig) -> (r: Self)
        ensures
            r.config == config,
    {
        Self { config }
    }

    /// Judges a connection attempt by its remote address: accepted exactly
    /// when the effective client address matches the allowlist.
    pub fn authorize_connection(&self, remote: Option<IpAddress>) -> (r: Result<(), StatusError>)
        ensures
            r is Ok <==> origin_allowed(self.config, effective_client_ip(remote)),
            r is Err ==> (r->Err_0 is PermissionDenied && r->Err_0.detail_spec() == "IP address "@
                + ip_text_spec(effective_client_ip(remote)) + " is not allowed to connect"@),
    {
        let client_ip = match remote {
            Some(ip) => ip,
            None => IpAddress::V4(0x7f000001),
        };
        if !self.config.is_ip_allowed(&client_ip) {
            let mut m = String::from_str("IP address ");
            m.append(ip_to_string(&client_ip).as_str());
            m.append(" is not allowed to connect");
            return Err(StatusError::PermissionDenied(m));
        }
        Ok(())
    }

    /// Syntactic pre-check of a client-supplied relative path, independent
    /// of the filesystem: a parent-directory segment anywhere, or a leading
    /// root marker, is rejected.
    pub fn validate_path(&self, path: &str) -> (r: Result<(), FileServerError>)
        ensures
            r is Ok <==> path_is_safe(path@),
            r is Err ==> r->Err_0 is InvalidPath,
            has_double_dot(path@) ==> (r is Err && r->Err_0.detail_spec()
                == "Path traversal not allowed"@),
            !has_double_dot(path@) && starts_with_root(path@) ==> (r is Err
                && r->Err_0.detail_spec() == "Absolute paths not allowed"@),
    {
        if contains_double_dot(path) {
            return Err(
                FileServerError::InvalidPath(String::from_str("Path traversal not allowed")),
            );
        }
        let len = path.unicode_len();
        if len > 0 {
            let c0 = path.get_char(0);
            if c0 == '/' || c0 == '\\' {
                return Err(
                    FileServerError::InvalidPath(String::from_str("Absolute paths not allowed")),
                );
            }
        }
        Ok(())
    }

    /// Authorizes one operation against one named directory root. An
    /// unregistered name is denied; a write against a read-only root is
    /// denied; a read against any registered root, and a write against a
    /// read-write root, succeed and hand back the root's absolute path.
    pub fn check_directory_access(&self, dir_name: &str, operation: &str) -> (r: Result<
        String,
        FileServerError,
    >)
        ensures
            match find_dir_spec(self.config.directories@, dir_name@) {
                None => r is Err && r->Err_0 is PermissionDenied && r->Err_0.detail_spec()
                    == "Directory '"@ + dir_name@ + "' not found"@,
                Some(d) => {
                    if operation@ == "read"@ && d.valid_permissions() {
                        r is Ok && r->Ok_0@ == d.path@
                    } else if operation@ == "write"@ && d.is_read_write() {
                        r is Ok && r->Ok_0@ == d.path@
                    } else if operation@ == "write"@ && d.is_read_only() {
                        r is Err && r->Err_0 is PermissionDenied && r->Err_0.detail_spec()
                            == "Write operation not allowed on read-only directory '"@ + dir_name@
                            + "'"@
                    } else {
                        r is Err && r->Err_0 is PermissionDenied && r->Err_0.detail_spec()
                            == "Invalid operation '"@ + operation@ + "' on directory '"@
                            + dir_name@ + "'"@
                    }
                },
            },
    {
        let directory = match self.config.get_directory(dir_name) {
            Some(d) => d,
            None => {
                return Err(
                    FileServerError::PermissionDenied(
                        concat3("Directory '", dir_name, "' not found"),
                    ),
                );
            },
        };
        let is_read = str_eq(operation, "read");
        let is_write = str_eq(operation, "write");
        let ro = str_eq(directory.permissions.as_str(), "read-only");
        let rw = str_eq(directory.permissions.as_str(), "read-write");
        if is_read && (ro || rw) {
            Ok(directory.path.clone())
        } else if is_write && rw {
            Ok(directory.path.clone())
        } else if is_write && ro {
            Err(
                FileServerError::PermissionDenied(
                    concat3(
                        "Write operation not allowed on read-only directory '",
                        dir_name,
                        "'",
                    ),
                ),
            )
        } else {
            let mut m = String::from_str("Invalid operation '");
            m.append(operation);
            m.append("' on directory '");
            m.append(dir_name);
            m.append("'");
            Err(FileServerError::PermissionDenied(m))
        }
    }
}

} // verus!
