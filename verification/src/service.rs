//! The session gateway: one entry point per call. Each call parses the
//! virtual path, authorizes it, and dispatches to the storage adapter or
//! the transfer engine; failures carry the transport status a caller sees.

use vstd::prelude::*;
use crate::auth::{
    effective_client_ip, origin_allowed, path_is_safe, starts_with_root, AuthService,
};
use crate::error::StatusError;
use crate::file_handler::{entries_sorted, entry_labelled, last_segment, trim_separators, FileHandler};
use crate::error::FileServerError;
use crate::messages::{
    ConnectRequest, ConnectResponse, DataChunk, DeleteRequest, DeleteResponse, FileMetadata,
    HealthStatus, ListRequest, ListResponse, ReadRequest, StatRequest, WriteResponse,
};
use crate::net::IpAddress;
use crate::server_config::find_dir_spec;
use crate::text::{concat3, has_double_dot};
use crate::transfer::{
    make_chunks, transfer_init, transfer_run, transfer_step, TransferModel, WriteAccumulator,
};

verus! {

/// The directory-name part of a virtual path: everything before the first
/// separator; the whole path when it has none.
pub open spec fn vpath_dir(p: Seq<char>) -> Seq<char>
    decreases p.len(),
{
    if p.len() == 0 {
        p
    } else if p[0] == '/' {
        Seq::<char>::empty()
    } else {
        seq![p[0]] + vpath_dir(p.drop_first())
    }
}

/// The relative part of a virtual path: everything after the first
/// separator, unsplit; empty when the path has no separator.
pub open spec fn vpath_rest(p: Seq<char>) -> Seq<char>
    decreases p.len(),
{
    if p.len() == 0 {
        p
    } else if p[0] == '/' {
        p.drop_first()
    } else {
        vpath_rest(p.drop_first())
    }
}

/// With the first separator at `i`, the split is around it.
proof fn lemma_vpath_at(p: Seq<char>, i: int)
    requires
        0 <= i < p.len(),
        p[i] == '/',
        forall|j: int| 0 <= j < i ==> p[j] != '/',
    ensures
        vpath_dir(p) =~= p.take(i),
        vpath_rest(p) =~= p.skip(i + 1),
    decreases p.len(),
{
    if i > 0 {
        lemma_vpath_at(p.drop_first(), i - 1);
    }
}

/// Without a separator, the whole path is the directory name.
proof fn lemma_vpath_none(p: Seq<char>)
    requires
        forall|j: int| 0 <= j < p.len() ==> p[j] != '/',
    ensures
        vpath_dir(p) =~= p,
        vpath_rest(p) =~= Seq::<char>::empty(),
    decreases p.len(),
{
    if p.len() > 0 {
        lemma_vpath_none(p.drop_first());
    }
}

/// The relative path joined onto a root: the root itself for an empty
/// relative path, else the two with a separator between them.
pub open spec fn joined_path(base: Seq<char>, rel: Seq<char>) -> Seq<char> {
    if rel.len() == 0 {
        base
    } else {
        base + seq!['/'] + rel
    }
}

/// The virtual path is well formed for a read: nonempty, its relative part
/// syntactically safe, and its directory name registered with a valid
/// permission word — nothing of the call's own is left to refuse, so only
/// storage can still fail it.
pub open spec fn read_authorized(config: crate::server_config::ServerConfig, path: Seq<char>) -> bool {
    &&& path.len() > 0
    &&& path_is_safe(vpath_rest(path))
    &&& match find_dir_spec(config.directories@, vpath_dir(path)) {
        Some(d) => d.valid_permissions(),
        None => false,
    }
}

/// The virtual path is well formed for a write: nonempty, its relative
/// part syntactically safe, and its directory name registered read-write.
pub open spec fn write_authorized(config: crate::server_config::ServerConfig, path: Seq<char>) -> bool {
    &&& path.len() > 0
    &&& path_is_safe(vpath_rest(path))
    &&& match find_dir_spec(config.directories@, vpath_dir(path)) {
        Some(d) => d.is_read_write(),
        None => false,
    }
}

/// The gateway, owning the authorization engine and the storage adapter.
pub struct FileServiceImpl {
    pub auth: AuthService,
    pub file_handler: FileHandler,
}

impl FileServiceImpl {
    /// Builds the gateway around an authorization engine.
    pub fn new(auth: AuthService) -> (r: Self)
        ensures
            r.auth == auth,
    {
        FileServiceImpl { auth, file_handler: FileHandler::new() }
    }

    /// Splits a virtual path into directory name and relative path at the
    /// first separator; an empty path is malformed.
    pub fn parse_path(&self, path: &str) -> (r: Result<(String, String), StatusError>)
        ensures
            path@.len() == 0 ==> (r is Err && r->Err_0 is InvalidArgument
                && r->Err_0.detail_spec() == "Path cannot be empty"@),
            path@.len() > 0 ==> (r is Ok && r->Ok_0.0@ == vpath_dir(path@) && r->Ok_0.1@
                == vpath_rest(path@)),
    {
        let len = path.unicode_len();
        if len == 0 {
            return Err(StatusError::InvalidArgument(String::from_str("Path cannot be empty")));
        }
        match crate::text::find_char(path, '/') {
            Some(i) => {
                proof {
                    lemma_vpath_at(path@, i as int);
                }
                let dir = path.substring_char(0, i);
                let rest = path.substring_char(i + 1, len);
                Ok((String::from_str(dir), String::from_str(rest)))
            },
            None => {
                proof {
                    lemma_vpath_none(path@);
                }
                Ok((String::from_str(path), String::new()))
            },
        }
    }

    /// Resolves a directory name and relative path into a confined
    /// absolute path for the given operation. The relative path is checked
    /// syntactically, the directory authorizes the operation, and the
    /// joined result must still lie under the root — two independent
    /// traversal defenses.
    pub fn resolve_full_path(&self, directory_name: &str, file_path: &str, operation: &str) -> (r:
        Result<String, StatusError>)
        ensures
            r is Err ==> (r->Err_0 is InvalidArgument || r->Err_0 is PermissionDenied),
            has_double_dot(file_path@) ==> (r is Err && r->Err_0 is InvalidArgument
                && r->Err_0.detail_spec() == "Invalid path: "@ + "Path traversal not allowed"@),
            !has_double_dot(file_path@) && starts_with_root(file_path@) ==> (r is Err && r->Err_0
                is InvalidArgument && r->Err_0.detail_spec() == "Invalid path: "@
                + "Absolute paths not allowed"@),
            path_is_safe(file_path@) ==> match find_dir_spec(
                self.auth.config.directories@,
                directory_name@,
            ) {
                None => r is Err && r->Err_0 is PermissionDenied && r->Err_0.detail_spec()
                    == "Permission denied: "@ + ("Directory '"@ + directory_name@
                    + "' not found"@),
                Some(d) => {
                    if (operation@ == "read"@ && d.valid_permissions()) || (operation@ == "write"@
                        && d.is_read_write()) {
                        r is Ok && r->Ok_0@ == joined_path(d.path@, file_path@)
                            && d.path@.is_prefix_of(r->Ok_0@)
                    } else if operation@ == "write"@ && d.is_read_only() {
                        r is Err && r->Err_0 is PermissionDenied && r->Err_0.detail_spec()
                            == "Permission denied: "@ + (
                        "Write operation not allowed on read-only directory '"@ + directory_name@
                            + "'"@)
                    } else {
                        r is Err && r->Err_0 is PermissionDenied
                    }
                },
            },
    {
        match self.auth.validate_path(file_path) {
            Ok(_) => {},
            Err(e) => {
                return Err(StatusError::InvalidArgument(e.message()));
            },
        }
        let base = match self.auth.check_directory_access(directory_name, operation) {
            Ok(p) => p,
            Err(e) => {
                return Err(StatusError::PermissionDenied(e.message()));
            },
        };
        let full = if file_path.unicode_len() == 0 {
            base.clone()
        } else {
            concat3(base.as_str(), "/", file_path)
        };
        proof {
            reveal_strlit("/");
            assert(full@ == joined_path(base@, file_path@));
            assert(base@.is_prefix_of(full@));
        }
        if !crate::text::str_starts_with(full.as_str(), base.as_str()) {
            return Err(
                StatusError::PermissionDenied(String::from_str("Path traversal attempt detected")),
            );
        }
        Ok(full)
    }

    /// Serves a connection announcement: accepted exactly when the origin
    /// is allowlisted, answering with the configured directory names.
    pub fn authenticate(&self, remote: Option<IpAddress>, _request: &ConnectRequest) -> (r: Result<
        ConnectResponse,
        StatusError,
    >)
        ensures
            r is Ok <==> origin_allowed(self.auth.config, effective_client_ip(remote)),
            r is Err ==> r->Err_0 is PermissionDenied,
            r is Ok ==> {
                &&& r->Ok_0.success
                &&& r->Ok_0.message@ == "Connection established successfully"@
                &&& r->Ok_0.available_directories@.map_values(|s: String| s@)
                    == self.auth.config.directories@.map_values(
                    |d: crate::server_config::DirectoryConfig| d.name@,
                )
            },
    {
        match self.auth.authorize_connection(remote) {
            Ok(_) => {},
            Err(e) => {
                return Err(e);
            },
        }
        let mut available_directories: Vec<String> = Vec::new();
        let n = self.auth.config.directories.len();
        let mut i: usize = 0;
        while i < n
            invariant
                n == self.auth.config.directories@.len(),
                0 <= i <= n,
                available_directories@.map_values(|s: String| s@)
                    =~= self.auth.config.directories@.take(i as int).map_values(
                    |d: crate::server_config::DirectoryConfig| d.name@,
                ),
            decreases n - i,
        {
            let ghost before = available_directories@.map_values(|s: String| s@);
            available_directories.push(self.auth.config.directories[i].name.clone());
            proof {
                assert(available_directories@.map_values(|s: String| s@) =~= before.push(
                    self.auth.config.directories@[i as int].name@,
                ));
                assert(self.auth.config.directories@.take(i + 1).map_values(
                    |d: crate::server_config::DirectoryConfig| d.name@,
                ) =~= self.auth.config.directories@.take(i as int).map_values(
                    |d: crate::server_config::DirectoryConfig| d.name@,
                ).push(self.auth.config.directories@[i as int].name@));
            }
            i = i + 1;
        }
        proof {
            assert(self.auth.config.directories@.take(n as int) =~= self.auth.config.directories@);
        }
        Ok(
            ConnectResponse {
                success: true,
                message: String::from_str("Connection established successfully"),
                available_directories,
            },
        )
    }

    /// Reports liveness: always healthy, with the given uptime.
    pub fn health_check(&self, uptime_seconds: i64) -> (r: HealthStatus)
        ensures
            r.healthy,
            r.uptime_seconds == uptime_seconds,
            r.version@ == "0.1.0"@,
            r.message@ == "Server is healthy"@,
    {
        HealthStatus {
            healthy: true,
            uptime_seconds,
            version: String::from_str("0.1.0"),
            message: String::from_str("Server is healthy"),
        }
    }

    /// Stats one virtual path, authorized for reading.
    pub fn stat(&self, request: &StatRequest) -> (r: Result<FileMetadata, StatusError>)
        ensures
            request.path@.len() == 0 ==> (r is Err && r->Err_0 is InvalidArgument),
            request.path@.len() > 0 && has_double_dot(vpath_rest(request.path@)) ==> (r is Err
                && r->Err_0 is InvalidArgument),
            request.path@.len() > 0 && !has_double_dot(vpath_rest(request.path@))
                && starts_with_root(vpath_rest(request.path@)) ==> (r is Err && r->Err_0
                is InvalidArgument),
            request.path@.len() > 0 && path_is_safe(vpath_rest(request.path@)) && find_dir_spec(
                self.auth.config.directories@,
                vpath_dir(request.path@),
            ) is None ==> (r is Err && r->Err_0 is PermissionDenied && r->Err_0.detail_spec()
                == "Permission denied: "@ + ("Directory '"@ + vpath_dir(request.path@)
                + "' not found"@)),
            read_authorized(self.auth.config, request.path@) && r is Err ==> r->Err_0
                is NotFound,
            match r {
                Ok(m) => {
                    &&& read_authorized(self.auth.config, request.path@)
                    &&& match find_dir_spec(
                        self.auth.config.directories@,
                        vpath_dir(request.path@),
                    ) {
                        Some(d) => m.name@ == last_segment(
                            trim_separators(joined_path(d.path@, vpath_rest(request.path@))),
                        ),
                        None => false,
                    }
                    &&& (m.is_directory ==> m.permissions@ == "dir"@)
                    &&& (!m.is_directory ==> m.permissions@ == "file"@)
                    &&& m.created_time == 0
                },
                Err(e) => e is InvalidArgument || e is PermissionDenied || e is NotFound,
            },
    {
        let (directory_name, file_path) = match self.parse_path(request.path.as_str()) {
            Ok(p) => p,
            Err(e) => {
                return Err(e);
            },
        };
        let full_path = match self.resolve_full_path(
            directory_name.as_str(),
            file_path.as_str(),
            "read",
        ) {
            Ok(p) => p,
            Err(e) => {
                return Err(e);
            },
        };
        match self.file_handler.stat(full_path.as_str()) {
            Ok(m) => Ok(m),
            Err(e) => Err(StatusError::NotFound(e.message())),
        }
    }

    /// Lists one virtual path, authorized for reading: directories first,
    /// each group sorted by name.
    pub fn list(&self, request: &ListRequest) -> (r: Result<ListResponse, StatusError>)
        ensures
            request.path@.len() == 0 ==> (r is Err && r->Err_0 is InvalidArgument),
            request.path@.len() > 0 && has_double_dot(vpath_rest(request.path@)) ==> (r is Err
                && r->Err_0 is InvalidArgument),
            request.path@.len() > 0 && !has_double_dot(vpath_rest(request.path@))
                && starts_with_root(vpath_rest(request.path@)) ==> (r is Err && r->Err_0
                is InvalidArgument),
            request.path@.len() > 0 && path_is_safe(vpath_rest(request.path@)) && find_dir_spec(
                self.auth.config.directories@,
                vpath_dir(request.path@),
            ) is None ==> (r is Err && r->Err_0 is PermissionDenied && r->Err_0.detail_spec()
                == "Permission denied: "@ + ("Directory '"@ + vpath_dir(request.path@)
                + "' not found"@)),
            read_authorized(self.auth.config, request.path@) && r is Err ==> r->Err_0
                is InvalidArgument,
            match r {
                Ok(resp) => {
                    &&& entries_sorted(resp.entries@)
                    &&& forall|i: int|
                        0 <= i < resp.entries@.len() ==> entry_labelled(#[trigger] resp.entries@[i])
                    &&& read_authorized(self.auth.config, request.path@)
                },
                Err(e) => e is InvalidArgument || e is PermissionDenied,
            },
    {
        let (directory_name, file_path) = match self.parse_path(request.path.as_str()) {
            Ok(p) => p,
            Err(e) => {
                return Err(e);
            },
        };
        let full_path = match self.resolve_full_path(
            directory_name.as_str(),
            file_path.as_str(),
            "read",
        ) {
            Ok(p) => p,
            Err(e) => {
                return Err(e);
            },
        };
        match self.file_handler.list_directory(full_path.as_str()) {
            Ok(entries) => Ok(ListResponse { entries }),
            Err(e) => Err(StatusError::InvalidArgument(e.message())),
        }
    }

    /// Serves a ranged read of one virtual path as a segment stream: the
    /// segments carry the request's path, stand in order at contiguous
    /// offsets from the requested start, and exactly the final one is
    /// marked last.
    pub fn read(&self, request: &ReadRequest) -> (r: Result<Vec<DataChunk>, StatusError>)
        ensures
            request.path@.len() == 0 ==> (r is Err && r->Err_0 is InvalidArgument),
            request.path@.len() > 0 && has_double_dot(vpath_rest(request.path@)) ==> (r is Err
                && r->Err_0 is InvalidArgument),
            request.path@.len() > 0 && !has_double_dot(vpath_rest(request.path@))
                && starts_with_root(vpath_rest(request.path@)) ==> (r is Err && r->Err_0
                is InvalidArgument),
            request.path@.len() > 0 && path_is_safe(vpath_rest(request.path@)) && find_dir_spec(
                self.auth.config.directories@,
                vpath_dir(request.path@),
            ) is None ==> (r is Err && r->Err_0 is PermissionDenied && r->Err_0.detail_spec()
                == "Permission denied: "@ + ("Directory '"@ + vpath_dir(request.path@)
                + "' not found"@)),
            read_authorized(self.auth.config, request.path@) && r is Err ==> r->Err_0
                is Internal,
            match r {
                Ok(cs) => {
                    &&& read_authorized(self.auth.config, request.path@)
                    &&& forall|i: int|
                        0 <= i < cs@.len() ==> {
                            let c = #[trigger] cs@[i];
                            &&& c.path@ == request.path@
                            &&& c.offset == (match request.offset {
                                Some(o) => o as int,
                                None => 0int,
                            }) + i * 65536
                            &&& (c.is_last <==> i == cs@.len() - 1)
                            &&& (i < cs@.len() - 1 ==> c.data@.len() == 65536)
                            &&& (i == cs@.len() - 1 ==> 0 < c.data@.len() <= 65536)
                        }
                },
                Err(e) => e is InvalidArgument || e is PermissionDenied || e is Internal,
            },
    {
        let (directory_name, file_path) = match self.parse_path(request.path.as_str()) {
            Ok(p) => p,
            Err(e) => {
                return Err(e);
            },
        };
        let full_path = match self.resolve_full_path(
            directory_name.as_str(),
            file_path.as_str(),
            "read",
        ) {
            Ok(p) => p,
            Err(e) => {
                return Err(e);
            },
        };
        let data = match self.file_handler.read_file(
            full_path.as_str(),
            request.offset,
            request.length,
        ) {
            Ok(d) => d,
            Err(e) => {
                return Err(StatusError::Internal(e.message()));
            },
        };
        let start: u64 = match request.offset {
            Some(o) => o,
            None => 0,
        };
        if data.len() as u64 > u64::MAX - start {
            return Err(StatusError::Internal(String::from_str("file range too large")));
        }
        Ok(make_chunks(request.path.as_str(), &data, start))
    }

    /// Serves a write transfer: reassembles the segment stream, and only
    /// when it is whole authorizes the announced path for writing and
    /// stores the gathered bytes as one write.
    pub fn write(&self, chunks: &Vec<DataChunk>) -> (r: Result<WriteResponse, StatusError>)
        ensures
            transfer_run(transfer_init(), chunks@).failed ==> (r is Err && r->Err_0
                is InvalidArgument && r->Err_0.detail_spec()
                == "All chunks must have the same path"@),
            !transfer_run(transfer_init(), chunks@).failed && !transfer_run(
                transfer_init(),
                chunks@,
            ).done ==> (r is Err && r->Err_0 is InvalidArgument && r->Err_0.detail_spec()
                == "No data received"@),
            ({
                let run = transfer_run(transfer_init(), chunks@);
                !run.failed && run.done ==> match run.path {
                    Some(p) => {
                        &&& (p.len() == 0 ==> (r is Err && r->Err_0 is InvalidArgument))
                        &&& (p.len() > 0 && has_double_dot(vpath_rest(p)) ==> (r is Err && r->Err_0
                            is InvalidArgument))
                        &&& (p.len() > 0 && !has_double_dot(vpath_rest(p)) && starts_with_root(
                            vpath_rest(p),
                        ) ==> (r is Err && r->Err_0 is InvalidArgument))
                        &&& (p.len() > 0 && path_is_safe(vpath_rest(p)) && find_dir_spec(
                            self.auth.config.directories@,
                            vpath_dir(p),
                        ) is None ==> (r is Err && r->Err_0 is PermissionDenied))
                        &&& (p.len() > 0 && path_is_safe(vpath_rest(p)) && (match find_dir_spec(
                            self.auth.config.directories@,
                            vpath_dir(p),
                        ) {
                            Some(d) => d.is_read_only(),
                            None => false,
                        }) ==> (r is Err && r->Err_0 is PermissionDenied))
                        &&& (write_authorized(self.auth.config, p) && r is Err ==> r->Err_0
                            is Internal)
                    },
                    None => true,
                }
            }),
            match r {
                Ok(resp) => {
                    let run = transfer_run(transfer_init(), chunks@);
                    &&& !run.failed
                    &&& run.done
                    &&& resp.success
                    &&& resp.message@ == "File written successfully"@
                    &&& resp.bytes_written as nat == run.buffer.len()
                    &&& match run.path {
                        Some(p) => {
                            &&& p.len() > 0
                            &&& path_is_safe(vpath_rest(p))
                            &&& match find_dir_spec(
                                self.auth.config.directories@,
                                vpath_dir(p),
                            ) {
                                Some(d) => d.is_read_write(),
                                None => false,
                            }
                        },
                        None => false,
                    }
                },
                Err(e) => e is InvalidArgument || e is PermissionDenied || e is Internal,
            },
    {
        proof {
            reveal_strlit("read");
            reveal_strlit("write");
            reveal_strlit("read-only");
            reveal_strlit("read-write");
            assert("read"@.len() == 4 && "write"@.len() == 5);
            assert("read-only"@.len() == 9 && "read-write"@.len() == 10);
        }
        let mut acc = WriteAccumulator::new();
        let n = chunks.len();
        let mut i: usize = 0;
        proof {
            assert(chunks@.take(0) =~= Seq::<DataChunk>::empty());
        }
        while i < n
            invariant
                n == chunks@.len(),
                0 <= i <= n,
                acc.model() == transfer_run(transfer_init(), chunks@.take(i as int)),
                !acc.model().failed,
                acc.model().done ==> acc.model().path is Some,
            decreases n - i,
        {
            proof {
                lemma_run_snoc(transfer_init(), chunks@, i as int);
            }
            match acc.push_chunk(&chunks[i]) {
                Ok(_) => {},
                Err(e) => {
                    proof {
                        lemma_run_split(transfer_init(), chunks@, i + 1);
                        crate::transfer::lemma_run_keeps_failure(
                            transfer_run(transfer_init(), chunks@.take(i + 1)),
                            chunks@.skip(i + 1),
                        );
                    }
                    return Err(e);
                },
            }
            i = i + 1;
        }
        proof {
            assert(chunks@.take(n as int) =~= chunks@);
        }
        let (current_path, buffer) = match acc.finish() {
            Ok(pb) => pb,
            Err(e) => {
                return Err(e);
            },
        };
        let (directory_name, file_path) = match self.parse_path(current_path.as_str()) {
            Ok(p) => p,
            Err(e) => {
                return Err(e);
            },
        };
        let full_path = match self.resolve_full_path(
            directory_name.as_str(),
            file_path.as_str(),
            "write",
        ) {
            Ok(p) => p,
            Err(e) => {
                return Err(e);
            },
        };
        let total_bytes = match self.file_handler.write_file(full_path.as_str(), &buffer, None) {
            Ok(nb) => nb,
            Err(e) => {
                return Err(StatusError::Internal(e.message()));
            },
        };
        Ok(
            WriteResponse {
                success: true,
                message: String::from_str("File written successfully"),
                bytes_written: total_bytes,
            },
        )
    }

    /// Deletes one virtual path, authorized for writing: a file is
    /// unlinked, a directory is removed with everything under it.
    pub fn delete(&self, request: &DeleteRequest) -> (r: Result<DeleteResponse, StatusError>)
        ensures
            request.path@.len() == 0 ==> (r is Err && r->Err_0 is InvalidArgument),
            request.path@.len() > 0 && has_double_dot(vpath_rest(request.path@)) ==> (r is Err
                && r->Err_0 is InvalidArgument),
            request.path@.len() > 0 && !has_double_dot(vpath_rest(request.path@))
                && starts_with_root(vpath_rest(request.path@)) ==> (r is Err && r->Err_0
                is InvalidArgument),
            request.path@.len() > 0 && path_is_safe(vpath_rest(request.path@)) && find_dir_spec(
                self.auth.config.directories@,
                vpath_dir(request.path@),
            ) is None ==> (r is Err && r->Err_0 is PermissionDenied && r->Err_0.detail_spec()
                == "Permission denied: "@ + ("Directory '"@ + vpath_dir(request.path@)
                + "' not found"@)),
            request.path@.len() > 0 && path_is_safe(vpath_rest(request.path@)) && (match
                find_dir_spec(self.auth.config.directories@, vpath_dir(request.path@)) {
                Some(d) => d.is_read_only(),
                None => false,
            }) ==> (r is Err && r->Err_0 is PermissionDenied),
            write_authorized(self.auth.config, request.path@) && r is Err ==> (r->Err_0
                is NotFound || r->Err_0 is Internal),
            match r {
                Ok(resp) => {
                    &&& resp.success
                    &&& resp.message@ == "Deleted successfully"@
                    &&& write_authorized(self.auth.config, request.path@)
                },
                Err(e) => e is InvalidArgument || e is PermissionDenied || e is NotFound || e
                    is Internal,
            },
    {
        proof {
            reveal_strlit("read");
            reveal_strlit("write");
            reveal_strlit("read-only");
            reveal_strlit("read-write");
            assert("read"@.len() == 4 && "write"@.len() == 5);
            assert("read-only"@.len() == 9 && "read-write"@.len() == 10);
        }
        let (directory_name, file_path) = match self.parse_path(request.path.as_str()) {
            Ok(p) => p,
            Err(e) => {
                return Err(e);
            },
        };
        let full_path = match self.resolve_full_path(
            directory_name.as_str(),
            file_path.as_str(),
            "write",
        ) {
            Ok(p) => p,
            Err(e) => {
                return Err(e);
            },
        };
        match self.file_handler.delete_file(full_path.as_str()) {
            Ok(_) => Ok(
                DeleteResponse { success: true, message: String::from_str("Deleted successfully") },
            ),
            Err(e) => {
                let msg = e.message();
                match e {
                    FileServerError::FileNotFound(_) => Err(StatusError::NotFound(msg)),
                    _ => Err(StatusError::Internal(msg)),
                }
            },
        }
    }
}

/// Running a prefix and then one more segment is one step on the prefix.
proof fn lemma_run_snoc(st: TransferModel, cs: Seq<DataChunk>, i: int)
    requires
        0 <= i < cs.len(),
    ensures
        transfer_run(st, cs.take(i + 1)) == transfer_step(transfer_run(st, cs.take(i)), cs[i]),
    decreases i,
{
    if i == 0 {
        reveal_with_fuel(transfer_run, 2);
        assert(cs.take(1) =~= seq![cs[0]]);
        assert(cs.take(1).drop_first() =~= Seq::<DataChunk>::empty());
        assert(cs.take(0) =~= Seq::<DataChunk>::empty());
    } else {
        assert(cs.take(i + 1)[0] == cs[0]);
        assert(cs.take(i + 1).drop_first() =~= cs.drop_first().take(i));
        assert(cs.take(i)[0] == cs[0]);
        assert(cs.take(i).drop_first() =~= cs.drop_first().take(i - 1));
        lemma_run_snoc(transfer_step(st, cs[0]), cs.drop_first(), i - 1);
        assert(cs.drop_first()[i - 1] == cs[i]);
    }
}

/// A run splits around any position.
proof fn lemma_run_split(st: TransferModel, cs: Seq<DataChunk>, i: int)
    requires
        0 <= i <= cs.len(),
    ensures
        transfer_run(st, cs) == transfer_run(transfer_run(st, cs.take(i)), cs.skip(i)),
    decreases i,
{
    if i == 0 {
        reveal_with_fuel(transfer_run, 2);
        assert(cs.take(0) =~= Seq::<DataChunk>::empty());
        assert(cs.skip(0) =~= cs);
    } else {
        assert(cs.take(i)[0] == cs[0]);
        assert(cs.take(i).drop_first() =~= cs.drop_first().take(i - 1));
        assert(cs.skip(i) =~= cs.drop_first().skip(i - 1));
        lemma_run_split(transfer_step(st, cs[0]), cs.drop_first(), i - 1);
    }
}

} // verus!
