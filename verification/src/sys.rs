//! Trusted bindings to the host system, through the `nix` crate.
//!
//! Each function here wraps one call into `nix` and converts its result to
//! plain values. Nothing is promised of what the filesystem or the identity
//! database returns: callers state what holds of every outcome. The few
//! stated clauses (buffer lengths) follow directly from the wrapped call's
//! documentation.

use vstd::prelude::*;

verus! {

/// Raw results of a stat call, as plain values: the file mode bits, the
/// byte size, and the modification timestamp in seconds since the epoch.
#[derive(Clone, Copy, Debug)]
pub struct RawStat {
    pub mode: u32,
    pub size: i64,
    pub modified: i64,
}

/// Relies on nix::sys::stat::stat: fills a stat structure for the path, or
/// fails (most often because nothing exists there). Fields are copied out
/// unchanged.
#[verifier::external_body]
pub fn sys_stat(path: &str) -> (r: Result<RawStat, String>) {
    match nix::sys::stat::stat(path) {
        Ok(st) => Ok(
            RawStat { mode: st.st_mode as u32, size: st.st_size, modified: st.st_mtime },
        ),
        Err(e) => Err(e.to_string()),
    }
}

/// Relies on nix::fcntl::open: opens the path read-only, or for writing
/// with create-and-truncate, and returns the raw descriptor.
#[verifier::external_body]
pub fn sys_open(path: &str, truncate_write: bool) -> (r: Result<i32, String>) {
    let flags = if truncate_write {
        nix::fcntl::OFlag::O_WRONLY | nix::fcntl::OFlag::O_CREAT | nix::fcntl::OFlag::O_TRUNC
    } else {
        nix::fcntl::OFlag::O_RDONLY
    };
    let mode = nix::sys::stat::Mode::from_bits_truncate(0o644);
    nix::fcntl::open(path, flags, mode).map_err(|e| e.to_string())
}

/// Relies on nix::unistd::read: reads into a prefix of the buffer and
/// returns how many bytes were read, never more than the buffer holds.
#[verifier::external_body]
pub fn sys_read(fd: i32, buf: &mut Vec<u8>) -> (r: Result<usize, String>)
    ensures
        final(buf)@.len() == old(buf)@.len(),
        match r {
            Ok(n) => n <= final(buf)@.len(),
            Err(_) => true,
        },
{
    nix::unistd::read(fd, buf.as_mut_slice()).map_err(|e| e.to_string())
}

/// Relies on nix::unistd::write: writes some prefix of the buffer's tail
/// from position `from` on, and returns how many bytes were written, never
/// more than that tail holds.
#[verifier::external_body]
pub fn sys_write(fd: i32, buf: &Vec<u8>, from: usize) -> (r: Result<usize, String>)
    requires
        from <= buf@.len(),
    ensures
        match r {
            Ok(n) => from + n <= buf@.len(),
            Err(_) => true,
        },
{
    nix::unistd::write(fd, &buf[from..]).map_err(|e| e.to_string())
}

/// Relies on nix::unistd::close: releases the descriptor.
#[verifier::external_body]
pub fn sys_close(fd: i32) {
    let _ = nix::unistd::close(fd);
}

/// Relies on nix::unistd::fsync: flushes the descriptor's data and
/// metadata to stable storage.
#[verifier::external_body]
pub fn sys_fsync(fd: i32) -> (r: Result<(), String>) {
    nix::unistd::fsync(fd).map_err(|e| e.to_string())
}

/// Relies on nix::unistd::mkdir: creates one directory, handing back the
/// errno number on failure.
#[verifier::external_body]
pub fn sys_mkdir(path: &str) -> (r: Result<(), i32>) {
    nix::unistd::mkdir(path, nix::sys::stat::Mode::from_bits_truncate(0o755)).map_err(
        |e| e as i32,
    )
}

/// Relies on nix::unistd::unlink: removes one file.
#[verifier::external_body]
pub fn sys_unlink(path: &str) -> (r: Result<(), String>) {
    nix::unistd::unlink(path).map_err(|e| e.to_string())
}

/// Relies on nix::unistd::unlinkat with RemoveDir: removes one empty
/// directory.
#[verifier::external_body]
pub fn sys_rmdir(path: &str) -> (r: Result<(), String>) {
    nix::unistd::unlinkat(None, path, nix::unistd::UnlinkatFlags::RemoveDir).map_err(
        |e| e.to_string(),
    )
}

/// Relies on nix::dir::Dir and its iterator: opens the directory and hands
/// out the name of every entry as text; entries that cannot be read are
/// skipped.
#[verifier::external_body]
pub fn sys_read_dir(path: &str) -> (r: Option<Vec<String>>) {
    let flags = nix::fcntl::OFlag::O_RDONLY | nix::fcntl::OFlag::O_DIRECTORY;
    match nix::dir::Dir::open(path, flags, nix::sys::stat::Mode::empty()) {
        Ok(mut d) => Some(
            d.iter().filter_map(|e| e.ok()).map(
                |e| e.file_name().to_string_lossy().into_owned(),
            ).collect(),
        ),
        Err(_) => None,
    }
}

/// Relies on nix::unistd::getuid: the process's real user id.
#[verifier::external_body]
pub fn sys_getuid() -> (r: u32) {
    nix::unistd::getuid().as_raw()
}

/// Relies on nix::unistd::setuid: changes the process's user id.
#[verifier::external_body]
pub fn sys_setuid(uid: u32) -> (r: Result<(), String>) {
    nix::unistd::setuid(nix::unistd::Uid::from_raw(uid)).map_err(|e| e.to_string())
}

/// Relies on nix::unistd::setgid: changes the process's group id.
#[verifier::external_body]
pub fn sys_setgid(gid: u32) -> (r: Result<(), String>) {
    nix::unistd::setgid(nix::unistd::Gid::from_raw(gid)).map_err(|e| e.to_string())
}

/// Relies on nix::unistd::User::from_uid: looks a user up by id in the
/// host's identity database; the name, user id and group id are copied out.
/// The lookup is keyed by the user id, so a found entry carries that id.
#[verifier::external_body]
pub fn sys_user_by_uid(uid: u32) -> (r: Result<Option<(String, u32, u32)>, String>)
    ensures
        match r {
            Ok(Some(u)) => u.1 == uid,
            _ => true,
        },
{
    match nix::unistd::User::from_uid(nix::unistd::Uid::from_raw(uid)) {
        Ok(Some(u)) => Ok(Some((u.name, u.uid.as_raw(), u.gid.as_raw()))),
        Ok(None) => Ok(None),
        Err(e) => Err(e.to_string()),
    }
}

/// Relies on nix::unistd::User::from_name: looks a user up by name in the
/// host's identity database; the name, user id and group id are copied out.
#[verifier::external_body]
pub fn sys_user_by_name(name: &str) -> (r: Result<Option<(String, u32, u32)>, String>) {
    match nix::unistd::User::from_name(name) {
        Ok(Some(u)) => Ok(Some((u.name, u.uid.as_raw(), u.gid.as_raw()))),
        Ok(None) => Ok(None),
        Err(e) => Err(e.to_string()),
    }
}

/// Relies on nix::unistd::Group::from_gid: looks a group up by id in the
/// host's identity database; the name and group id are copied out. The
/// lookup is keyed by the group id, so a found entry carries that id.
#[verifier::external_body]
pub fn sys_group_by_gid(gid: u32) -> (r: Result<Option<(String, u32)>, String>)
    ensures
        match r {
            Ok(Some(g)) => g.1 == gid,
            _ => true,
        },
{
    match nix::unistd::Group::from_gid(nix::unistd::Gid::from_raw(gid)) {
        Ok(Some(g)) => Ok(Some((g.name, g.gid.as_raw()))),
        Ok(None) => Ok(None),
        Err(e) => Err(e.to_string()),
    }
}

/// Relies on nix::unistd::Group::from_name: looks a group up by name in
/// the host's identity database; the name and group id are copied out.
#[verifier::external_body]
pub fn sys_group_by_name(name: &str) -> (r: Result<Option<(String, u32)>, String>) {
    match nix::unistd::Group::from_name(name) {
        Ok(Some(g)) => Ok(Some((g.name, g.gid.as_raw()))),
        Ok(None) => Ok(None),
        Err(e) => Err(e.to_string()),
    }
}

} // verus!
