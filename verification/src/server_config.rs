//! Server configuration: the directory-root table, the network-origin
//! allowlist, and their validation. The table and the allowlist are built
//! once at startup and never change afterwards.

use vstd::prelude::*;
use crate::error::FileServerError;
use crate::net::{entry_admits, parse_rule_spec, check_entry, parse_rule, IpAddress};
use crate::sys::sys_stat;
use crate::text::{concat2, concat3, str_eq};

verus! {

/// Listening and privilege settings of the server.
#[derive(Clone, Debug)]
pub struct ServerSettings {
    pub port: u16,
    pub allowed_ips: Vec<String>,
    pub user: Option<String>,
    pub group: Option<String>,
}

/// One named directory root: where it lives, and whether clients may
/// write under it.
#[derive(Clone, Debug)]
pub struct DirectoryConfig {
    pub name: String,
    pub path: String,
    pub permissions: String,
}

impl DirectoryConfig {
    /// The root only serves reads.
    pub open spec fn is_read_only(&self) -> bool {
        self.permissions@ == "read-only"@
    }

    /// The root serves reads and writes.
    pub open spec fn is_read_write(&self) -> bool {
        self.permissions@ == "read-write"@
    }

    /// The permission label is one of the two accepted words.
    pub open spec fn valid_permissions(&self) -> bool {
        self.is_read_only() || self.is_read_write()
    }
}

/// The whole server configuration.
#[derive(Clone, Debug)]
pub struct ServerConfig {
    pub server: ServerSettings,
    pub directories: Vec<DirectoryConfig>,
}

/// The first directory root of `dirs` registered under `name`, if any.
pub open spec fn find_dir_spec(dirs: Seq<DirectoryConfig>, name: Seq<char>) -> Option<
    DirectoryConfig,
>
    decreases dirs.len(),
{
    if dirs.len() == 0 {
        None
    } else if dirs[0].name@ == name {
        Some(dirs[0])
    } else {
        find_dir_spec(dirs.drop_first(), name)
    }
}

impl ServerConfig {
    /// Looks a directory root up by name; the first entry with that name
    /// wins.
    pub fn get_directory(&self, name: &str) -> (r: Option<&DirectoryConfig>)
        ensures
            match r {
                Some(d) => find_dir_spec(self.directories@, name@) == Some(*d),
                None => find_dir_spec(self.directories@, name@) is None,
            },
    {
        let n = self.directories.len();
        let mut i: usize = 0;
        proof {
            assert(self.directories@.skip(0) =~= self.directories@);
        }
        while i < n
            invariant
                n == self.directories@.len(),
                0 <= i <= n,
                find_dir_spec(self.directories@, name@) == find_dir_spec(
                    self.directories@.skip(i as int),
                    name@,
                ),
            decreases n - i,
        {
            proof {
                assert(self.directories@.skip(i as int)[0] == self.directories@[i as int]);
                assert(self.directories@.skip(i as int).drop_first() =~= self.directories@.skip(
                    i + 1,
                ));
            }
            if str_eq(self.directories[i].name.as_str(), name) {
                return Some(&self.directories[i]);
            }
            i = i + 1;
        }
        proof {
            assert(self.directories@.skip(n as int).len() == 0);
        }
        None
    }

    /// An allowlist entry is well formed: a single address or a CIDR range.
    pub fn is_valid_ip_or_cidr(ip_str: &str) -> (r: bool)
        ensures
            r == (parse_rule_spec(ip_str@) is Some),
    {
        match parse_rule(ip_str) {
            Some(_) => true,
            None => false,
        }
    }

    /// The client address matches some allowlist entry, exactly or by
    /// falling inside a CIDR range.
    pub fn is_ip_allowed(&self, client_ip: &IpAddress) -> (r: bool)
        ensures
            r == exists|i: int|
                0 <= i < self.server.allowed_ips@.len() && entry_admits(
                    #[trigger] self.server.allowed_ips@[i]@,
                    *client_ip,
                ),
    {
        let n = self.server.allowed_ips.len();
        let mut i: usize = 0;
        while i < n
            invariant
                n == self.server.allowed_ips@.len(),
                0 <= i <= n,
                forall|j: int|
                    0 <= j < i ==> !entry_admits(
                        #[trigger] self.server.allowed_ips@[j]@,
                        *client_ip,
                    ),
            decreases n - i,
        {
            if check_entry(self.server.allowed_ips[i].as_str(), client_ip) {
                return true;
            }
            i = i + 1;
        }
        false
    }

    /// Checks the configuration: the port must be nonzero, every allowlist
    /// entry well formed, every directory root present on disk and labelled
    /// with a valid permission word.
    pub fn validate(&self) -> (r: Result<(), FileServerError>)
        ensures
            match r {
                Ok(_) => {
                    &&& self.server.port != 0
                    &&& forall|i: int|
                        0 <= i < self.server.allowed_ips@.len() ==> parse_rule_spec(
                            #[trigger] self.server.allowed_ips@[i]@,
                        ) is Some
                    &&& forall|i: int|
                        0 <= i < self.directories@.len()
                            ==> #[trigger] self.directories@[i].valid_permissions()
                },
                Err(e) => e is ConfigError,
            },
            self.server.port == 0 ==> (r is Err && r->Err_0.detail_spec()
                == "Port cannot be 0"@),
            (exists|i: int|
                0 <= i < self.server.allowed_ips@.len() && parse_rule_spec(
                    #[trigger] self.server.allowed_ips@[i]@,
                ) is None) ==> r is Err,
            (exists|i: int|
                0 <= i < self.directories@.len()
                    && !(#[trigger] self.directories@[i].valid_permissions())) ==> r is Err,
            (self.server.port != 0 && self.directories@.len() == 0 && forall|i: int|
                0 <= i < self.server.allowed_ips@.len() ==> parse_rule_spec(
                    #[trigger] self.server.allowed_ips@[i]@,
                ) is Some) ==> r is Ok,
            r is Err ==> {
                ||| (self.server.port == 0 && r->Err_0.detail_spec() == "Port cannot be 0"@)
                ||| exists|i: int|
                    0 <= i < self.server.allowed_ips@.len() && parse_rule_spec(
                        #[trigger] self.server.allowed_ips@[i]@,
                    ) is None && (forall|j: int|
                        0 <= j < i ==> parse_rule_spec(
                            #[trigger] self.server.allowed_ips@[j]@,
                        ) is Some) && r->Err_0.detail_spec() == "Invalid IP address or CIDR: "@
                        + self.server.allowed_ips@[i]@
                ||| exists|i: int|
                    0 <= i < self.directories@.len() && r->Err_0.detail_spec()
                        == "Directory does not exist: "@ + (#[trigger] self.directories@[i]).path@
                        && (forall|j: int|
                        0 <= j < i ==> (#[trigger] self.directories@[j]).valid_permissions())
                ||| exists|i: int|
                    0 <= i < self.directories@.len() && !(#[trigger] self.directories@[i]).valid_permissions()
                        && r->Err_0.detail_spec() == "Invalid permissions '"@
                        + self.directories@[i].permissions@
                        + "'. Must be 'read-only' or 'read-write'"@ && (forall|j: int|
                        0 <= j < i ==> self.directories@[j].valid_permissions())
            },
    {
        if self.server.port == 0 {
            return Err(FileServerError::ConfigError(String::from_str("Port cannot be 0")));
        }
        let n_ips = self.server.allowed_ips.len();
        let mut i: usize = 0;
        while i < n_ips
            invariant
                self.server.port != 0,
                n_ips == self.server.allowed_ips@.len(),
                0 <= i <= n_ips,
                forall|j: int|
                    0 <= j < i ==> parse_rule_spec(
                        #[trigger] self.server.allowed_ips@[j]@,
                    ) is Some,
            decreases n_ips - i,
        {
            let entry = &self.server.allowed_ips[i];
            if !Self::is_valid_ip_or_cidr(entry.as_str()) {
                return Err(
                    FileServerError::ConfigError(
                        concat2("Invalid IP address or CIDR: ", entry.as_str()),
                    ),
                );
            }
            i = i + 1;
        }
        let n_dirs = self.directories.len();
        let mut k: usize = 0;
        while k < n_dirs
            invariant
                self.server.port != 0,
                n_dirs == self.directories@.len(),
                0 <= k <= n_dirs,
                forall|j: int|
                    0 <= j < k ==> #[trigger] self.directories@[j].valid_permissions(),
            decreases n_dirs - k,
        {
            let dir = &self.directories[k];
            match sys_stat(dir.path.as_str()) {
                Ok(_) => {},
                Err(_) => {
                    return Err(
                        FileServerError::ConfigError(
                            concat2("Directory does not exist: ", dir.path.as_str()),
                        ),
                    );
                },
            }
            let ro = str_eq(dir.permissions.as_str(), "read-only");
            let rw = str_eq(dir.permissions.as_str(), "read-write");
            if !(ro || rw) {
                return Err(
                    FileServerError::ConfigError(
                        concat3(
                            "Invalid permissions '",
                            dir.permissions.as_str(),
                            "'. Must be 'read-only' or 'read-write'",
                        ),
                    ),
                );
            }
            k = k + 1;
        }
        Ok(())
    }
}

} // verus!
