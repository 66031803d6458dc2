//! The privilege-drop sequencer: resolving configured user and group
//! targets against the host's identity database, and relinquishing elevated
//! identity in the only safe order — group first, then user — with a final
//! check that the drop took effect.

use vstd::prelude::*;
use crate::error::FileServerError;
use crate::sys::{
    sys_getuid, sys_group_by_gid, sys_group_by_name, sys_setgid, sys_setuid, sys_user_by_name,
    sys_user_by_uid,
};
use crate::text::{all_digits, concat2, dec_value, decimal_of, parse_decimal, u64_to_string};

verus! {

/// A user of the host, as plain values.
#[derive(Clone, Debug)]
pub struct UserIdentity {
    pub name: String,
    pub uid: u32,
    pub gid: u32,
}

/// A group of the host, as plain values.
#[derive(Clone, Debug)]
pub struct GroupIdentity {
    pub name: String,
    pub gid: u32,
}

/// One identity change of the drop sequence.
#[derive(Clone, Copy, Debug, PartialEq, Eq, Structural)]
pub enum PrivAction {
    SetGroup(u32),
    SetUser(u32),
}

/// The ordered identity changes a privileged process performs for the
/// given targets: the group change, if any, strictly before the user
/// change, if any.
pub open spec fn drop_plan(group: Option<u32>, user: Option<u32>) -> Seq<PrivAction> {
    (match group {
        Some(g) => seq![PrivAction::SetGroup(g)],
        None => Seq::<PrivAction>::empty(),
    }) + (match user {
        Some(u) => seq![PrivAction::SetUser(u)],
        None => Seq::<PrivAction>::empty(),
    })
}

/// Law: in every drop plan, any group change stands before any user
/// change — group privilege is relinquished first, since once the user id
/// has changed the process may no longer be allowed to change its group id.
pub proof fn lemma_group_change_precedes_user_change(group: Option<u32>, user: Option<u32>)
    ensures
        forall|i: int, j: int|
            0 <= i < drop_plan(group, user).len() && 0 <= j < drop_plan(group, user).len()
                && drop_plan(group, user)[i] is SetGroup && drop_plan(group, user)[j] is SetUser
                ==> i < j,
{
}

/// The display form of a resolved user: `<name> (UID: <uid>)`.
pub fn describe_user(name: &str, uid: u32) -> (r: String)
    ensures
        r@ == name@ + " (UID: "@ + decimal_of(uid as nat) + ")"@,
{
    let mut s = String::from_str(name);
    s.append(" (UID: ");
    s.append(u64_to_string(uid as u64).as_str());
    s.append(")");
    s
}

/// The display form of a resolved group: `<name> (GID: <gid>)`.
pub fn describe_group(name: &str, gid: u32) -> (r: String)
    ensures
        r@ == name@ + " (GID: "@ + decimal_of(gid as nat) + ")"@,
{
    let mut s = String::from_str(name);
    s.append(" (GID: ");
    s.append(u64_to_string(gid as u64).as_str());
    s.append(")");
    s
}

/// Lays out the identity changes for the given targets, in order.
pub fn plan_actions(group: Option<u32>, user: Option<u32>) -> (r: Vec<PrivAction>)
    ensures
        r@ == drop_plan(group, user),
{
    let mut out: Vec<PrivAction> = Vec::new();
    if let Some(g) = group {
        out.push(PrivAction::SetGroup(g));
    }
    if let Some(u) = user {
        out.push(PrivAction::SetUser(u));
    }
    proof {
        assert(out@ =~= drop_plan(group, user));
    }
    out
}

/// Judges the re-check after the drop: a process that still reports
/// privileged identity must not continue.
pub fn confirm_drop(still_privileged: bool) -> (r: Result<(), FileServerError>)
    ensures
        r is Ok <==> !still_privileged,
        r is Err ==> (r->Err_0 is ConfigError && r->Err_0.detail_spec()
            == "Failed to drop root privileges - still running as root"@),
{
    if still_privileged {
        Err(
            FileServerError::ConfigError(
                String::from_str("Failed to drop root privileges - still running as root"),
            ),
        )
    } else {
        Ok(())
    }
}

/// A user or group spec is numeric: nonempty, all digits, and denoting a
/// 32-bit id. Numeric specs resolve by id, all others by name.
pub open spec fn is_numeric_id(s: Seq<char>) -> bool {
    s.len() > 0 && all_digits(s) && dec_value(s) <= u32::MAX
}

/// Judges a by-id user lookup's outcome: a found entry becomes the
/// identity with its display form; a missing one is the owed rejection.
fn finish_numeric_user(uid_num: u32, looked: Option<(String, u32, u32)>) -> (r: Result<
    (UserIdentity, String),
    FileServerError,
>)
    ensures
        match looked {
            Some(u) => r is Ok && ({
                let ud = r->Ok_0;
                &&& ud.0.name@ == u.0@
                &&& ud.0.uid == u.1
                &&& ud.0.gid == u.2
                &&& ud.1@ == u.0@ + " (UID: "@ + decimal_of(u.1 as nat) + ")"@
            }),
            None => r is Err && r->Err_0 is ConfigError && r->Err_0.detail_spec()
                == "User with UID "@ + decimal_of(uid_num as nat) + " not found"@,
        },
{
    match looked {
        Some(u) => {
            let user = UserIdentity { name: u.0, uid: u.1, gid: u.2 };
            let display = describe_user(user.name.as_str(), user.uid);
            Ok((user, display))
        },
        None => {
            let mut m = String::from_str("User with UID ");
            m.append(u64_to_string(uid_num as u64).as_str());
            m.append(" not found");
            Err(FileServerError::ConfigError(m))
        },
    }
}

/// Judges a by-name user lookup's outcome.
fn finish_named_user(user_str: &str, looked: Option<(String, u32, u32)>) -> (r: Result<
    (UserIdentity, String),
    FileServerError,
>)
    ensures
        match looked {
            Some(u) => r is Ok && ({
                let ud = r->Ok_0;
                &&& ud.0.name@ == u.0@
                &&& ud.0.uid == u.1
                &&& ud.0.gid == u.2
                &&& ud.1@ == u.0@ + " (UID: "@ + decimal_of(u.1 as nat) + ")"@
            }),
            None => r is Err && r->Err_0 is ConfigError && r->Err_0.detail_spec() == "User '"@
                + user_str@ + "' not found"@,
        },
{
    match looked {
        Some(u) => {
            let user = UserIdentity { name: u.0, uid: u.1, gid: u.2 };
            let display = describe_user(user.name.as_str(), user.uid);
            Ok((user, display))
        },
        None => {
            let mut m = String::from_str("User '");
            m.append(user_str);
            m.append("' not found");
            Err(FileServerError::ConfigError(m))
        },
    }
}

/// Judges a by-id group lookup's outcome.
fn finish_numeric_group(gid_num: u32, looked: Option<(String, u32)>) -> (r: Result<
    (GroupIdentity, String),
    FileServerError,
>)
    ensures
        match looked {
            Some(g) => r is Ok && ({
                let gd = r->Ok_0;
                &&& gd.0.name@ == g.0@
                &&& gd.0.gid == g.1
                &&& gd.1@ == g.0@ + " (GID: "@ + decimal_of(g.1 as nat) + ")"@
            }),
            None => r is Err && r->Err_0 is ConfigError && r->Err_0.detail_spec()
                == "Group with GID "@ + decimal_of(gid_num as nat) + " not found"@,
        },
{
    match looked {
        Some(g) => {
            let group = GroupIdentity { name: g.0, gid: g.1 };
            let display = describe_group(group.name.as_str(), group.gid);
            Ok((group, display))
        },
        None => {
            let mut m = String::from_str("Group with GID ");
            m.append(u64_to_string(gid_num as u64).as_str());
            m.append(" not found");
            Err(FileServerError::ConfigError(m))
        },
    }
}

/// Judges a by-name group lookup's outcome.
fn finish_named_group(group_str: &str, looked: Option<(String, u32)>) -> (r: Result<
    (GroupIdentity, String),
    FileServerError,
>)
    ensures
        match looked {
            Some(g) => r is Ok && ({
                let gd = r->Ok_0;
                &&& gd.0.name@ == g.0@
                &&& gd.0.gid == g.1
                &&& gd.1@ == g.0@ + " (GID: "@ + decimal_of(g.1 as nat) + ")"@
            }),
            None => r is Err && r->Err_0 is ConfigError && r->Err_0.detail_spec() == "Group '"@
                + group_str@ + "' not found"@,
        },
{
    match looked {
        Some(g) => {
            let group = GroupIdentity { name: g.0, gid: g.1 };
            let display = describe_group(group.name.as_str(), group.gid);
            Ok((group, display))
        },
        None => {
            let mut m = String::from_str("Group '");
            m.append(group_str);
            m.append("' not found");
            Err(FileServerError::ConfigError(m))
        },
    }
}

/// The privilege-drop sequencer. It runs once, before the server begins
/// serving.
pub struct PrivilegeManager {}

impl PrivilegeManager {
    /// Makes a sequencer.
    pub fn new() -> (r: Self)
        ensures
            r == (PrivilegeManager {  }),
    {
        PrivilegeManager {  }
    }

    /// Resolves a user spec — a numeric id or a symbolic name — against
    /// the host's identity database, handing back the user and its display
    /// form. A numeric spec resolves to the identity carrying exactly that
    /// user id.
    pub fn parse_user(&self, user_str: &str) -> (r: Result<(UserIdentity, String), FileServerError>)
        ensures
            match r {
                Ok(ud) => ud.1@ == ud.0.name@ + " (UID: "@ + decimal_of(ud.0.uid as nat) + ")"@,
                Err(e) => e is ConfigError,
            },
            is_numeric_id(user_str@) && r is Ok ==> r->Ok_0.0.uid as nat == dec_value(user_str@),
    {
        let numeric: Option<u32> = match parse_decimal(user_str) {
            Some(v) => {
                if v <= 0xffffffff {
                    Some(v as u32)
                } else {
                    None
                }
            },
            None => None,
        };
        match numeric {
            Some(uid_num) => {
                let looked = match sys_user_by_uid(uid_num) {
                    Ok(l) => l,
                    Err(e) => {
                        let mut m = String::from_str("Failed to lookup user by UID ");
                        m.append(u64_to_string(uid_num as u64).as_str());
                        m.append(": ");
                        m.append(e.as_str());
                        return Err(FileServerError::ConfigError(m));
                    },
                };
                finish_numeric_user(uid_num, looked)
            },
            None => {
                let looked = match sys_user_by_name(user_str) {
                    Ok(l) => l,
                    Err(e) => {
                        let mut m = String::from_str("Failed to lookup user by name '");
                        m.append(user_str);
                        m.append("': ");
                        m.append(e.as_str());
                        return Err(FileServerError::ConfigError(m));
                    },
                };
                finish_named_user(user_str, looked)
            },
        }
    }

    /// Resolves a group spec — a numeric id or a symbolic name — against
    /// the host's identity database, handing back the group and its display
    /// form. A numeric spec resolves to the identity carrying exactly that
    /// group id.
    pub fn parse_group(&self, group_str: &str) -> (r: Result<
        (GroupIdentity, String),
        FileServerError,
    >)
        ensures
            match r {
                Ok(gd) => gd.1@ == gd.0.name@ + " (GID: "@ + decimal_of(gd.0.gid as nat) + ")"@,
                Err(e) => e is ConfigError,
            },
            is_numeric_id(group_str@) && r is Ok ==> r->Ok_0.0.gid as nat == dec_value(
                group_str@,
            ),
    {
        let numeric: Option<u32> = match parse_decimal(group_str) {
            Some(v) => {
                if v <= 0xffffffff {
                    Some(v as u32)
                } else {
                    None
                }
            },
            None => None,
        };
        match numeric {
            Some(gid_num) => {
                let looked = match sys_group_by_gid(gid_num) {
                    Ok(l) => l,
                    Err(e) => {
                        let mut m = String::from_str("Failed to lookup group by GID ");
                        m.append(u64_to_string(gid_num as u64).as_str());
                        m.append(": ");
                        m.append(e.as_str());
                        return Err(FileServerError::ConfigError(m));
                    },
                };
                finish_numeric_group(gid_num, looked)
            },
            None => {
                let looked = match sys_group_by_name(group_str) {
                    Ok(l) => l,
                    Err(e) => {
                        let mut m = String::from_str("Failed to lookup group by name '");
                        m.append(group_str);
                        m.append("': ");
                        m.append(e.as_str());
                        return Err(FileServerError::ConfigError(m));
                    },
                };
                finish_named_group(group_str, looked)
            },
        }
    }

    /// Drops privileges once, before serving: a no-op for an unprivileged
    /// process; for a privileged one, the configured targets are resolved
    /// (an unknown one is fatal), the identity changes run in plan order —
    /// group before user — and the process must no longer be privileged
    /// afterwards.
    pub fn drop_privileges(&self, username: Option<&str>, groupname: Option<&str>) -> (r: Result<
        (),
        FileServerError,
    >)
        ensures
            r is Err ==> r->Err_0 is ConfigError,
    {
        let uid = sys_getuid();
        if uid != 0 {
            return Ok(());
        }
        let gid_target: Option<u32> = match groupname {
            Some(g) => {
                match self.parse_group(g) {
                    Ok(gd) => Some(gd.0.gid),
                    Err(e) => {
                        return Err(e);
                    },
                }
            },
            None => None,
        };
        let uid_target: Option<u32> = match username {
            Some(u) => {
                match self.parse_user(u) {
                    Ok(ud) => Some(ud.0.uid),
                    Err(e) => {
                        return Err(e);
                    },
                }
            },
            None => None,
        };
        let actions = plan_actions(gid_target, uid_target);
        let n = actions.len();
        let mut i: usize = 0;
        while i < n
            invariant
                n == actions@.len(),
                0 <= i <= n,
            decreases n - i,
        {
            match actions[i] {
                PrivAction::SetGroup(g) => {
                    match sys_setgid(g) {
                        Ok(_) => {},
                        Err(e) => {
                            return Err(
                                FileServerError::ConfigError(
                                    concat2("Failed to set group ID: ", e.as_str()),
                                ),
                            );
                        },
                    }
                },
                PrivAction::SetUser(u) => {
                    match sys_setuid(u) {
                        Ok(_) => {},
                        Err(e) => {
                            return Err(
                                FileServerError::ConfigError(
                                    concat2("Failed to set user ID: ", e.as_str()),
                                ),
                            );
                        },
                    }
                },
            }
            i = i + 1;
        }
        let still_privileged = sys_getuid() == 0;
        confirm_drop(still_privileged)
    }

    /// When the process is privileged, checks that every configured target
    /// resolves against the identity database; unprivileged processes skip
    /// the check, since they will not attempt the drop.
    pub fn validate_user_group(&self, username: Option<&str>, groupname: Option<&str>) -> (r:
        Result<(), FileServerError>)
        ensures
            r is Err ==> r->Err_0 is ConfigError,
    {
        let uid = sys_getuid();
        if uid != 0 {
            return Ok(());
        }
        if let Some(u) = username {
            match self.parse_user(u) {
                Ok(_) => {},
                Err(e) => {
                    return Err(e);
                },
            }
        }
        if let Some(g) = groupname {
            match self.parse_group(g) {
                Ok(_) => {},
                Err(e) => {
                    return Err(e);
                },
            }
        }
        Ok(())
    }
}

} // verus!
