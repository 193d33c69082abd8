//! The privilege-drop state machine: what to set, in what order, and which
//! outcome of the id syscalls is an error. The syscalls themselves sit
//! behind the `IdWrapper` trait, so the decision logic is checked for every
//! id source.

use vstd::prelude::*;

verus! {

/// The source of user and group ids: the real one wraps the process's
/// syscalls; tests substitute their own.
pub trait IdWrapper {
    fn getuid(&self) -> i32;

    fn getgid(&self) -> i32;

    fn setuid(&self, uid: i32) -> i32;

    fn setgid(&self, gid: i32) -> i32;
}

/// The id source backed by the operating system.
pub struct IdWrapperReal;

/// Relies on nix::unistd::getuid: the real user id of the calling process;
/// POSIX requires the call to succeed.
#[verifier::external_body]
fn os_getuid() -> i32 {
    nix::unistd::getuid().as_raw() as i32
}

/// Relies on nix::unistd::getgid: the real group id of the calling process;
/// POSIX requires the call to succeed.
#[verifier::external_body]
fn os_getgid() -> i32 {
    nix::unistd::getgid().as_raw() as i32
}

/// Relies on nix::unistd::setuid: zero on success, else the errno the call
/// failed with.
#[verifier::external_body]
fn os_setuid(uid: i32) -> i32 {
    match nix::unistd::setuid(nix::unistd::Uid::from_raw(uid as u32)) {
        Ok(()) => 0,
        Err(e) => e as i32,
    }
}

/// Relies on nix::unistd::setgid: zero on success, else the errno the call
/// failed with.
#[verifier::external_body]
fn os_setgid(gid: i32) -> i32 {
    match nix::unistd::setgid(nix::unistd::Gid::from_raw(gid as u32)) {
        Ok(()) => 0,
        Err(e) => e as i32,
    }
}

impl IdWrapper for IdWrapperReal {
    fn getuid(&self) -> i32 {
        os_getuid()
    }

    fn getgid(&self) -> i32 {
        os_getgid()
    }

    fn setuid(&self, uid: i32) -> i32 {
        os_setuid(uid)
    }

    fn setgid(&self, gid: i32) -> i32 {
        os_setgid(gid)
    }
}

/// The user the process should run as once privileges are dropped.
#[derive(Clone, Debug, PartialEq)]
pub struct RealUser {
    pub uid: Option<i32>,
    pub gid: Option<i32>,
    pub home_dir: Option<String>,
}

impl RealUser {
    /// A user from explicit parts.
    pub fn new(uid: Option<i32>, gid: Option<i32>, home_dir: Option<String>) -> (r: Self)
        ensures
            r.uid == uid,
            r.gid == gid,
            r.home_dir == home_dir,
    {
        RealUser { uid, gid, home_dir }
    }

    /// A user with nothing filled in.
    pub fn null() -> (r: Self)
        ensures
            r.uid is None,
            r.gid is None,
            r.home_dir is None,
    {
        RealUser { uid: None, gid: None, home_dir: None }
    }
}

/// Why dropping privileges failed. Each of these is a test-harness or
/// environment fault the caller is expected to treat as fatal.
#[derive(Clone, Copy, Debug, PartialEq, Eq, Structural)]
pub enum PrivilegeError {
    /// Running as root, but the target user carries no group id.
    MissingGid,
    /// Running as root, but the target user carries no user id.
    MissingUid,
    /// The group-id syscall failed with this code.
    GidErrorCode(i32),
    /// The user-id syscall failed with this code.
    UidErrorCode(i32),
    /// The group id still reads as root after the drop.
    StillRootGid,
    /// The user id still reads as root after the drop.
    StillRootUid,
}

/// What the group stage must set: nothing unless the current gid is root;
/// when it is, the target user must carry a gid.
pub fn gid_target(current_gid: i32, real_user: &RealUser) -> (r: Result<Option<i32>, PrivilegeError>)
    ensures
        current_gid != 0 ==> r == Ok::<Option<i32>, PrivilegeError>(None),
        current_gid == 0 && real_user.gid is Some ==> r == Ok::<Option<i32>, PrivilegeError>(
            real_user.gid,
        ),
        current_gid == 0 && real_user.gid is None ==> r == Err::<Option<i32>, PrivilegeError>(
            PrivilegeError::MissingGid,
        ),
{
    if current_gid != 0 {
        Ok(None)
    } else {
        match real_user.gid {
            Some(g) => Ok(Some(g)),
            None => Err(PrivilegeError::MissingGid),
        }
    }
}

/// What the user stage must set: nothing unless the current uid is root;
/// when it is, the target user must carry a uid.
pub fn uid_target(current_uid: i32, real_user: &RealUser) -> (r: Result<Option<i32>, PrivilegeError>)
    ensures
        current_uid != 0 ==> r == Ok::<Option<i32>, PrivilegeError>(None),
        current_uid == 0 && real_user.uid is Some ==> r == Ok::<Option<i32>, PrivilegeError>(
            real_user.uid,
        ),
        current_uid == 0 && real_user.uid is None ==> r == Err::<Option<i32>, PrivilegeError>(
            PrivilegeError::MissingUid,
        ),
{
    if current_uid != 0 {
        Ok(None)
    } else {
        match real_user.uid {
            Some(u) => Ok(Some(u)),
            None => Err(PrivilegeError::MissingUid),
        }
    }
}

/// Judges the return code of one set-id attempt: nonzero is an error
/// carrying the code.
pub fn set_id_code(code: i32, group: bool) -> (r: Result<(), PrivilegeError>)
    ensures
        code != 0 && group ==> r == Err::<(), PrivilegeError>(PrivilegeError::GidErrorCode(code)),
        code != 0 && !group ==> r == Err::<(), PrivilegeError>(PrivilegeError::UidErrorCode(code)),
        code == 0 ==> r == Ok::<(), PrivilegeError>(()),
{
    if code != 0 {
        if group {
            Err(PrivilegeError::GidErrorCode(code))
        } else {
            Err(PrivilegeError::UidErrorCode(code))
        }
    } else {
        Ok(())
    }
}

/// Judges the id read back after a successful set: still reading as root
/// means the drop silently failed.
pub fn still_root_after(id_after: i32, group: bool) -> (r: Result<(), PrivilegeError>)
    ensures
        id_after == 0 && group ==> r == Err::<(), PrivilegeError>(PrivilegeError::StillRootGid),
        id_after == 0 && !group ==> r == Err::<(), PrivilegeError>(PrivilegeError::StillRootUid),
        id_after != 0 ==> r == Ok::<(), PrivilegeError>(()),
{
    if id_after == 0 {
        if group {
            Err(PrivilegeError::StillRootGid)
        } else {
            Err(PrivilegeError::StillRootUid)
        }
    } else {
        Ok(())
    }
}

/// The chown a privileged process owes a file: only root chowns at all, and
/// then the target user must carry both ids.
#[derive(Clone, Debug, PartialEq)]
pub struct ChownDirective {
    pub uid: i32,
    pub gid: i32,
    pub path: String,
}

/// Decides whether a chown is owed for `file`, and to which owner.
pub fn chown_directive(current_uid: i32, current_gid: i32, file: &str, real_user: &RealUser) -> (r:
    Result<Option<ChownDirective>, PrivilegeError>)
    ensures
        !(current_uid == 0 && current_gid == 0) ==> r == Ok::<
            Option<ChownDirective>,
            PrivilegeError,
        >(None),
        current_uid == 0 && current_gid == 0 && real_user.uid is None ==> r == Err::<
            Option<ChownDirective>,
            PrivilegeError,
        >(PrivilegeError::MissingUid),
        current_uid == 0 && current_gid == 0 && real_user.uid is Some && real_user.gid is None
            ==> r == Err::<Option<ChownDirective>, PrivilegeError>(PrivilegeError::MissingGid),
        current_uid == 0 && current_gid == 0 && real_user.uid is Some && real_user.gid is Some ==> (
        r matches Ok(Some(d)) && d.uid == real_user.uid->Some_0 && d.gid == real_user.gid->Some_0
            && d.path@ == file@),
{
    if current_uid == 0 && current_gid == 0 {
        match real_user.uid {
            None => Err(PrivilegeError::MissingUid),
            Some(u) => match real_user.gid {
                None => Err(PrivilegeError::MissingGid),
                Some(g) => Ok(Some(ChownDirective { uid: u, gid: g, path: file.to_owned() })),
            },
        }
    } else {
        Ok(None)
    }
}

/// The post-start control surface for privileges: drop them, and own files
/// as the real user. Implemented over any id source.
pub trait PrivilegeDropper {
    fn drop_privileges(&self, real_user: &RealUser) -> Result<(), PrivilegeError>;

    fn chown(&self, file: &str, real_user: &RealUser) -> Result<Option<ChownDirective>, PrivilegeError>;
}

/// The privilege dropper over a chosen id source.
pub struct PrivilegeDropperReal<W: IdWrapper> {
    pub id_wrapper: W,
}

impl<W: IdWrapper> PrivilegeDropper for PrivilegeDropperReal<W> {
    /// Drops group privileges first, then user privileges: each stage sets
    /// its id only when the current one reads as root, and checks both the
    /// syscall's code and the id afterwards.
    fn drop_privileges(&self, real_user: &RealUser) -> Result<(), PrivilegeError> {
        match gid_target(self.id_wrapper.getgid(), real_user) {
            Err(e) => Err(e),
            Ok(None) => self.drop_user_privileges(real_user),
            Ok(Some(gid)) => {
                let code = self.id_wrapper.setgid(gid);
                match set_id_code(code, true) {
                    Err(e) => Err(e),
                    Ok(()) => {
                        let after = self.id_wrapper.getgid();
                        match still_root_after(after, true) {
                            Err(e) => Err(e),
                            Ok(()) => self.drop_user_privileges(real_user),
                        }
                    },
                }
            },
        }
    }

    /// Decides the chown this file is owed; the caller runs the command.
    fn chown(&self, file: &str, real_user: &RealUser) -> Result<
        Option<ChownDirective>,
        PrivilegeError,
    > {
        let uid = self.id_wrapper.getuid();
        let gid = self.id_wrapper.getgid();
        chown_directive(uid, gid, file, real_user)
    }
}

impl<W: IdWrapper> PrivilegeDropperReal<W> {
    fn drop_user_privileges(&self, real_user: &RealUser) -> Result<(), PrivilegeError> {
        match uid_target(self.id_wrapper.getuid(), real_user) {
            Err(e) => Err(e),
            Ok(None) => Ok(()),
            Ok(Some(uid)) => {
                let code = self.id_wrapper.setuid(uid);
                match set_id_code(code, false) {
                    Err(e) => Err(e),
                    Ok(()) => {
                        let after = self.id_wrapper.getuid();
                        still_root_after(after, false)
                    },
                }
            },
        }
    }
}

impl PrivilegeDropperReal<IdWrapperReal> {
    /// The dropper over the operating system's own id syscalls.
    pub fn new() -> (r: PrivilegeDropperReal<IdWrapperReal>) {
        PrivilegeDropperReal { id_wrapper: IdWrapperReal {} }
    }
}

} // verus!
