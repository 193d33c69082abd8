use std::cell::RefCell;

use node_test_kit::privilege_drop::ChownDirective;
use node_test_kit::privilege_drop::IdWrapper;
use node_test_kit::privilege_drop::PrivilegeDropper;
use node_test_kit::privilege_drop::PrivilegeDropperReal;
use node_test_kit::privilege_drop::PrivilegeError;
use node_test_kit::privilege_drop::RealUser;

struct IdWrapperMock {
    getuid_results: RefCell<Vec<i32>>,
    getgid_results: RefCell<Vec<i32>>,
    setuid_results: RefCell<Vec<i32>>,
    setgid_results: RefCell<Vec<i32>>,
    setuid_params: RefCell<Vec<i32>>,
    setgid_params: RefCell<Vec<i32>>,
}

impl IdWrapperMock {
    fn new() -> IdWrapperMock {
        IdWrapperMock {
            getuid_results: RefCell::new(vec![]),
            getgid_results: RefCell::new(vec![]),
            setuid_results: RefCell::new(vec![]),
            setgid_results: RefCell::new(vec![]),
            setuid_params: RefCell::new(vec![]),
            setgid_params: RefCell::new(vec![]),
        }
    }

    fn getuid_result(self, result: i32) -> Self {
        self.getuid_results.borrow_mut().push(result);
        self
    }

    fn getgid_result(self, result: i32) -> Self {
        self.getgid_results.borrow_mut().push(result);
        self
    }

    fn setuid_result(self, result: i32) -> Self {
        self.setuid_results.borrow_mut().push(result);
        self
    }

    fn setgid_result(self, result: i32) -> Self {
        self.setgid_results.borrow_mut().push(result);
        self
    }
}

impl IdWrapper for IdWrapperMock {
    fn getuid(&self) -> i32 {
        self.getuid_results.borrow_mut().remove(0)
    }

    fn getgid(&self) -> i32 {
        self.getgid_results.borrow_mut().remove(0)
    }

    fn setuid(&self, uid: i32) -> i32 {
        self.setuid_params.borrow_mut().push(uid);
        self.setuid_results.borrow_mut().remove(0)
    }

    fn setgid(&self, gid: i32) -> i32 {
        self.setgid_params.borrow_mut().push(gid);
        self.setgid_results.borrow_mut().remove(0)
    }
}

#[test]
fn works_okay_with_real_user() {
    let id_wrapper = IdWrapperMock::new()
        .getuid_result(0)
        .getgid_result(0)
        .setuid_result(0)
        .setgid_result(0)
        .getuid_result(101)
        .getgid_result(202);
    let subject = PrivilegeDropperReal { id_wrapper };

    let result = subject.drop_privileges(&RealUser::new(
        Some(101),
        Some(202),
        Some("/home/user".to_string()),
    ));

    assert!(result.is_ok());
    let setuid_params = subject.id_wrapper.setuid_params.borrow();
    assert_eq!(*setuid_params, vec![101]);
    let setgid_params = subject.id_wrapper.setgid_params.borrow();
    assert_eq!(*setgid_params, vec![202]);
}

#[test]
fn works_okay_as_not_root() {
    let id_wrapper = IdWrapperMock::new().getuid_result(101).getgid_result(202);
    let subject = PrivilegeDropperReal { id_wrapper };

    let result = subject.drop_privileges(&RealUser::null());

    assert!(result.is_ok());
    let setuid_params = subject.id_wrapper.setuid_params.borrow();
    assert!(setuid_params.is_empty());
    let setgid_params = subject.id_wrapper.setgid_params.borrow();
    assert!(setgid_params.is_empty());
}

#[test]
fn gid_error_code_yields_error() {
    let id_wrapper = IdWrapperMock::new()
        .getuid_result(0)
        .getgid_result(0)
        .getuid_result(0)
        .getgid_result(0)
        .setgid_result(47);
    let subject = PrivilegeDropperReal { id_wrapper };

    let result = subject.drop_privileges(&RealUser::new(Some(111), Some(222), None));

    assert_eq!(result.unwrap_err(), PrivilegeError::GidErrorCode(47));
}

#[test]
fn uid_error_code_yields_error() {
    let id_wrapper = IdWrapperMock::new()
        .getuid_result(0)
        .getgid_result(0)
        .setgid_result(0)
        .getgid_result(202)
        .setuid_result(47);
    let subject = PrivilegeDropperReal { id_wrapper };

    let result = subject.drop_privileges(&RealUser::new(Some(111), Some(222), None));

    assert_eq!(result.unwrap_err(), PrivilegeError::UidErrorCode(47));
}

#[test]
fn final_gid_of_0_yields_error() {
    let id_wrapper = IdWrapperMock::new()
        .getuid_result(0)
        .getgid_result(0)
        .setgid_result(0)
        .getgid_result(0);
    let subject = PrivilegeDropperReal { id_wrapper };

    let result = subject.drop_privileges(&RealUser::new(Some(111), Some(222), None));

    assert_eq!(result.unwrap_err(), PrivilegeError::StillRootGid);
}

#[test]
fn final_uid_of_0_yields_error() {
    let id_wrapper = IdWrapperMock::new()
        .getuid_result(0)
        .getgid_result(0)
        .setgid_result(0)
        .getgid_result(202)
        .setuid_result(0)
        .getuid_result(0);
    let subject = PrivilegeDropperReal { id_wrapper };

    let result = subject.drop_privileges(&RealUser::new(Some(111), Some(222), None));

    assert_eq!(result.unwrap_err(), PrivilegeError::StillRootUid);
}

#[test]
fn missing_gid_as_root_yields_error() {
    let id_wrapper = IdWrapperMock::new().getgid_result(0);
    let subject = PrivilegeDropperReal { id_wrapper };

    let result = subject.drop_privileges(&RealUser::new(Some(111), None, None));

    assert_eq!(result.unwrap_err(), PrivilegeError::MissingGid);
}

#[test]
fn missing_uid_as_root_yields_error() {
    let id_wrapper = IdWrapperMock::new().getgid_result(202).getuid_result(0);
    let subject = PrivilegeDropperReal { id_wrapper };

    let result = subject.drop_privileges(&RealUser::new(None, Some(222), None));

    assert_eq!(result.unwrap_err(), PrivilegeError::MissingUid);
}

#[test]
fn chown_as_root_names_the_owner_and_the_file() {
    let id_wrapper = IdWrapperMock::new().getuid_result(0).getgid_result(0);
    let subject = PrivilegeDropperReal { id_wrapper };

    let result = subject.chown("/tmp/some.file", &RealUser::new(Some(101), Some(202), None));

    assert_eq!(
        result.unwrap(),
        Some(ChownDirective {
            uid: 101,
            gid: 202,
            path: "/tmp/some.file".to_string()
        })
    );
}

#[test]
fn chown_when_not_root_does_nothing() {
    let id_wrapper = IdWrapperMock::new().getuid_result(101).getgid_result(202);
    let subject = PrivilegeDropperReal { id_wrapper };

    let result = subject.chown("/tmp/some.file", &RealUser::new(Some(101), Some(202), None));

    assert_eq!(result.unwrap(), None);
}

#[test]
fn chown_as_root_without_uid_is_an_error() {
    let id_wrapper = IdWrapperMock::new().getuid_result(0).getgid_result(0);
    let subject = PrivilegeDropperReal { id_wrapper };

    let result = subject.chown("/tmp/some.file", &RealUser::new(None, Some(202), None));

    assert_eq!(result.unwrap_err(), PrivilegeError::MissingUid);
}
