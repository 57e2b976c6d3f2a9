use apple_aslrtool::{
    check_privileges, has_required_privileges, is_hardened, status_is_hardened, ExpectedBase,
    Failure, TargetSpec, CS_RUNTIME, DEFAULT_BASE_ADDRESS, ROOT_UID,
};

#[test]
fn superuser_is_privileged() {
    assert!(has_required_privileges(ROOT_UID));
    assert!(has_required_privileges(0));
    assert_eq!(check_privileges(0), Ok(()));
}

#[test]
fn unprivileged_run_stops_at_gate() {
    assert!(!has_required_privileges(501));
    assert_eq!(check_privileges(501), Err(Failure::InsufficientPrivilege));
    assert_eq!(check_privileges(u32::MAX), Err(Failure::InsufficientPrivilege));
}

#[test]
fn runtime_bit_marks_hardened() {
    assert_eq!(CS_RUNTIME, 0x10000);
    assert!(status_is_hardened(0x10000));
    assert!(status_is_hardened(0x12301));
    assert!(status_is_hardened(u32::MAX));
    assert!(!status_is_hardened(0));
    assert!(!status_is_hardened(0xFFFF));
    assert!(!status_is_hardened(0x20000));
}

#[test]
fn failed_status_query_counts_as_unprotected() {
    assert!(!is_hardened(None));
    assert!(!is_hardened(Some(0)));
    assert!(is_hardened(Some(0x10000)));
}

#[test]
fn expected_base_first_write_wins() {
    let mut cell = ExpectedBase::new();
    assert_eq!(cell.get(), None);
    assert_eq!(cell.get_or_init(0x2_0000_0000), 0x2_0000_0000);
    for value in [0u64, 0x1_0000_0000, 7, u64::MAX] {
        assert_eq!(cell.get_or_init(value), 0x2_0000_0000);
    }
    assert_eq!(cell.get(), Some(0x2_0000_0000));
}

#[test]
fn expected_base_defaults_to_standard_load_address() {
    let mut cell = ExpectedBase::new();
    assert_eq!(cell.init_from(None), 0x1_0000_0000);
    assert_eq!(DEFAULT_BASE_ADDRESS, 0x1_0000_0000);
    assert_eq!(cell.init_from(Some(0x5000)), 0x1_0000_0000);
}

#[test]
fn expected_base_takes_override() {
    let mut cell = ExpectedBase::new();
    assert_eq!(cell.init_from(Some(0x1_4000_0000)), 0x1_4000_0000);
    assert_eq!(cell.init_from(None), 0x1_4000_0000);
    assert_eq!(cell.get(), Some(0x1_4000_0000));
}

#[test]
fn target_spec_prefers_nonzero_pid() {
    assert!(matches!(TargetSpec::from_args(42, String::from("Notes")), TargetSpec::Pid(42)));
    match TargetSpec::from_args(0, String::from("Notes")) {
        TargetSpec::Name(n) => assert_eq!(n, "Notes"),
        TargetSpec::Pid(_) => panic!("a zero pid names no process"),
    }
}
