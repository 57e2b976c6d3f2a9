use vstd::prelude::*;
use crate::slide::Failure;

verus! {

/// The user id of the superuser.
pub const ROOT_UID: u32 = 0;

/// The introspection calls need the caller to run as the superuser.
pub fn has_required_privileges(effective_uid: u32) -> (r: bool)
    ensures
        r == (effective_uid == 0),
{
    effective_uid == ROOT_UID
}

/// Checks the caller before a run: it fails, and the run stops before any target
/// is resolved, exactly when the caller is not the superuser.
pub fn check_privileges(effective_uid: u32) -> (r: Result<(), Failure>)
    ensures
        r is Ok <==> effective_uid == 0,
        r is Err ==> r == Err::<(), Failure>(Failure::InsufficientPrivilege),
{
    if has_required_privileges(effective_uid) {
        Ok(())
    } else {
        Err(Failure::InsufficientPrivilege)
    }
}

} // verus!
