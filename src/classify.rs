use vstd::prelude::*;

verus! {

/// The code-signing status bit that marks a hardened runtime.
pub const CS_RUNTIME: u32 = 0x10000;

/// Bit 16 of a code-signing status word is set.
pub open spec fn runtime_flag_set(status: u32) -> bool {
    (status / 0x10000) % 2 == 1
}

/// Whether a process is hardened, from its code-signing status query: `None`
/// when the query failed. A failed query counts as unprotected, so that the
/// task-handle step, not the classification, is where such a target fails.
pub open spec fn hardened(query: Option<u32>) -> bool {
    match query {
        Some(status) => runtime_flag_set(status),
        None => false,
    }
}

/// Tests the hardened-runtime bit of a code-signing status word.
pub fn status_is_hardened(status: u32) -> (r: bool)
    ensures
        r == runtime_flag_set(status),
{
    let r = (status & CS_RUNTIME) == CS_RUNTIME;
    assert(((status & 0x10000u32) == 0x10000u32) == ((status / 0x10000u32) % 2u32 == 1u32))
        by (bit_vector);
    r
}

/// Classifies a process from its status query, failing open when the query
/// gave no status word.
pub fn is_hardened(query: Option<u32>) -> (r: bool)
    ensures
        r == hardened(query),
{
    match query {
        Some(status) => status_is_hardened(status),
        None => false,
    }
}

} // verus!
