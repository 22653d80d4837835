//! Facts about this program itself.

use vstd::prelude::*;

verus! {

/// The version of this program.
pub fn project_version() -> (v: &'static str)
    ensures
        v@ == "0.1.0"@,
{
    "0.1.0"
}

/// Whether the effective user id `euid` is that of the superuser.
pub fn is_root(euid: u32) -> (r: bool)
    ensures
        r == (euid == 0),
{
    euid == 0
}

} // verus!
