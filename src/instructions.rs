use vstd::prelude::*;

use crate::state::Identity;

pub mod generate_number;
pub mod init_user;
pub mod initialize;
pub mod withdraw_funds;

verus! {

/// The guard in front of every privileged change: the caller must be the
/// identity that the change is bound to.
pub fn is_authorized(caller: &Identity, expected: &Identity) -> (r: bool)
    ensures
        r == (caller.bytes@ == expected.bytes@),
{
    caller.same_as(expected)
}

} // verus!
