use vstd::prelude::*;

use crate::state::{Identity, UserAccount};

verus! {

/// The accounts of a participant that opens its record ahead of its first
/// allocation.
#[derive(Clone, Copy, Debug, PartialEq, Eq)]
pub struct InitUser {
    pub user: Identity,
    /// Address bump of the record.
    pub user_account_bump: u8,
}

/// An empty record owned by the participant.
pub fn handler(ctx: &InitUser) -> (r: UserAccount)
    ensures
        r.user == ctx.user,
        r.numbers@.len() == 0,
        r.nonce == 0,
        r.bump == ctx.user_account_bump,
        r.wf(),
{
    UserAccount { user: ctx.user, numbers: Vec::new(), nonce: 0, bump: ctx.user_account_bump }
}

} // verus!
