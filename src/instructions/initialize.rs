use vstd::prelude::*;

use crate::state::{Identity, LuckSnakeConfig};

verus! {

/// The accounts and settings of a new deployment.
#[derive(Clone, Copy, Debug, PartialEq, Eq)]
pub struct Initialize {
    /// The administrator, who signs the deployment.
    pub authority: Identity,
    /// The account that will collect the fees.
    pub treasury: Identity,
    /// Address bump of the configuration account.
    pub config_bump: u8,
}

/// The configuration of a new deployment: nothing issued yet, with the
/// given price and cap.
pub fn handler(ctx: &Initialize, generation_price: u64, max_numbers: u32) -> (r: LuckSnakeConfig)
    ensures
        r == (LuckSnakeConfig {
            authority: ctx.authority,
            generation_price,
            total_generated_numbers: 0,
            max_numbers,
            treasury: ctx.treasury,
            bump: ctx.config_bump,
        }),
        r.wf(),
{
    LuckSnakeConfig {
        authority: ctx.authority,
        generation_price,
        total_generated_numbers: 0,
        max_numbers,
        treasury: ctx.treasury,
        bump: ctx.config_bump,
    }
}

} // verus!
