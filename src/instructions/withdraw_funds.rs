use vstd::prelude::*;

use crate::errors::LuckSnakeError;
use crate::instructions::is_authorized;
use crate::state::{Identity, LuckSnakeConfig};

verus! {

/// The accounts that a withdrawal reads and changes.
#[derive(Clone, Copy, Debug, PartialEq, Eq)]
pub struct WithdrawFunds {
    pub config: LuckSnakeConfig,
    /// The caller, who must be the administrator.
    pub authority: Identity,
    /// The account named as treasury, which must be the configured one.
    pub treasury: Identity,
    pub treasury_lamports: u64,
    /// Who receives the funds.
    pub recipient: Identity,
    pub recipient_lamports: u64,
}

/// Why a withdrawal fails, checked in this order; `None` when it succeeds.
pub open spec fn withdrawal_error(ctx: WithdrawFunds) -> Option<LuckSnakeError> {
    if ctx.authority.bytes@ != ctx.config.authority.bytes@ || ctx.treasury.bytes@ != ctx.config.treasury.bytes@ {
        Some(LuckSnakeError::Unauthorized)
    } else if ctx.treasury_lamports == 0 {
        Some(LuckSnakeError::NoFundsToWithdraw)
    } else {
        None
    }
}

/// Moves the whole treasury balance to the recipient; only the
/// administrator may do so. On failure nothing changes.
pub fn handler(ctx: &mut WithdrawFunds) -> (r: Result<(), LuckSnakeError>)
    requires
        old(ctx).treasury_lamports + old(ctx).recipient_lamports <= u64::MAX,
    ensures
        match withdrawal_error(*old(ctx)) {
            Some(e) => r == Err::<(), LuckSnakeError>(e) && *final(ctx) == *old(ctx),
            None => {
                &&& r is Ok
                &&& *final(ctx) == (WithdrawFunds {
                    treasury_lamports: 0,
                    recipient_lamports: (old(ctx).recipient_lamports + old(ctx).treasury_lamports) as u64,
                    ..*old(ctx)
                })
            },
        },
{
    if !is_authorized(&ctx.authority, &ctx.config.authority) || !is_authorized(&ctx.treasury, &ctx.config.treasury) {
        return Err(LuckSnakeError::Unauthorized);
    }
    let treasury_balance = ctx.treasury_lamports;
    if treasury_balance == 0 {
        return Err(LuckSnakeError::NoFundsToWithdraw);
    }
    ctx.treasury_lamports = ctx.treasury_lamports - treasury_balance;
    ctx.recipient_lamports = ctx.recipient_lamports + treasury_balance;
    Ok(())
}

} // verus!
