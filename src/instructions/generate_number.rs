use vstd::prelude::*;

use crate::entropy::{derive_candidate, derived_candidate};
use crate::errors::LuckSnakeError;
use crate::instructions::is_authorized;
use crate::resolver::{lemma_probe_free, probe, resolve, MAX_ATTEMPTS};
use crate::state::{lemma_distinct_below, lemma_push_fresh, Identity, LuckSnakeConfig, UserAccount, DOMAIN_SIZE};

verus! {

/// The accounts that one allocation reads and changes.
#[derive(Clone, Debug, PartialEq, Eq)]
pub struct GenerateNumber {
    pub config: LuckSnakeConfig,
    /// The caller's record, or the default record if it has none yet.
    pub user_account: UserAccount,
    /// The caller, who pays.
    pub user: Identity,
    pub user_lamports: u64,
    /// The account named to receive the fee.
    pub treasury: Identity,
    pub treasury_lamports: u64,
    /// Address bump of the caller's record.
    pub user_account_bump: u8,
}

impl GenerateNumber {
    pub open spec fn wf(&self) -> bool {
        self.config.wf() && self.user_account.wf()
    }
}

/// Why an allocation from `candidate` fails, checked in this order; `None`
/// when it succeeds.
pub open spec fn allocation_error(ctx: GenerateNumber, candidate: u32) -> Option<LuckSnakeError> {
    if ctx.treasury.bytes@ != ctx.config.treasury.bytes@ {
        Some(LuckSnakeError::Unauthorized)
    } else if ctx.user.is_unset() {
        Some(LuckSnakeError::Unauthorized)
    } else if !ctx.user_account.user.is_unset() && ctx.user_account.user.bytes@ != ctx.user.bytes@ {
        Some(LuckSnakeError::Unauthorized)
    } else if ctx.config.total_generated_numbers >= ctx.config.max_numbers {
        Some(LuckSnakeError::AllNumbersGenerated)
    } else if ctx.user_lamports < ctx.config.generation_price {
        Some(LuckSnakeError::InsufficientPayment)
    } else if probe(candidate, ctx.user_account.numbers@, DOMAIN_SIZE, MAX_ATTEMPTS as nat) is None {
        Some(LuckSnakeError::UnableToGenerateUniqueNumber)
    } else {
        None
    }
}

/// `post` is `pre` after `n` was allocated to the caller: the fee moved to
/// the treasury, the record owned by the caller with `n` appended and its
/// nonce advanced, the counter advanced, and nothing else changed.
pub open spec fn allocation_applied(pre: GenerateNumber, post: GenerateNumber, n: u32) -> bool {
    &&& post.config == (LuckSnakeConfig {
        total_generated_numbers: (pre.config.total_generated_numbers + 1) as u32,
        ..pre.config
    })
    &&& post.user_account.user == pre.user
    &&& post.user_account.numbers@ == pre.user_account.numbers@.push(n)
    &&& post.user_account.nonce == pre.user_account.nonce + 1
    &&& post.user_account.bump == (if pre.user_account.user.is_unset() {
        pre.user_account_bump
    } else {
        pre.user_account.bump
    })
    &&& post.user_lamports == pre.user_lamports - pre.config.generation_price
    &&& post.treasury_lamports == pre.treasury_lamports + pre.config.generation_price
    &&& post.user == pre.user
    &&& post.treasury == pre.treasury
    &&& post.user_account_bump == pre.user_account_bump
}

/// Allocates to the caller the first number from `candidate` on that it
/// does not hold yet, charging the price into the treasury. On failure
/// nothing changes.
pub fn allocate(ctx: &mut GenerateNumber, candidate: u32) -> (r: Result<u32, LuckSnakeError>)
    requires
        old(ctx).wf(),
        candidate < DOMAIN_SIZE,
        old(ctx).treasury_lamports + old(ctx).config.generation_price <= u64::MAX,
    ensures
        final(ctx).wf(),
        match allocation_error(*old(ctx), candidate) {
            Some(e) => r == Err::<u32, LuckSnakeError>(e) && *final(ctx) == *old(ctx),
            None => {
                &&& r == Ok::<u32, LuckSnakeError>(
                    probe(candidate, old(ctx).user_account.numbers@, DOMAIN_SIZE, MAX_ATTEMPTS as nat)->0,
                )
                &&& allocation_applied(*old(ctx), *final(ctx), r->Ok_0)
            },
        },
{
    if !is_authorized(&ctx.treasury, &ctx.config.treasury) {
        return Err(LuckSnakeError::Unauthorized);
    }
    if ctx.user.is_zero() {
        return Err(LuckSnakeError::Unauthorized);
    }
    let fresh = ctx.user_account.user.is_zero();
    if !fresh && !is_authorized(&ctx.user, &ctx.user_account.user) {
        return Err(LuckSnakeError::Unauthorized);
    }
    if ctx.config.total_generated_numbers >= ctx.config.max_numbers {
        return Err(LuckSnakeError::AllNumbersGenerated);
    }
    if ctx.user_lamports < ctx.config.generation_price {
        return Err(LuckSnakeError::InsufficientPayment);
    }
    let number = match resolve(candidate, &ctx.user_account.numbers, DOMAIN_SIZE, MAX_ATTEMPTS) {
        Ok(n) => n,
        Err(e) => {
            return Err(e);
        },
    };
    proof {
        lemma_probe_free(candidate, ctx.user_account.numbers@, DOMAIN_SIZE, MAX_ATTEMPTS as nat);
        lemma_push_fresh(ctx.user_account.numbers@, number);
        lemma_distinct_below(ctx.user_account.numbers@.push(number), DOMAIN_SIZE);
    }
    ctx.user_lamports = ctx.user_lamports - ctx.config.generation_price;
    ctx.treasury_lamports = ctx.treasury_lamports + ctx.config.generation_price;
    if fresh {
        ctx.user_account.bump = ctx.user_account_bump;
    }
    ctx.user_account.user = ctx.user;
    ctx.user_account.numbers.push(number);
    ctx.user_account.nonce = ctx.user_account.nonce + 1;
    ctx.config.total_generated_numbers = ctx.config.total_generated_numbers + 1;
    Ok(number)
}

/// One paid allocation for the caller: draws a candidate from `slot`, the
/// record's nonce and the caller's identity, then allocates from it.
pub fn handler(ctx: &mut GenerateNumber, slot: u64) -> (r: Result<u32, LuckSnakeError>)
    requires
        old(ctx).wf(),
        old(ctx).treasury_lamports + old(ctx).config.generation_price <= u64::MAX,
    ensures
        final(ctx).wf(),
        ({
            let candidate = derived_candidate(slot, old(ctx).user_account.nonce, old(ctx).user.bytes@);
            match allocation_error(*old(ctx), candidate) {
                Some(e) => r == Err::<u32, LuckSnakeError>(e) && *final(ctx) == *old(ctx),
                None => {
                    &&& r == Ok::<u32, LuckSnakeError>(
                        probe(candidate, old(ctx).user_account.numbers@, DOMAIN_SIZE, MAX_ATTEMPTS as nat)->0,
                    )
                    &&& allocation_applied(*old(ctx), *final(ctx), r->Ok_0)
                },
            }
        }),
{
    let candidate = derive_candidate(slot, ctx.user_account.nonce, &ctx.user);
    allocate(ctx, candidate)
}

/// What one call of `allocate` from `candidate` does: on failure nothing
/// changes, on success the number that probing gives is added.
pub open spec fn allocation_outcome(pre: GenerateNumber, post: GenerateNumber, candidate: u32) -> bool {
    match allocation_error(pre, candidate) {
        Some(_) => post == pre,
        None => allocation_applied(
            pre,
            post,
            probe(candidate, pre.user_account.numbers@, DOMAIN_SIZE, MAX_ATTEMPTS as nat)->0,
        ),
    }
}

/// How many of the first `k` calls, made on `pres` from `candidates`,
/// succeed.
pub open spec fn successes(pres: Seq<GenerateNumber>, candidates: Seq<u32>, k: int) -> nat
    decreases k,
{
    if k <= 0 {
        0
    } else {
        successes(pres, candidates, k - 1) + if allocation_error(pres[k - 1], candidates[k - 1]) is None {
            1nat
        } else {
            0nat
        }
    }
}

/// One participant's calls, failed ones included, starting from an empty
/// record: `pres[i]` and `posts[i]` are the accounts around the `i`-th call,
/// and each call finds the record where the one before left it (calls of
/// other participants may change the configuration in between). After
/// every call the record's numbers are distinct and there are as many as
/// calls that succeeded.
pub proof fn lemma_participant_numbers_unique(
    pres: Seq<GenerateNumber>,
    posts: Seq<GenerateNumber>,
    candidates: Seq<u32>,
)
    requires
        pres.len() == candidates.len(),
        posts.len() == candidates.len(),
        candidates.len() > 0 ==> pres[0].user_account.numbers@.len() == 0,
        forall|i: int| 0 <= i < candidates.len() ==> allocation_outcome(#[trigger] pres[i], posts[i], candidates[i]),
        forall|i: int| 0 < i < candidates.len() ==> (#[trigger] pres[i]).user_account == posts[i - 1].user_account,
    ensures
        forall|i: int|
            0 <= i < candidates.len() ==> {
                &&& (#[trigger] posts[i]).user_account.numbers@.no_duplicates()
                &&& posts[i].user_account.numbers@.len() == successes(pres, candidates, i + 1)
            },
{
    assert forall|i: int| 0 <= i < candidates.len() implies {
        &&& (#[trigger] posts[i]).user_account.numbers@.no_duplicates()
        &&& posts[i].user_account.numbers@.len() == successes(pres, candidates, i + 1)
    } by {
        lemma_participant_numbers_upto(pres, posts, candidates, i);
    }
}

proof fn lemma_participant_numbers_upto(
    pres: Seq<GenerateNumber>,
    posts: Seq<GenerateNumber>,
    candidates: Seq<u32>,
    i: int,
)
    requires
        0 <= i < candidates.len(),
        pres.len() == candidates.len(),
        posts.len() == candidates.len(),
        pres[0].user_account.numbers@.len() == 0,
        forall|i: int| 0 <= i < candidates.len() ==> allocation_outcome(#[trigger] pres[i], posts[i], candidates[i]),
        forall|i: int| 0 < i < candidates.len() ==> (#[trigger] pres[i]).user_account == posts[i - 1].user_account,
    ensures
        posts[i].user_account.numbers@.no_duplicates(),
        posts[i].user_account.numbers@.len() == successes(pres, candidates, i + 1),
    decreases i,
{
    let pre = pres[i];
    assert(allocation_outcome(pres[i], posts[i], candidates[i]));
    if i > 0 {
        lemma_participant_numbers_upto(pres, posts, candidates, i - 1);
        assert(pres[i].user_account == posts[i - 1].user_account);
    }
    assert(pre.user_account.numbers@.no_duplicates());
    assert(pre.user_account.numbers@.len() == successes(pres, candidates, i));
    if allocation_error(pre, candidates[i]) is None {
        lemma_probe_free(candidates[i], pre.user_account.numbers@, DOMAIN_SIZE, MAX_ATTEMPTS as nat);
        lemma_push_fresh(
            pre.user_account.numbers@,
            probe(candidates[i], pre.user_account.numbers@, DOMAIN_SIZE, MAX_ATTEMPTS as nat)->0,
        );
    }
}

/// Calls of any participants, failed ones included, on a fresh deployment:
/// each call finds the configuration where the one before left it. After
/// every call the counter equals the number of calls that succeeded.
pub proof fn lemma_issued_count(pres: Seq<GenerateNumber>, posts: Seq<GenerateNumber>, candidates: Seq<u32>)
    requires
        pres.len() == candidates.len(),
        posts.len() == candidates.len(),
        candidates.len() > 0 ==> pres[0].config.total_generated_numbers == 0,
        forall|i: int| 0 <= i < candidates.len() ==> allocation_outcome(#[trigger] pres[i], posts[i], candidates[i]),
        forall|i: int| 0 < i < candidates.len() ==> (#[trigger] pres[i]).config == posts[i - 1].config,
    ensures
        forall|i: int|
            0 <= i < candidates.len() ==> (#[trigger] posts[i]).config.total_generated_numbers == successes(
                pres,
                candidates,
                i + 1,
            ),
{
    assert forall|i: int| 0 <= i < candidates.len() implies (#[trigger] posts[i]).config.total_generated_numbers
        == successes(pres, candidates, i + 1) by {
        lemma_issued_count_upto(pres, posts, candidates, i);
    }
}

proof fn lemma_issued_count_upto(pres: Seq<GenerateNumber>, posts: Seq<GenerateNumber>, candidates: Seq<u32>, i: int)
    requires
        0 <= i < candidates.len(),
        pres.len() == candidates.len(),
        posts.len() == candidates.len(),
        pres[0].config.total_generated_numbers == 0,
        forall|i: int| 0 <= i < candidates.len() ==> allocation_outcome(#[trigger] pres[i], posts[i], candidates[i]),
        forall|i: int| 0 < i < candidates.len() ==> (#[trigger] pres[i]).config == posts[i - 1].config,
    ensures
        posts[i].config.total_generated_numbers == successes(pres, candidates, i + 1),
    decreases i,
{
    assert(allocation_outcome(pres[i], posts[i], candidates[i]));
    if i > 0 {
        lemma_issued_count_upto(pres, posts, candidates, i - 1);
        assert(pres[i].config == posts[i - 1].config);
    }
    assert(pres[i].config.total_generated_numbers == successes(pres, candidates, i));
    if allocation_error(pres[i], candidates[i]) is None {
        assert(pres[i].config.total_generated_numbers < pres[i].config.max_numbers);
        assert(posts[i].config.total_generated_numbers == pres[i].config.total_generated_numbers + 1);
    }
}

/// Once the counter has reached the cap, every allocation on valid accounts
/// fails with `AllNumbersGenerated`, whatever the payment.
pub proof fn lemma_cap_reached_blocks(ctx: GenerateNumber, candidate: u32)
    requires
        ctx.config.total_generated_numbers == ctx.config.max_numbers,
        ctx.treasury.bytes@ == ctx.config.treasury.bytes@,
        !ctx.user.is_unset(),
        ctx.user_account.user.is_unset() || ctx.user_account.user.bytes@ == ctx.user.bytes@,
    ensures
        allocation_error(ctx, candidate) == Some(LuckSnakeError::AllNumbersGenerated),
{
}

} // verus!