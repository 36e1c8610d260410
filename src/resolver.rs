use vstd::prelude::*;

use crate::errors::LuckSnakeError;

verus! {

/// How many numbers one allocation probes before it gives up.
pub const MAX_ATTEMPTS: u32 = 100;

/// Linear probing: the first of `candidate`, `candidate + 1`, ... (modulo
/// `domain_size`) that `existing` does not hold, within `attempts` tries.
pub open spec fn probe(candidate: u32, existing: Seq<u32>, domain_size: u32, attempts: nat) -> Option<u32>
    decreases attempts,
{
    if attempts == 0 {
        None
    } else if !existing.contains(candidate) {
        Some(candidate)
    } else {
        probe(
            ((candidate + 1) % (domain_size as int)) as u32,
            existing,
            domain_size,
            (attempts - 1) as nat,
        )
    }
}

/// Whether `numbers` holds `n`.
pub fn contains_number(numbers: &Vec<u32>, n: u32) -> (r: bool)
    ensures
        r == numbers@.contains(n),
{
    let mut i: usize = 0;
    while i < numbers.len()
        invariant
            i <= numbers@.len(),
            forall|j: int| 0 <= j < i ==> numbers@[j] != n,
        decreases numbers@.len() - i,
    {
        if numbers[i] == n {
            return true;
        }
        i = i + 1;
    }
    false
}

/// Finds the number closest after `candidate`, cyclically in
/// `0..domain_size`, that `existing` does not hold, trying at most
/// `max_attempts` numbers.
pub fn resolve(candidate: u32, existing: &Vec<u32>, domain_size: u32, max_attempts: u32) -> (r: Result<u32, LuckSnakeError>)
    requires
        domain_size > 0,
    ensures
        match probe(candidate, existing@, domain_size, max_attempts as nat) {
            Some(n) => r == Ok::<u32, LuckSnakeError>(n),
            None => r == Err::<u32, LuckSnakeError>(LuckSnakeError::UnableToGenerateUniqueNumber),
        },
{
    let mut attempts: u32 = 0;
    let mut current: u32 = candidate;
    while attempts < max_attempts
        invariant
            attempts <= max_attempts,
            domain_size > 0,
            probe(candidate, existing@, domain_size, max_attempts as nat)
                == probe(current, existing@, domain_size, (max_attempts - attempts) as nat),
        decreases max_attempts - attempts,
    {
        if !contains_number(existing, current) {
            return Ok(current);
        }
        current = ((current as u64 + 1) % (domain_size as u64)) as u32;
        attempts = attempts + 1;
    }
    Err(LuckSnakeError::UnableToGenerateUniqueNumber)
}

/// A probed number is free, and it is the candidate or lies in the domain.
pub proof fn lemma_probe_free(candidate: u32, existing: Seq<u32>, domain_size: u32, attempts: nat)
    requires
        domain_size > 0,
    ensures
        probe(candidate, existing, domain_size, attempts) matches Some(n) ==> {
            &&& !existing.contains(n)
            &&& (n == candidate || n < domain_size)
        },
    decreases attempts,
{
    if attempts > 0 && existing.contains(candidate) {
        lemma_probe_free(((candidate + 1) % (domain_size as int)) as u32, existing, domain_size, (attempts - 1) as nat);
    }
}

/// Resolution depends only on which numbers are held: two records that hold
/// the same numbers, in any order or multiplicity, resolve a candidate alike.
pub proof fn lemma_resolve_deterministic(
    candidate: u32,
    existing1: Seq<u32>,
    existing2: Seq<u32>,
    domain_size: u32,
    attempts: nat,
)
    requires
        forall|x: u32| existing1.contains(x) == existing2.contains(x),
    ensures
        probe(candidate, existing1, domain_size, attempts) == probe(candidate, existing2, domain_size, attempts),
    decreases attempts,
{
    if attempts > 0 {
        lemma_resolve_deterministic(
            ((candidate + 1) % (domain_size as int)) as u32,
            existing1,
            existing2,
            domain_size,
            (attempts - 1) as nat,
        );
    }
}

} // verus!
