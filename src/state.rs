use vstd::prelude::*;

verus! {

/// Size of the account discriminator that precedes every record.
pub const DISCRIMINATOR_LEN: usize = 8;

/// Numbers are drawn from `0..DOMAIN_SIZE`.
pub const DOMAIN_SIZE: u32 = 1000;

/// A 32-byte account identity (a public key).
#[derive(Clone, Copy, Debug, PartialEq, Eq)]
pub struct Identity {
    pub bytes: [u8; 32],
}

impl Identity {
    /// The all-zero identity, which marks a record that has no owner yet.
    pub fn unset() -> (r: Identity)
        ensures
            r.is_unset(),
    {
        Identity { bytes: [0u8; 32] }
    }

    pub open spec fn is_unset(&self) -> bool {
        forall|i: int| 0 <= i < 32 ==> #[trigger] self.bytes@[i] == 0u8
    }

    /// Whether this is the all-zero identity.
    pub fn is_zero(&self) -> (r: bool)
        ensures
            r == self.is_unset(),
    {
        let mut i: usize = 0;
        while i < 32
            invariant
                i <= 32,
                forall|j: int| 0 <= j < i ==> self.bytes@[j] == 0u8,
            decreases 32 - i,
        {
            if self.bytes[i] != 0 {
                return false;
            }
            i = i + 1;
        }
        true
    }

    /// Byte-wise comparison of two identities.
    pub fn same_as(&self, other: &Identity) -> (r: bool)
        ensures
            r == (self.bytes@ == other.bytes@),
    {
        let mut i: usize = 0;
        while i < 32
            invariant
                i <= 32,
                forall|j: int| 0 <= j < i ==> self.bytes@[j] == other.bytes@[j],
            decreases 32 - i,
        {
            if self.bytes[i] != other.bytes[i] {
                return false;
            }
            i = i + 1;
        }
        assert(self.bytes@ =~= other.bytes@);
        true
    }
}


/// The little-endian encoding of `n` on `k` bytes.
pub open spec fn le_bytes(n: nat, k: nat) -> Seq<u8>
    decreases k,
{
    if k == 0 {
        Seq::empty()
    } else {
        seq![(n % 256) as u8] + le_bytes(n / 256, (k - 1) as nat)
    }
}

/// Appends the `k` low-order bytes of `n`, least significant first.
pub fn push_le_bytes(out: &mut Vec<u8>, n: u64, k: usize)
    requires
        k <= 8,
    ensures
        final(out)@ == old(out)@ + le_bytes(n as nat, k as nat),
{
    let mut x: u64 = n;
    let mut i: usize = 0;
    while i < k
        invariant
            i <= k,
            out@ + le_bytes(x as nat, (k - i) as nat) == old(out)@ + le_bytes(n as nat, k as nat),
        decreases k - i,
    {
        let ghost before = out@;
        out.push((x % 256) as u8);
        proof {
            let rest = le_bytes((x / 256) as nat, (k - i - 1) as nat);
            assert(le_bytes(x as nat, (k - i) as nat) == seq![(x % 256) as u8] + rest);
            assert(out@ + rest =~= before + (seq![(x % 256) as u8] + rest));
        }
        x = x / 256;
        i = i + 1;
    }
    assert(out@ + le_bytes(x as nat, 0) =~= out@);
}

/// Appending a value that a sequence lacks keeps it free of duplicates.
pub proof fn lemma_push_fresh(s: Seq<u32>, x: u32)
    requires
        s.no_duplicates(),
        !s.contains(x),
    ensures
        s.push(x).no_duplicates(),
{
    assert forall|i: int, j: int| 0 <= i < j < s.push(x).len() implies s.push(x)[i] != s.push(x)[j] by {
        if j == s.len() {
            assert(s.contains(s[i]));
        }
    }
}

/// Distinct values below `d` number at most `d`.
pub proof fn lemma_distinct_below(s: Seq<u32>, d: u32)
    requires
        s.no_duplicates(),
        forall|i: int| 0 <= i < s.len() ==> #[trigger] s[i] < d,
    ensures
        s.len() <= d,
    decreases d,
{
    if d == 0 {
        if s.len() > 0 {
            assert(s[0] < d);
        }
    } else {
        let top = (d - 1) as u32;
        if s.contains(top) {
            let k = choose|k: int| 0 <= k < s.len() && s[k] == top;
            let t = s.remove(k);
            assert forall|i: int| 0 <= i < t.len() implies #[trigger] t[i] < top by {
                let j = if i < k { i } else { i + 1 };
                assert(t[i] == s[j]);
                assert(s[j] < d);
            }
            assert forall|i: int, j: int| 0 <= i < j < t.len() implies t[i] != t[j] by {
                let a = if i < k { i } else { i + 1 };
                let b = if j < k { j } else { j + 1 };
                assert(t[i] == s[a] && t[j] == s[b]);
            }
            lemma_distinct_below(t, top);
        } else {
            assert forall|i: int| 0 <= i < s.len() implies #[trigger] s[i] < top by {
                assert(s[i] < d);
                if s[i] == top {
                    assert(s.contains(top));
                }
            }
            lemma_distinct_below(s, top);
        }
    }
}

/// The ASCII bytes of `number`, the prefix of a number record's address seed.
pub open spec fn number_seed_prefix() -> Seq<u8> {
    seq![110u8, 117u8, 109u8, 98u8, 101u8, 114u8]
}

/// Global configuration: one per deployment.
#[derive(Clone, Copy, Debug, PartialEq, Eq)]
pub struct LuckSnakeConfig {
    /// The administrator, the only identity that may withdraw the treasury.
    pub authority: Identity,
    /// Price of one number, in lamports.
    pub generation_price: u64,
    /// How many numbers have been allocated so far.
    pub total_generated_numbers: u32,
    /// The most numbers that may ever be allocated.
    pub max_numbers: u32,
    /// The account that collects the fees.
    pub treasury: Identity,
    /// Address bump of the configuration account.
    pub bump: u8,
}

impl LuckSnakeConfig {
    /// Discriminator, authority, price, counter, cap, treasury and bump.
    pub const LEN: usize = 8 + 32 + 8 + 4 + 4 + 32 + 1;
    /// Price of one number in the standard deployment: 100,000 lamports.
    pub const GENERATION_PRICE: u64 = 100_000;
    /// Issuance cap of the standard deployment.
    pub const MAX_NUMBERS: u32 = 1000;

    /// The counter never passes the cap.
    pub open spec fn wf(&self) -> bool {
        self.total_generated_numbers <= self.max_numbers
    }
}

/// The record of one allocated number, for a registry keyed by number.
#[derive(Clone, Copy, Debug, PartialEq, Eq)]
pub struct NumberRecord {
    pub number: u32,
    pub owner: Identity,
    pub generated_at: i64,
    pub bump: u8,
}

impl NumberRecord {
    /// Discriminator, number, owner, timestamp and bump.
    pub const LEN: usize = 8 + 4 + 32 + 8 + 1;

    /// The address seed of the record for `number`: `number` followed by
    /// the number's four little-endian bytes.
    pub fn seed(number: u32) -> (r: Vec<u8>)
        ensures
            r@ == number_seed_prefix() + le_bytes(number as nat, 4),
    {
        let mut seed: Vec<u8> = Vec::new();
        seed.push(110u8);
        seed.push(117u8);
        seed.push(109u8);
        seed.push(98u8);
        seed.push(101u8);
        seed.push(114u8);
        assert(seed@ =~= number_seed_prefix());
        push_le_bytes(&mut seed, number as u64, 4);
        seed
    }
}

/// A participant's record: the numbers it holds, in the order received.
#[derive(Clone, Debug, PartialEq, Eq)]
pub struct UserAccount {
    /// The owner; unset until the first allocation.
    pub user: Identity,
    /// The numbers held, each at most once.
    pub numbers: Vec<u32>,
    /// One more for every allocation, to vary the entropy of the next.
    pub nonce: u64,
    /// Address bump of the record.
    pub bump: u8,
}

impl UserAccount {
    /// Discriminator, owner, length prefix, nonce and bump: the size of a
    /// record that holds no number.
    pub const BASE_LEN: usize = 8 + 32 + 4 + 8 + 1;
    /// Bytes taken by each held number.
    pub const NUMBER_SIZE: usize = 4;

    /// Numbers are distinct and in the domain, the nonce counts them, and a
    /// record whose owner is unset has not been used yet, so it is empty.
    pub open spec fn wf(&self) -> bool {
        &&& self.numbers@.no_duplicates()
        &&& forall|i: int| 0 <= i < self.numbers@.len() ==> #[trigger] self.numbers@[i] < DOMAIN_SIZE
        &&& self.nonce == self.numbers@.len()
        &&& self.user.is_unset() ==> self.numbers@.len() == 0
    }

    /// Whether the record is well formed, for records read from storage.
    pub fn is_wf(&self) -> (r: bool)
        ensures
            r == self.wf(),
    {
        let n = self.numbers.len();
        let mut i: usize = 0;
        while i < n
            invariant
                n == self.numbers@.len(),
                i <= n,
                forall|a: int| 0 <= a < i ==> #[trigger] self.numbers@[a] < DOMAIN_SIZE,
                forall|a: int, b: int| 0 <= a < b < i ==> self.numbers@[a] != self.numbers@[b],
            decreases n - i,
        {
            if self.numbers[i] >= DOMAIN_SIZE {
                return false;
            }
            let mut j: usize = 0;
            while j < i
                invariant
                    n == self.numbers@.len(),
                    j <= i < n,
                    forall|a: int| 0 <= a < j ==> #[trigger] self.numbers@[a] != self.numbers@[i as int],
                decreases i - j,
            {
                if self.numbers[j] == self.numbers[i] {
                    return false;
                }
                j = j + 1;
            }
            i = i + 1;
        }
        if self.nonce != n as u64 {
            return false;
        }
        !(self.user.is_zero() && n > 0)
    }

    pub open spec fn space_spec(count: nat) -> nat {
        Self::BASE_LEN as nat + count * Self::NUMBER_SIZE as nat
    }

    /// The storage that a record of `count` numbers needs.
    pub fn space_for_numbers(count: usize) -> (r: usize)
        requires
            Self::space_spec(count as nat) <= usize::MAX,
        ensures
            r == Self::space_spec(count as nat),
    {
        Self::BASE_LEN + count * Self::NUMBER_SIZE
    }

    /// The storage that this record needs now.
    pub fn current_space(&self) -> (r: usize)
        requires
            Self::space_spec(self.numbers@.len()) <= usize::MAX,
        ensures
            r == Self::space_spec(self.numbers@.len()),
    {
        Self::space_for_numbers(self.numbers.len())
    }

    /// The storage that this record needs once it holds one more number.
    pub fn space_after_adding_number(&self) -> (r: usize)
        requires
            Self::space_spec(self.numbers@.len() + 1) <= usize::MAX,
        ensures
            r == Self::space_spec(self.numbers@.len() + 1),
    {
        Self::space_for_numbers(self.numbers.len() + 1)
    }
}

impl Default for UserAccount {
    /// The record of a participant that has never been served.
    fn default() -> (r: UserAccount)
        ensures
            r.user.is_unset(),
            r.numbers@.len() == 0,
            r.nonce == 0,
            r.bump == 0,
    {
        UserAccount { user: Identity::unset(), numbers: Vec::new(), nonce: 0, bump: 0 }
    }
}

} // verus!
