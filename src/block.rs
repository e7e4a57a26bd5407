//! Blocks: a sealed batch of transactions with its proof of work.
use crate::hash_engine::{decimal_bytes, decimal_of, digest, push_decimal};
use crate::transaction::{transaction_writes, Transaction, TransactionView};
use std::collections::hash_map::DefaultHasher;
use std::hash::Hasher;
use vstd::prelude::*;

verus! {

/// Why sealing a block failed.
#[derive(Debug, Clone, Copy, PartialEq, Eq)]
pub enum LedgerError {
    /// No nonce in the range of `u64` satisfies the proof-of-work predicate.
    NonceExhausted,
}

/// Number of trailing decimal digits of a candidate digest that must be '0'.
pub const PROOF_DIGITS: usize = 6;

/// The writes that fold the proof-of-work candidate for `anchor` and
/// `nonce`: the decimal string of `anchor` followed by that of `nonce`,
/// folded as a string (its bytes, then the terminator 0xff).
pub open spec fn pow_writes(anchor: u64, nonce: u64) -> Seq<Seq<u8>> {
    seq![decimal_bytes(anchor as nat) + decimal_bytes(nonce as nat), seq![0xffu8]]
}

/// The candidate digest for `anchor` and `nonce`.
pub open spec fn pow_digest(anchor: u64, nonce: u64) -> u64 {
    digest(pow_writes(anchor, nonce))
}

/// The last six characters of the decimal string of `d` (all of them, if
/// there are fewer) are all '0'.
pub open spec fn proof_valid(d: u64) -> bool {
    let s = decimal_bytes(d as nat);
    forall|i: int| 0 <= i < s.len() && s.len() - 6 <= i ==> s[i] == 48u8
}

/// Ten to the power `k`.
pub open spec fn pow10(k: nat) -> nat
    decreases k,
{
    if k == 0 {
        1
    } else {
        10 * pow10((k - 1) as nat)
    }
}

/// The last `k` decimal digits of `n` (all of them, if it has fewer) are
/// '0' exactly when `n` is a multiple of ten to the `k`.
proof fn lemma_trailing_zeros(n: nat, k: nat)
    ensures
        (forall|i: int|
            0 <= i < decimal_bytes(n).len() && decimal_bytes(n).len() - k <= i
                ==> #[trigger] decimal_bytes(n)[i] == 48u8) <==> n % pow10(k) == 0,
    decreases n,
{
    let s = decimal_bytes(n);
    if k == 0 {
        assert(n % 1 == 0);
    } else {
        let p = pow10((k - 1) as nat);
        assert(pow10(k) == 10 * p);
        assert(p > 0) by {
            lemma_pow10_positive((k - 1) as nat);
        }
        if n < 10 {
            assert(s =~= seq![(48 + n) as u8]);
            assert(n < pow10(k)) by {
                lemma_pow10_positive((k - 1) as nat);
            }
            assert(n % pow10(k) == n) by (nonlinear_arith)
                requires
                    n < pow10(k),
            ;
            if n != 0 {
                assert(s[0] != 48u8);
            }
        } else {
            let t = decimal_bytes(n / 10);
            assert(s == t.push((48 + n % 10) as u8));
            lemma_trailing_zeros(n / 10, (k - 1) as nat);
            vstd::arithmetic::div_mod::lemma_mod_breakdown(n as int, 10, p as int);
            if forall|i: int| 0 <= i < s.len() && s.len() - k <= i ==> #[trigger] s[i] == 48u8 {
                assert(s[s.len() - 1] == 48u8);
                assert forall|i: int| 0 <= i < t.len() && t.len() - (k - 1) <= i implies #[trigger] t[i]
                    == 48u8 by {
                    assert(s[i] == t[i]);
                }
            }
            if n % pow10(k) == 0 {
                assert(n % 10 == 0);
                assert forall|i: int| 0 <= i < s.len() && s.len() - k <= i implies #[trigger] s[i]
                    == 48u8 by {
                    if i < s.len() - 1 {
                        assert(s[i] == t[i]);
                    }
                }
            }
        }
    }
}

proof fn lemma_pow10_positive(k: nat)
    ensures
        pow10(k) >= 10 || k == 0,
        pow10(k) >= 1,
    decreases k,
{
    if k > 0 {
        lemma_pow10_positive((k - 1) as nat);
    }
}

/// A candidate digest is valid exactly when it is a multiple of one million;
/// in particular zero, whose decimal string is shorter than six digits, is
/// valid, and no other short digest is.
pub proof fn lemma_proof_valid_iff_multiple(d: u64)
    ensures
        proof_valid(d) <==> d % 1_000_000 == 0,
{
    lemma_trailing_zeros(d as nat, 6);
    reveal_with_fuel(pow10, 7);
    assert(pow10(6) == 1_000_000);
}

/// `nonce` is the smallest nonce whose candidate digest for `anchor` is valid.
pub open spec fn is_first_valid_nonce(anchor: u64, nonce: u64) -> bool {
    &&& proof_valid(pow_digest(anchor, nonce))
    &&& forall|m: u64| m < nonce ==> !proof_valid(#[trigger] pow_digest(anchor, m))
}

/// No nonce in the range of `u64` gives a valid candidate digest for `anchor`.
pub open spec fn no_valid_nonce(anchor: u64) -> bool {
    forall|m: u64| !proof_valid(#[trigger] pow_digest(anchor, m))
}

/// The contents of each transaction, in order.
pub open spec fn transaction_views(ts: Seq<Transaction>) -> Seq<TransactionView> {
    ts.map_values(|t: Transaction| t@)
}

/// The writes that fold a sequence of transactions, in order.
pub open spec fn transactions_writes(ts: Seq<TransactionView>) -> Seq<Seq<u8>>
    decreases ts.len(),
{
    if ts.len() == 0 {
        seq![]
    } else {
        transactions_writes(ts.drop_last()) + transaction_writes(ts.last())
    }
}

/// The digest of a sequence of transactions.
pub open spec fn transactions_digest(ts: Seq<TransactionView>) -> u64 {
    digest(transactions_writes(ts))
}

/// Whether the last six decimal digits of `digest` (all of them, if it has
/// fewer) are '0'.
pub fn is_proof_valid(digest: u64) -> (r: bool)
    ensures
        r == proof_valid(digest),
{
    let s = decimal_of(digest);
    let n = s.len();
    let mut i: usize = if n > PROOF_DIGITS {
        n - PROOF_DIGITS
    } else {
        0
    };
    while i < n
        invariant
            s@ == decimal_bytes(digest as nat),
            n == s@.len(),
            n - 6 <= i <= n,
            forall|j: int| 0 <= j < i && n - 6 <= j ==> s@[j] == 48u8,
        decreases n - i,
    {
        if s[i] != 48u8 {
            return false;
        }
        i = i + 1;
    }
    true
}

/// The candidate digest for `anchor` and `nonce`.
pub fn candidate_digest(anchor: u64, nonce: u64) -> (r: u64)
    ensures
        r == pow_digest(anchor, nonce),
{
    let mut bytes = decimal_of(anchor);
    push_decimal(&mut bytes, nonce);
    let mut term: Vec<u8> = Vec::new();
    term.push(0xffu8);
    let mut h = DefaultHasher::new();
    h.write(bytes.as_slice());
    h.write(term.as_slice());
    assert(h@ =~= pow_writes(anchor, nonce));
    h.finish()
}

/// A sealed batch of transactions, with the digest of its predecessor and
/// the smallest nonce that satisfies the proof of work for that digest.
pub struct Block {
    transactions: Vec<Transaction>,
    hash: u64,
    last_hash: u64,
    proof: u64,
}

/// The mathematical content of a `Block`.
pub struct BlockView {
    pub transactions: Seq<TransactionView>,
    pub hash: u64,
    pub last_hash: u64,
    pub proof: u64,
}

/// `b.hash` is the digest of its transactions, and `b.proof` the smallest
/// valid nonce for `b.last_hash`.
pub open spec fn block_sealed(b: BlockView) -> bool {
    &&& b.hash == transactions_digest(b.transactions)
    &&& is_first_valid_nonce(b.last_hash, b.proof)
}

impl View for Block {
    type V = BlockView;

    closed spec fn view(&self) -> BlockView {
        BlockView {
            transactions: transaction_views(self.transactions@),
            hash: self.hash,
            last_hash: self.last_hash,
            proof: self.proof,
        }
    }
}

impl Block {
    #[verifier::type_invariant]
    spec fn sealed(&self) -> bool {
        block_sealed(self@)
    }

    /// Seals `transactions` behind `last_hash`: searches the proof of work,
    /// then takes the digest of the transactions.
    pub fn new(transactions: Vec<Transaction>, last_hash: u64) -> (r: Result<Self, LedgerError>)
        ensures
            match r {
                Ok(b) => {
                    &&& b@.transactions == transaction_views(transactions@)
                    &&& b@.hash == transactions_digest(b@.transactions)
                    &&& b@.last_hash == last_hash
                    &&& is_first_valid_nonce(last_hash, b@.proof)
                },
                Err(e) => e == LedgerError::NonceExhausted && no_valid_nonce(last_hash),
            },
    {
        match Block::calculate_proof_of_work(last_hash) {
            Ok(proof) => Ok(Block::seal(transactions, last_hash, proof)),
            Err(e) => Err(e),
        }
    }

    /// Builds the block from a proof already found.
    pub(crate) fn seal(transactions: Vec<Transaction>, last_hash: u64, proof: u64) -> (b: Self)
        requires
            is_first_valid_nonce(last_hash, proof),
        ensures
            b@.transactions == transaction_views(transactions@),
            b@.hash == transactions_digest(b@.transactions),
            b@.last_hash == last_hash,
            b@.proof == proof,
    {
        let hash = Block::calculate_hash(&transactions);
        Block { transactions, hash, last_hash, proof }
    }

    /// The digest of a sequence of transactions: each folded in order.
    pub fn calculate_hash(transactions: &Vec<Transaction>) -> (r: u64)
        ensures
            r == transactions_digest(transaction_views(transactions@)),
    {
        let ghost views = transaction_views(transactions@);
        let mut h = DefaultHasher::new();
        let mut i: usize = 0;
        assert(views.subrange(0, 0) =~= seq![]);
        while i < transactions.len()
            invariant
                i <= transactions.len(),
                views == transaction_views(transactions@),
                h@ == transactions_writes(views.subrange(0, i as int)),
            decreases transactions.len() - i,
        {
            transactions[i].write_into(&mut h);
            proof {
                let s = views.subrange(0, i + 1);
                assert(s.drop_last() =~= views.subrange(0, i as int));
                assert(s.last() == transactions@[i as int]@);
            }
            i = i + 1;
        }
        assert(views.subrange(0, i as int) =~= views);
        h.finish()
    }

    /// The smallest nonce whose candidate digest for `last_hash` is valid.
    pub fn calculate_proof_of_work(last_hash: u64) -> (r: Result<u64, LedgerError>)
        ensures
            match r {
                Ok(n) => is_first_valid_nonce(last_hash, n),
                Err(e) => e == LedgerError::NonceExhausted && no_valid_nonce(last_hash),
            },
    {
        let mut nonce: u64 = 0;
        loop
            invariant
                forall|m: u64| m < nonce ==> !proof_valid(#[trigger] pow_digest(last_hash, m)),
            decreases u64::MAX - nonce,
        {
            let d = candidate_digest(last_hash, nonce);
            if is_proof_valid(d) {
                return Ok(nonce);
            }
            if nonce == u64::MAX {
                assert forall|m: u64| !proof_valid(#[trigger] pow_digest(last_hash, m)) by {
                    if m < nonce {
                    }
                }
                return Err(LedgerError::NonceExhausted);
            }
            nonce = nonce + 1;
        }
    }

    pub fn transactions(&self) -> (r: &Vec<Transaction>)
        ensures
            transaction_views(r@) == self@.transactions,
    {
        &self.transactions
    }

    /// The digest of the block's transactions, fixed when it was sealed.
    pub fn hash(&self) -> (r: u64)
        ensures
            r == self@.hash,
            r == transactions_digest(self@.transactions),
    {
        proof {
            use_type_invariant(self);
        }
        self.hash
    }

    pub fn last_hash(&self) -> (r: u64)
        ensures
            r == self@.last_hash,
    {
        self.last_hash
    }

    pub fn nonce(&self) -> (r: u64)
        ensures
            r == self@.proof,
            is_first_valid_nonce(self@.last_hash, r),
    {
        proof {
            use_type_invariant(self);
        }
        self.proof
    }
}

} // verus!
