//! Transfer records and their digests.
use crate::hash_engine::{digest, str_writes, u64_writes, write_str, write_u64};
use std::collections::hash_map::DefaultHasher;
use std::hash::Hasher;
use vstd::prelude::*;

verus! {

/// Amounts are held in millionths of a monetary unit; this many make one
/// hundredth.
pub const MICROS_PER_HUNDREDTH: u64 = 10_000;

/// Hundredths in one whole unit.
pub const HUNDREDTHS_PER_UNIT: u64 = 100;

/// A transfer of `amount` (in millionths of a unit) from `from` to `to`.
/// Immutable once built.
pub struct Transaction {
    to: String,
    from: String,
    amount: i64,
}

/// The mathematical content of a `Transaction`.
pub struct TransactionView {
    pub to: Seq<char>,
    pub from: Seq<char>,
    pub amount: int,
}

impl View for Transaction {
    type V = TransactionView;

    closed spec fn view(&self) -> TransactionView {
        TransactionView { to: self.to@, from: self.from@, amount: self.amount as int }
    }
}

/// `amount` truncated toward zero to whole hundredths of a unit.
pub open spec fn hundredths_of(amount: int) -> int {
    if amount >= 0 {
        amount / 10_000
    } else {
        -((-amount) / 10_000)
    }
}

/// Whole units of the truncated amount, truncated toward zero.
pub open spec fn dollars_of(amount: int) -> int {
    let h = hundredths_of(amount);
    if h >= 0 {
        h / 100
    } else {
        -((-h) / 100)
    }
}

/// Hundredths left over after the whole units, carrying the amount's sign.
pub open spec fn cents_of(amount: int) -> int {
    let h = hundredths_of(amount);
    if h >= 0 {
        h % 100
    } else {
        -((-h) % 100)
    }
}

/// The 64-bit two's complement pattern of `x`, for `x` in the range of `i64`.
pub open spec fn twos_complement(x: int) -> u64 {
    if x >= 0 {
        x as u64
    } else {
        (x + 0x1_0000_0000_0000_0000) as u64
    }
}

/// The writes that fold an amount: whole units, then hundredths.
pub open spec fn amount_writes(amount: int) -> Seq<Seq<u8>> {
    u64_writes(twos_complement(dollars_of(amount))) + u64_writes(twos_complement(cents_of(amount)))
}

/// The writes that fold a transaction: recipient, sender, then the amount.
pub open spec fn transaction_writes(t: TransactionView) -> Seq<Seq<u8>> {
    str_writes(t.to) + str_writes(t.from) + amount_writes(t.amount)
}

/// The digest of a transaction.
pub open spec fn transaction_digest(t: TransactionView) -> u64 {
    digest(transaction_writes(t))
}

/// The digest of a transaction depends on its content alone: two
/// transactions with the same recipient, sender and amount, however and
/// whenever built, have the same digest.
pub proof fn lemma_hash_deterministic(a: TransactionView, b: TransactionView)
    requires
        a == b,
    ensures
        transaction_digest(a) == transaction_digest(b),
{
}

/// Precision beyond the hundredths place is dropped before hashing: two
/// transactions that differ only there have the same digest.
pub proof fn lemma_hash_ignores_sub_hundredths(a: TransactionView, b: TransactionView)
    requires
        a.to == b.to,
        a.from == b.from,
        hundredths_of(a.amount) == hundredths_of(b.amount),
    ensures
        transaction_digest(a) == transaction_digest(b),
{
    assert(transaction_writes(a) =~= transaction_writes(b));
}

/// Splits `amount` into its truncated whole units and hundredths.
pub fn amount_parts(amount: i64) -> (r: (i64, i64))
    ensures
        r.0 == dollars_of(amount as int),
        r.1 == cents_of(amount as int),
{
    if amount >= 0 {
        let h: u64 = (amount as u64) / MICROS_PER_HUNDREDTH;
        ((h / HUNDREDTHS_PER_UNIT) as i64, (h % HUNDREDTHS_PER_UNIT) as i64)
    } else {
        let m: u64 = (-(amount as i128)) as u64;
        let h: u64 = m / MICROS_PER_HUNDREDTH;
        (-((h / HUNDREDTHS_PER_UNIT) as i64), -((h % HUNDREDTHS_PER_UNIT) as i64))
    }
}

/// The two's complement pattern of `x`.
pub fn twos_complement_of(x: i64) -> (r: u64)
    ensures
        r == twos_complement(x as int),
{
    if x >= 0 {
        x as u64
    } else {
        let m: u64 = (-(x as i128)) as u64;
        u64::MAX - (m - 1)
    }
}

impl Transaction {
    /// A transaction of `amount` millionths of a unit. Any amount is
    /// accepted, zero and negative ones included.
    pub fn new(to: String, from: String, amount: i64) -> (r: Self)
        ensures
            r@ == (TransactionView { to: to@, from: from@, amount: amount as int }),
    {
        Transaction { to, from, amount }
    }

    pub fn to(&self) -> (r: &String)
        ensures
            r@ == self@.to,
    {
        &self.to
    }

    pub fn from(&self) -> (r: &String)
        ensures
            r@ == self@.from,
    {
        &self.from
    }

    pub fn amount(&self) -> (r: i64)
        ensures
            r as int == self@.amount,
    {
        self.amount
    }

    /// Folds this transaction into `h`.
    pub fn write_into(&self, h: &mut DefaultHasher)
        ensures
            final(h)@ == old(h)@ + transaction_writes(self@),
    {
        write_str(h, self.to.as_str());
        write_str(h, self.from.as_str());
        let (dollars, cents) = amount_parts(self.amount);
        write_u64(h, twos_complement_of(dollars));
        write_u64(h, twos_complement_of(cents));
        assert(h@ =~= old(h)@ + transaction_writes(self@));
    }

    /// The digest of this transaction.
    pub fn hash(&self) -> (r: u64)
        ensures
            r == transaction_digest(self@),
    {
        let mut h = DefaultHasher::new();
        self.write_into(&mut h);
        assert(h@ =~= transaction_writes(self@));
        h.finish()
    }

    /// The digest of `t`.
    pub fn calculate_hash(t: &Transaction) -> (r: u64)
        ensures
            r == transaction_digest(t@),
    {
        t.hash()
    }
}

} // verus!
