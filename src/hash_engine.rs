//! Deterministic digests: every value is folded, as a sequence of byte
//! writes, into one `DefaultHasher`.
use std::collections::hash_map::DefaultHasher;
use std::hash::Hasher;
use vstd::prelude::*;
use vstd::std_specs::hash::DefaultHasherAdditionalSpecFns;
use vstd::utf8::encode_utf8;

verus! {

/// The digest that a fresh `DefaultHasher` yields after the given writes.
pub open spec fn digest(writes: Seq<Seq<u8>>) -> u64 {
    DefaultHasher::spec_finish(writes)
}

/// Base-10 rendering of `n`, as ASCII digit bytes, without leading zeros.
pub open spec fn decimal_bytes(n: nat) -> Seq<u8>
    decreases n,
{
    if n < 10 {
        seq![(48 + n) as u8]
    } else {
        decimal_bytes(n / 10).push((48 + n % 10) as u8)
    }
}

/// The `count` low bytes of `x`, least significant first.
pub open spec fn le_bytes(x: nat, count: nat) -> Seq<u8>
    decreases count,
{
    if count == 0 {
        seq![]
    } else {
        seq![(x % 256) as u8] + le_bytes(x / 256, (count - 1) as nat)
    }
}

/// The writes that fold a string: its UTF-8 bytes, then the terminator 0xff.
pub open spec fn str_writes(s: Seq<char>) -> Seq<Seq<u8>> {
    seq![encode_utf8(s), seq![0xffu8]]
}

/// The writes that fold an unsigned integer: its eight little-endian bytes.
pub open spec fn u64_writes(x: u64) -> Seq<Seq<u8>> {
    seq![le_bytes(x as nat, 8)]
}

/// Appends the base-10 digits of `n` to `out`.
pub fn push_decimal(out: &mut Vec<u8>, n: u64)
    ensures
        final(out)@ == old(out)@ + decimal_bytes(n as nat),
    decreases n,
{
    if n >= 10 {
        push_decimal(out, n / 10);
    }
    out.push(48u8 + (n % 10) as u8);
}

/// The base-10 digits of `n`.
pub fn decimal_of(n: u64) -> (r: Vec<u8>)
    ensures
        r@ == decimal_bytes(n as nat),
{
    let mut r: Vec<u8> = Vec::new();
    push_decimal(&mut r, n);
    assert(r@ =~= decimal_bytes(n as nat));
    r
}

/// Folds the string `s` into `h`.
pub fn write_str(h: &mut DefaultHasher, s: &str)
    ensures
        final(h)@ == old(h)@ + str_writes(s@),
{
    let b = s.as_bytes();
    assert(b@ == encode_utf8(s@));
    h.write(b);
    let mut term: Vec<u8> = Vec::new();
    term.push(0xffu8);
    assert(term@ =~= seq![0xffu8]);
    h.write(term.as_slice());
    assert(h@ =~= old(h)@ + str_writes(s@));
}

/// Folds the unsigned integer `x` into `h`.
pub fn write_u64(h: &mut DefaultHasher, x: u64)
    ensures
        final(h)@ == old(h)@ + u64_writes(x),
{
    let mut bytes: Vec<u8> = Vec::new();
    let mut rest: u64 = x;
    let mut i: u64 = 0;
    while i < 8
        invariant
            i <= 8,
            bytes@ + le_bytes(rest as nat, (8 - i) as nat) == le_bytes(x as nat, 8),
        decreases 8 - i,
    {
        proof {
            assert(le_bytes(rest as nat, (8 - i) as nat) == seq![(rest % 256) as u8] + le_bytes(
                (rest / 256) as nat,
                (8 - i - 1) as nat,
            ));
        }
        bytes.push((rest % 256) as u8);
        rest = rest / 256;
        i = i + 1;
        proof {
            assert(bytes@ + le_bytes(rest as nat, (8 - i) as nat) =~= le_bytes(x as nat, 8));
        }
    }
    assert(le_bytes(rest as nat, 0) =~= seq![]);
    assert(bytes@ =~= le_bytes(x as nat, 8));
    h.write(bytes.as_slice());
    assert(h@ =~= old(h)@ + u64_writes(x));
}

} // verus!
