//! Unsigned integers as bytes, most significant byte first.

use vstd::arithmetic::div_mod::lemma_div_denominator;
use vstd::arithmetic::power::{
    lemma_pow0, lemma_pow1, lemma_pow_adds, lemma_pow_positive, pow,
};
use vstd::prelude::*;

verus! {

/// The last `n` bytes of `value`, most significant byte first.
pub open spec fn be_bytes(value: nat, n: nat) -> Seq<u8>
    decreases n,
{
    if n == 0 {
        Seq::empty()
    } else {
        be_bytes(value / 256, (n - 1) as nat).push((value % 256) as u8)
    }
}

/// The number that the bytes write, most significant byte first.
pub open spec fn be_value(bytes: Seq<u8>) -> nat
    decreases bytes.len(),
{
    if bytes.len() == 0 {
        0
    } else {
        be_value(bytes.drop_last()) * 256 + bytes.last() as nat
    }
}

/// How many numbers `n` bytes can write.
pub open spec fn span(n: nat) -> nat
    decreases n,
{
    if n == 0 {
        1
    } else {
        256 * span((n - 1) as nat)
    }
}

pub proof fn lemma_be_bytes_len(value: nat, n: nat)
    ensures
        be_bytes(value, n).len() == n,
    decreases n,
{
    if n > 0 {
        lemma_be_bytes_len(value / 256, (n - 1) as nat);
    }
}

pub proof fn lemma_be_value_bound(bytes: Seq<u8>)
    ensures
        be_value(bytes) < span(bytes.len()),
    decreases bytes.len(),
{
    if bytes.len() > 0 {
        lemma_be_value_bound(bytes.drop_last());
    }
}

/// What is written in enough bytes is read back.
pub proof fn law_read_back_value(value: nat, n: nat)
    requires
        value < span(n),
    ensures
        be_value(be_bytes(value, n)) == value,
    decreases n,
{
    if n > 0 {
        assert(value / 256 < span((n - 1) as nat));
        law_read_back_value(value / 256, (n - 1) as nat);
        let bytes = be_bytes(value, n);
        assert(bytes.drop_last() =~= be_bytes(value / 256, (n - 1) as nat));
    }
}

/// What is read is written back as the same bytes.
pub proof fn law_write_back_bytes(bytes: Seq<u8>)
    ensures
        be_bytes(be_value(bytes), bytes.len()) == bytes,
    decreases bytes.len(),
{
    if bytes.len() > 0 {
        let before = bytes.drop_last();
        law_write_back_bytes(before);
        let value = be_value(bytes);
        assert(value / 256 == be_value(before));
        assert(value % 256 == bytes.last() as nat);
        assert(before.push(bytes.last()) =~= bytes);
    }
}

/// Appends the last `n` bytes of `value`.
pub fn push_be(out: &mut Vec<u8>, value: u64, n: usize)
    ensures
        final(out)@ == old(out)@ + be_bytes(value as nat, n as nat),
    decreases n,
{
    if n > 0 {
        push_be(out, value / 256, n - 1);
        out.push((value % 256) as u8);
    }
    assert(out@ =~= old(out)@ + be_bytes(value as nat, n as nat));
}

/// The number that the bytes from `from` up to `to` write.
pub fn read_be(bytes: &[u8], from: usize, to: usize) -> (value: u64)
    requires
        from <= to <= bytes@.len(),
        to - from <= 8,
    ensures
        value == be_value(bytes@.subrange(from as int, to as int)),
{
    let mut value: u64 = 0;
    let mut i: usize = from;
    while i < to
        invariant
            from <= i <= to <= bytes@.len(),
            to - from <= 8,
            value == be_value(bytes@.subrange(from as int, i as int)),
        decreases to - i,
    {
        proof {
            let read = bytes@.subrange(from as int, i as int);
            let more = bytes@.subrange(from as int, i + 1);
            assert(more.drop_last() =~= read);
            lemma_be_value_bound(more);
            reveal_with_fuel(span, 9);
            assert(more.len() <= 8);
        }
        value = value * 256 + bytes[i] as u64;
        i += 1;
    }
    value
}

/// Each byte is the digit of the number to base 256 that its place says, the
/// highest first.
pub proof fn law_bytes_are_digits(value: nat, n: nat, i: int)
    requires
        0 <= i < n,
    ensures
        be_bytes(value, n).len() == n,
        be_bytes(value, n)[i] == (value as int / pow(256, (n - 1 - i) as nat)) % 256,
    decreases n,
{
    lemma_be_bytes_len(value, n);
    lemma_be_bytes_len(value / 256, (n - 1) as nat);
    if i == n - 1 {
        lemma_pow0(256);
        assert(value as int / 1 == value as int);
    } else {
        law_bytes_are_digits(value / 256, (n - 1) as nat, i);
        let k = (n - 2 - i) as nat;
        lemma_pow_positive(256, k);
        lemma_pow1(256);
        lemma_pow_adds(256, 1, k);
        lemma_div_denominator(value as int, 256, pow(256, k));
    }
}

} // verus!
