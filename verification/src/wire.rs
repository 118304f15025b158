//! Little-endian integers on byte sequences.

use vstd::prelude::*;

verus! {

/// Value of `s` read as a little-endian number.
pub open spec fn le_value(s: Seq<u8>) -> nat
    decreases s.len(),
{
    if s.len() == 0 {
        0
    } else {
        s[0] as nat + 0x100 * le_value(s.drop_first())
    }
}

/// The `len` low bytes of `n`, least significant first.
pub open spec fn le_bytes(n: nat, len: nat) -> Seq<u8>
    decreases len,
{
    if len == 0 {
        Seq::empty()
    } else {
        seq![(n % 0x100) as u8] + le_bytes(n / 0x100, (len - 1) as nat)
    }
}

pub open spec fn pow256(len: nat) -> nat
    decreases len,
{
    if len == 0 {
        1
    } else {
        0x100 * pow256((len - 1) as nat)
    }
}

/// Writing a number that fits and reading it back gives the number.
pub proof fn lemma_le_read_back(n: nat, len: nat)
    requires
        n < pow256(len),
    ensures
        le_bytes(n, len).len() == len,
        le_value(le_bytes(n, len)) == n,
    decreases len,
{
    if len > 0 {
        let rest = le_bytes(n / 0x100, (len - 1) as nat);
        assert(n / 0x100 < pow256((len - 1) as nat));
        lemma_le_read_back(n / 0x100, (len - 1) as nat);
        assert(le_bytes(n, len).drop_first() =~= rest);
    }
}

/// Reading bytes and writing the number back gives the bytes.
pub proof fn lemma_le_write_back(s: Seq<u8>)
    ensures
        le_bytes(le_value(s), s.len()) == s,
        le_value(s) < pow256(s.len()),
    decreases s.len(),
{
    if s.len() > 0 {
        let rest = s.drop_first();
        lemma_le_write_back(rest);
        let n = le_value(s);
        assert(n % 0x100 == s[0] as nat);
        assert(n / 0x100 == le_value(rest));
        assert(le_bytes(n, s.len()) =~= s);
    } else {
        assert(le_bytes(0, 0) =~= s);
    }
}

/// Appends the eight little-endian bytes of `n`.
pub fn push_u64_le(out: &mut Vec<u8>, n: u64)
    ensures
        final(out)@ == old(out)@ + le_bytes(n as nat, 8),
{
    let mut rest: u64 = n;
    let mut left: usize = 8;
    assert(out@ + le_bytes(n as nat, 8) =~= old(out)@ + le_bytes(n as nat, 8));
    while left > 0
        invariant
            left <= 8,
            out@ + le_bytes(rest as nat, left as nat) == old(out)@ + le_bytes(n as nat, 8),
        decreases left,
    {
        let low = (rest % 0x100) as u8;
        let ghost before = out@;
        out.push(low);
        proof {
            assert(before + le_bytes(rest as nat, left as nat) =~= out@ + le_bytes(
                rest as nat / 0x100,
                (left - 1) as nat,
            ));
        }
        rest = rest / 0x100;
        left = left - 1;
    }
    assert(out@ + le_bytes(rest as nat, 0) =~= out@);
}

/// Reads the `len` bytes at `at` as a little-endian number.
pub fn read_le(b: &[u8], at: usize, len: usize) -> (n: u64)
    requires
        len <= 8,
        at + len <= b@.len(),
    ensures
        n == le_value(b@.subrange(at as int, at + len)),
{
    let total = b.len();
    let mut n: u64 = 0;
    let mut left: usize = len;
    let ghost field = b@.subrange(at as int, at + len);
    assert(field.skip(len as int) =~= Seq::<u8>::empty());
    while left > 0
        invariant
            left <= len <= 8,
            at + len <= total == b@.len(),
            field == b@.subrange(at as int, at + len),
            n == le_value(field.skip(left as int)),
        decreases left,
    {
        let ghost tail = field.skip(left as int);
        left = left - 1;
        proof {
            lemma_le_write_back(tail);
            assert(field.skip(left as int).drop_first() =~= tail);
            assert(field.skip(left as int)[0] == b@[at + left]);
            lemma_pow256_bound(tail.len());
        }
        n = b[at + left] as u64 + 0x100 * n;
    }
    assert(field.skip(0) =~= field);
    n
}

proof fn lemma_pow256_bound(len: nat)
    requires
        len <= 7,
    ensures
        pow256(len) <= 0x100_0000_0000_0000,
    decreases len,
{
    reveal_with_fuel(pow256, 8);
}

/// Four bytes read as a number: each counts 256 times the one before it.
pub proof fn law_value_of_four_bytes(s: Seq<u8>)
    requires
        s.len() == 4,
    ensures
        le_value(s) == s[0] + 0x100 * s[1] + 0x1_0000 * s[2] + 0x100_0000 * s[3],
{
    reveal_with_fuel(le_value, 5);
}

/// Eight bytes read as a number: each counts 256 times the one before it.
pub proof fn law_value_of_eight_bytes(s: Seq<u8>)
    requires
        s.len() == 8,
    ensures
        le_value(s) == s[0] + 0x100 * s[1] + 0x1_0000 * s[2] + 0x100_0000 * s[3]
            + 0x1_0000_0000 * s[4] + 0x100_0000_0000 * s[5] + 0x1_0000_0000_0000 * s[6]
            + 0x100_0000_0000_0000 * s[7],
{
    reveal_with_fuel(le_value, 9);
}

} // verus!
