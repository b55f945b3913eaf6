//! Big-endian reading and writing of 64-bit words.
use vstd::prelude::*;

verus! {

/// 256 to the power `n`.
pub open spec fn pow256(n: nat) -> nat
    decreases n,
{
    if n == 0 {
        1
    } else {
        256 * pow256((n - 1) as nat)
    }
}

/// The number that the bytes `s` write in big-endian order.
pub open spec fn be_value(s: Seq<u8>) -> nat
    decreases s.len(),
{
    if s.len() == 0 {
        0
    } else {
        be_value(s.drop_last()) * 256 + s.last() as nat
    }
}

/// The `n` low bytes of `x`, most significant first.
pub open spec fn be_bytes(x: nat, n: nat) -> Seq<u8>
    decreases n,
{
    if n == 0 {
        seq![]
    } else {
        be_bytes(x / 256, (n - 1) as nat).push((x % 256) as u8)
    }
}

/// The value of a signed 64-bit word whose two's complement bits are those of `u`.
pub open spec fn i64_of_bits(u: nat) -> int {
    if u < 0x8000_0000_0000_0000 {
        u as int
    } else {
        u - 0x1_0000_0000_0000_0000
    }
}

/// The two's complement bits of a signed 64-bit word, read as an unsigned one.
pub open spec fn bits_of_i64(i: int) -> nat {
    if i >= 0 {
        i as nat
    } else {
        (i + 0x1_0000_0000_0000_0000) as nat
    }
}

pub proof fn lemma_pow256_8()
    ensures
        pow256(8) == 0x1_0000_0000_0000_0000,
{
    reveal_with_fuel(pow256, 9);
}

pub proof fn lemma_be_bytes_len(x: nat, n: nat)
    ensures
        be_bytes(x, n).len() == n,
    decreases n,
{
    if n > 0 {
        lemma_be_bytes_len(x / 256, (n - 1) as nat);
    }
}

pub proof fn lemma_be_value_bound(s: Seq<u8>)
    ensures
        be_value(s) < pow256(s.len()),
    decreases s.len(),
{
    if s.len() > 0 {
        lemma_be_value_bound(s.drop_last());
        let a = be_value(s.drop_last());
        let p = pow256((s.len() - 1) as nat);
        assert(a * 256 + s.last() < p * 256) by (nonlinear_arith)
            requires
                a < p,
                s.last() < 256,
        ;
    }
}

/// Reading back what was written gives the number, when it fits.
pub proof fn lemma_be_value_of_bytes(x: nat, n: nat)
    requires
        x < pow256(n),
    ensures
        be_value(be_bytes(x, n)) == x,
    decreases n,
{
    if n > 0 {
        let q = x / 256;
        let p = pow256((n - 1) as nat);
        assert(q < p) by (nonlinear_arith)
            requires
                x < 256 * p,
                q == x / 256,
        ;
        lemma_be_value_of_bytes(q, (n - 1) as nat);
        assert(be_bytes(x, n).drop_last() =~= be_bytes(q, (n - 1) as nat));
        assert(q * 256 + x % 256 == x);
    }
}

/// Writing what was read gives the bytes back.
pub proof fn lemma_bytes_of_be_value(s: Seq<u8>)
    ensures
        be_bytes(be_value(s), s.len()) == s,
    decreases s.len(),
{
    if s.len() > 0 {
        let a = be_value(s.drop_last());
        let b = s.last();
        lemma_bytes_of_be_value(s.drop_last());
        assert((a * 256 + b) / 256 == a);
        assert((a * 256 + b) % 256 == b);
        assert(be_bytes(be_value(s), s.len()) =~= be_bytes(a, (s.len() - 1) as nat).push(b));
        assert(s =~= s.drop_last().push(b));
    }
}

/// Reads the 64-bit big-endian word at `start`.
pub fn u64_from_be(b: &[u8], start: usize) -> (r: u64)
    requires
        start + 8 <= b@.len(),
    ensures
        r == be_value(b@.subrange(start as int, start + 8)),
{
    let n = b.len();
    let mut acc: u64 = 0;
    let mut j: usize = 0;
    proof {
        assert(b@.subrange(start as int, start as int) =~= Seq::<u8>::empty());
    }
    while j < 8
        invariant
            start + 8 <= b@.len(),
            n == b@.len(),
            j <= 8,
            acc == be_value(b@.subrange(start as int, start + j)),
            acc < pow256(j as nat),
        decreases 8 - j,
    {
        let ghost old_acc = acc;
        proof {
            reveal_with_fuel(pow256, 9);
            assert(pow256(j as nat) <= pow256(7)) by {
                lemma_pow256_monotone(j as nat, 7);
            }
            assert(pow256(7) == 0x100_0000_0000_0000);
        }
        acc = acc * 256 + b[start + j] as u64;
        proof {
            assert(b@.subrange(start as int, start + j + 1).drop_last() =~= b@.subrange(
                start as int,
                start + j,
            ));
            assert(acc < pow256((j + 1) as nat)) by (nonlinear_arith)
                requires
                    old_acc < pow256(j as nat),
                    acc == old_acc * 256 + b[start + j],
                    b[start + j] < 256,
                    pow256((j + 1) as nat) == 256 * pow256(j as nat),
            ;
        }
        j = j + 1;
    }
    acc
}

pub proof fn lemma_pow256_monotone(a: nat, b: nat)
    requires
        a <= b,
    ensures
        pow256(a) <= pow256(b),
    decreases b,
{
    if a < b {
        lemma_pow256_monotone(a, (b - 1) as nat);
    }
}

/// Writes `x` as eight big-endian bytes at `start`.
pub fn u64_to_be(out: &mut [u8; 32], start: usize, x: u64)
    requires
        start + 8 <= 32,
    ensures
        final(out)@.subrange(start as int, start + 8) == be_bytes(x as nat, 8),
        forall|k: int|
            0 <= k < 32 && !(start <= k < start + 8) ==> final(out)@[k] == old(out)@[k],
{
    let mut v: u64 = x;
    let mut k: usize = 0;
    let ghost mut low: Seq<u8> = seq![];
    while k < 8
        invariant
            start + 8 <= 32,
            k <= 8,
            low.len() == k,
            be_bytes(x as nat, 8) == be_bytes(v as nat, (8 - k) as nat) + low,
            out@.subrange(start + 8 - k, start + 8) == low,
            forall|m: int|
                0 <= m < 32 && !(start + 8 - k <= m < start + 8) ==> out@[m] == old(out)@[m],
        decreases 8 - k,
    {
        let byte = (v % 256) as u8;
        let ghost old_out = out@;
        out[start + 7 - k] = byte;
        proof {
            assert(be_bytes(v as nat, (8 - k) as nat) =~= be_bytes((v / 256) as nat, (7 - k) as nat).push(
                byte,
            ));
            low = seq![byte] + low;
            assert(out@.subrange(start + 7 - k, start + 8) =~= low);
        }
        v = v / 256;
        k = k + 1;
    }
    proof {
        assert(low =~= be_bytes(x as nat, 8));
    }
}

/// The signed word whose two's complement bits are `u`.
pub fn i64_from_bits(u: u64) -> (r: i64)
    ensures
        r == i64_of_bits(u as nat),
{
    if u < 0x8000_0000_0000_0000 {
        u as i64
    } else {
        ((u - 0x8000_0000_0000_0000) as i64) + i64::MIN
    }
}

/// The two's complement bits of `i`.
pub fn bits_from_i64(i: i64) -> (r: u64)
    ensures
        r == bits_of_i64(i as int),
{
    if i >= 0 {
        i as u64
    } else {
        ((i - i64::MIN) as u64) + 0x8000_0000_0000_0000
    }
}

} // verus!
