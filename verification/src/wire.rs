//! The byte layout in which objects travel and are stored: integers in little-endian order,
//! byte strings after their length as a 64-bit little-endian integer, fixed-size arrays as
//! their bytes, an optional value after a tag byte (0 absent, 1 present).
use vstd::prelude::*;
use vstd::bytes::{
    lemma_auto_spec_u64_to_from_le_bytes, spec_u64_from_le_bytes, spec_u64_to_le_bytes,
    u64_from_le_bytes, u64_to_le_bytes,
};
use crate::be_bytes::{be_bytes, be_value, lemma_be_bytes_len, lemma_be_value_bound, lemma_be_value_of_bytes, lemma_bytes_of_be_value, pow256};

verus! {

/// A byte string after its length.
pub open spec fn enc_bytes(b: Seq<u8>) -> Seq<u8> {
    spec_u64_to_le_bytes(b.len() as u64) + b
}

/// The 64-bit little-endian integer at `pos`.
pub open spec fn parse_u64(b: Seq<u8>, pos: int) -> Option<(u64, int)> {
    if 0 <= pos && pos + 8 <= b.len() {
        Some((spec_u64_from_le_bytes(b.subrange(pos, pos + 8)), pos + 8))
    } else {
        None
    }
}

/// The length-prefixed byte string at `pos`.
pub open spec fn parse_bytes(b: Seq<u8>, pos: int) -> Option<(Seq<u8>, int)> {
    match parse_u64(b, pos) {
        Some((n, p)) => if n <= b.len() - p {
            Some((b.subrange(p, p + n), p + n))
        } else {
            None
        },
        None => None,
    }
}

/// The `n` bytes at `pos`.
pub open spec fn parse_fixed(b: Seq<u8>, pos: int, n: int) -> Option<(Seq<u8>, int)> {
    if 0 <= pos && 0 <= n && pos + n <= b.len() {
        Some((b.subrange(pos, pos + n), pos + n))
    } else {
        None
    }
}

/// A 128-bit identifier as the byte string of its 16 big-endian bytes.
pub open spec fn enc_uuid(u: u128) -> Seq<u8> {
    enc_bytes(be_bytes(u as nat, 16))
}

/// The identifier at `pos`: a byte string of exactly 16 bytes.
pub open spec fn parse_uuid(b: Seq<u8>, pos: int) -> Option<(u128, int)> {
    match parse_bytes(b, pos) {
        Some((s, p)) => if s.len() == 16 {
            Some((be_value(s) as u128, p))
        } else {
            None
        },
        None => None,
    }
}

pub proof fn lemma_u64_le_len(x: u64)
    ensures
        spec_u64_to_le_bytes(x).len() == 8,
        spec_u64_from_le_bytes(spec_u64_to_le_bytes(x)) == x,
{
    lemma_auto_spec_u64_to_from_le_bytes();
}

/// Reading a byte string back at the place where it was written.
pub proof fn lemma_parse_bytes_enc(pre: Seq<u8>, x: Seq<u8>, rest: Seq<u8>)
    requires
        x.len() < 0x1_0000_0000_0000_0000,
    ensures
        parse_bytes(pre + enc_bytes(x) + rest, pre.len() as int) == Some(
            (x, (pre.len() + enc_bytes(x).len()) as int),
        ),
        enc_bytes(x).len() == 8 + x.len(),
{
    lemma_u64_le_len(x.len() as u64);
    let b = pre + enc_bytes(x) + rest;
    let p = pre.len() as int;
    assert(b.subrange(p, p + 8) =~= spec_u64_to_le_bytes(x.len() as u64));
    assert(b.subrange(p + 8, p + 8 + x.len()) =~= x);
}

pub proof fn lemma_parse_fixed_at(pre: Seq<u8>, x: Seq<u8>, rest: Seq<u8>)
    ensures
        parse_fixed(pre + x + rest, pre.len() as int, x.len() as int) == Some(
            (x, (pre.len() + x.len()) as int),
        ),
{
    assert((pre + x + rest).subrange(pre.len() as int, pre.len() + x.len() as int) =~= x);
}

pub proof fn lemma_parse_uuid_enc(pre: Seq<u8>, u: u128, rest: Seq<u8>)
    ensures
        parse_uuid(pre + enc_uuid(u) + rest, pre.len() as int) == Some(
            (u, (pre.len() + enc_uuid(u).len()) as int),
        ),
        enc_uuid(u).len() == 24,
{
    lemma_be_bytes_len(u as nat, 16);
    lemma_parse_bytes_enc(pre, be_bytes(u as nat, 16), rest);
    lemma_pow256_16();
    lemma_be_value_of_bytes(u as nat, 16);
}

pub proof fn lemma_pow256_16()
    ensures
        pow256(16) == 0x1_0000_0000_0000_0000_0000_0000_0000_0000,
{
    reveal_with_fuel(pow256, 17);
}

/// Appends the bytes of `b` to `out`.
pub fn push_all(out: &mut Vec<u8>, b: &[u8])
    ensures
        final(out)@ == old(out)@ + b@,
{
    let mut i: usize = 0;
    let n = b.len();
    while i < n
        invariant
            n == b@.len(),
            i <= n,
            out@ == old(out)@ + b@.subrange(0, i as int),
        decreases n - i,
    {
        out.push(b[i]);
        i = i + 1;
        proof {
            assert(out@ =~= old(out)@ + b@.subrange(0, i as int));
        }
    }
    proof {
        assert(b@.subrange(0, n as int) =~= b@);
    }
}

/// Appends the byte string `b` after its length.
pub fn write_bytes(out: &mut Vec<u8>, b: &[u8])
    ensures
        final(out)@ == old(out)@ + enc_bytes(b@),
{
    let len = u64_to_le_bytes(b.len() as u64);
    push_all(out, len.as_slice());
    push_all(out, b);
    proof {
        assert(out@ =~= old(out)@ + enc_bytes(b@));
    }
}

/// Appends an identifier as the byte string of its 16 big-endian bytes.
pub fn write_uuid(out: &mut Vec<u8>, u: u128)
    ensures
        final(out)@ == old(out)@ + enc_uuid(u),
{
    let mut bytes: Vec<u8> = Vec::new();
    let mut k: usize = 0;
    let mut v: u128 = u;
    let ghost mut low: Seq<u8> = seq![];
    while k < 16
        invariant
            k <= 16,
            low.len() == k,
            bytes@ == low,
            be_bytes(u as nat, 16) == be_bytes(v as nat, (16 - k) as nat) + low.reverse(),
        decreases 16 - k,
    {
        let byte = (v % 256) as u8;
        proof {
            assert(be_bytes(v as nat, (16 - k) as nat) =~= be_bytes((v / 256) as nat, (15 - k) as nat).push(
                byte,
            ));
            assert(low.push(byte).reverse() =~= seq![byte] + low.reverse());
        }
        bytes.push(byte);
        proof {
            low = low.push(byte);
        }
        v = v / 256;
        k = k + 1;
    }
    let mut be: Vec<u8> = Vec::new();
    let mut j: usize = 16;
    while j > 0
        invariant
            j <= 16,
            bytes@ == low,
            low.len() == 16,
            be@ == low.reverse().subrange(0, 16 - j),
        decreases j,
    {
        be.push(bytes[j - 1]);
        j = j - 1;
        proof {
            assert(be@ =~= low.reverse().subrange(0, 16 - j));
        }
    }
    proof {
        assert(be@ =~= be_bytes(u as nat, 16));
    }
    write_bytes(out, be.as_slice());
}

/// Reads the 64-bit little-endian integer at `pos`.
pub fn read_u64(b: &[u8], pos: usize) -> (r: Option<(u64, usize)>)
    ensures
        match r {
            Some((x, p)) => parse_u64(b@, pos as int) == Some((x, p as int)),
            None => parse_u64(b@, pos as int) is None,
        },
{
    if pos > b.len() || b.len() - pos < 8 {
        return None;
    }
    let s = vstd::slice::slice_subrange(b, pos, pos + 8);
    Some((u64_from_le_bytes(s), pos + 8))
}

/// Reads the length-prefixed byte string at `pos`.
pub fn read_bytes(b: &[u8], pos: usize) -> (r: Option<(Vec<u8>, usize)>)
    ensures
        match r {
            Some((x, p)) => parse_bytes(b@, pos as int) == Some((x@, p as int)),
            None => parse_bytes(b@, pos as int) is None,
        },
{
    match read_u64(b, pos) {
        None => None,
        Some((n, p)) => {
            if n > (b.len() - p) as u64 {
                None
            } else {
                let n = n as usize;
                let s = vstd::slice::slice_subrange(b, p, p + n);
                Some((vstd::slice::slice_to_vec(s), p + n))
            }
        },
    }
}

/// Reads the `n` bytes at `pos`.
pub fn read_fixed(b: &[u8], pos: usize, n: usize) -> (r: Option<(Vec<u8>, usize)>)
    ensures
        match r {
            Some((x, p)) => parse_fixed(b@, pos as int, n as int) == Some((x@, p as int)),
            None => parse_fixed(b@, pos as int, n as int) is None,
        },
{
    if pos > b.len() || b.len() - pos < n {
        return None;
    }
    let s = vstd::slice::slice_subrange(b, pos, pos + n);
    Some((vstd::slice::slice_to_vec(s), pos + n))
}

/// Reads the identifier at `pos`.
pub fn read_uuid(b: &[u8], pos: usize) -> (r: Option<(u128, usize)>)
    ensures
        match r {
            Some((x, p)) => parse_uuid(b@, pos as int) == Some((x, p as int)),
            None => parse_uuid(b@, pos as int) is None,
        },
{
    match read_bytes(b, pos) {
        None => None,
        Some((s, p)) => {
            if s.len() != 16 {
                return None;
            }
            let mut acc: u128 = 0;
            let mut j: usize = 0;
            proof {
                assert(s@.subrange(0, 0) =~= Seq::<u8>::empty());
            }
            while j < 16
                invariant
                    s@.len() == 16,
                    j <= 16,
                    acc == be_value(s@.subrange(0, j as int)),
                    acc < pow256(j as nat),
                decreases 16 - j,
            {
                let ghost old_acc = acc;
                proof {
                    lemma_pow256_16();
                    crate::be_bytes::lemma_pow256_monotone(j as nat, 15);
                    reveal_with_fuel(pow256, 17);
                }
                acc = acc * 256 + s[j] as u128;
                proof {
                    assert(s@.subrange(0, j + 1).drop_last() =~= s@.subrange(0, j as int));
                    assert(acc < pow256((j + 1) as nat)) by (nonlinear_arith)
                        requires
                            old_acc < pow256(j as nat),
                            acc == old_acc * 256 + s@[j as int],
                            s@[j as int] < 256,
                            pow256((j + 1) as nat) == 256 * pow256(j as nat),
                    ;
                }
                j = j + 1;
            }
            proof {
                assert(s@.subrange(0, 16) =~= s@);
            }
            Some((acc, p))
        },
    }
}

} // verus!
