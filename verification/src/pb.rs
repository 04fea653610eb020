//! Byte-level codec primitives of the wire protocol: big-endian fixed-width
//! integers, unsigned and zig-zag varints, compact strings, compact arrays,
//! 16-byte ids and tag buffers.
//!
//! Every decoder walks an immutable byte slice and returns the decoded value
//! together with the rest of the slice; every decoder and encoder has a spec
//! mirror over `Seq<u8>`, and the contract of each executable function states
//! that it agrees with its mirror exactly, errors included.

use vstd::arithmetic::div_mod::{
    lemma_div_denominator, lemma_div_decreases, lemma_fundamental_div_mod,
};
use vstd::prelude::*;
use vstd::slice::{slice_subrange, slice_to_vec};
use vstd::string::StrSliceExecFns;
use vstd::utf8::{decode_utf8, encode_utf8, encode_utf8_decode_utf8, encode_utf8_valid_utf8,
    valid_utf8};

use crate::error::Error;

verus! {

// ---------------------------------------------------------------------------
// Big-endian fixed-width integers
// ---------------------------------------------------------------------------

/// Decodes one byte.
pub open spec fn spec_dec_u8(s: Seq<u8>) -> Result<(u8, Seq<u8>), Error> {
    if s.len() < 1 {
        Err(Error::Incomplete)
    } else {
        Ok((s[0], s.skip(1)))
    }
}

/// Decodes a big-endian `u16`.
pub open spec fn spec_dec_u16(s: Seq<u8>) -> Result<(u16, Seq<u8>), Error> {
    if s.len() < 2 {
        Err(Error::Incomplete)
    } else {
        Ok(((s[0] * 0x100 + s[1]) as u16, s.skip(2)))
    }
}

/// Decodes a big-endian `u32`.
pub open spec fn spec_dec_u32(s: Seq<u8>) -> Result<(u32, Seq<u8>), Error> {
    if s.len() < 4 {
        Err(Error::Incomplete)
    } else {
        Ok(((s[0] * 0x100_0000 + s[1] * 0x1_0000 + s[2] * 0x100 + s[3]) as u32, s.skip(4)))
    }
}

/// Decodes a big-endian `u64`.
pub open spec fn spec_dec_u64(s: Seq<u8>) -> Result<(u64, Seq<u8>), Error> {
    if s.len() < 8 {
        Err(Error::Incomplete)
    } else {
        Ok((
            (s[0] * 0x100_0000_0000_0000 + s[1] * 0x1_0000_0000_0000 + s[2] * 0x100_0000_0000
                + s[3] * 0x1_0000_0000 + s[4] * 0x100_0000 + s[5] * 0x1_0000 + s[6] * 0x100
                + s[7]) as u64,
            s.skip(8),
        ))
    }
}

/// Big-endian bytes of a `u16`.
pub open spec fn spec_enc_u16(v: u16) -> Seq<u8> {
    seq![(v / 0x100) as u8, (v % 0x100) as u8]
}

/// Big-endian bytes of a `u32`.
pub open spec fn spec_enc_u32(v: u32) -> Seq<u8> {
    seq![
        (v / 0x100_0000) as u8,
        ((v / 0x1_0000) % 0x100) as u8,
        ((v / 0x100) % 0x100) as u8,
        (v % 0x100) as u8,
    ]
}

/// Big-endian bytes of a `u64`.
pub open spec fn spec_enc_u64(v: u64) -> Seq<u8> {
    seq![
        (v / 0x100_0000_0000_0000) as u8,
        ((v / 0x1_0000_0000_0000) % 0x100) as u8,
        ((v / 0x100_0000_0000) % 0x100) as u8,
        ((v / 0x1_0000_0000) % 0x100) as u8,
        ((v / 0x100_0000) % 0x100) as u8,
        ((v / 0x1_0000) % 0x100) as u8,
        ((v / 0x100) % 0x100) as u8,
        (v % 0x100) as u8,
    ]
}

/// Takes one byte off the front of the input.
pub fn dec_u8(v: &[u8]) -> (r: Result<(u8, &[u8]), Error>)
    ensures
        match r {
            Ok((x, rest)) => spec_dec_u8(v@) == Ok::<_, Error>((x, rest@)),
            Err(e) => spec_dec_u8(v@) == Err::<(u8, Seq<u8>), _>(e),
        },
{
    if v.len() < 1 {
        Err(Error::Incomplete)
    } else {
        let b = v[0];
        Ok((b, slice_subrange(v, 1, v.len())))
    }
}

/// Reads a big-endian `u16` off the front of the input.
pub fn dec_u16(v: &[u8]) -> (r: Result<(u16, &[u8]), Error>)
    ensures
        match r {
            Ok((x, rest)) => spec_dec_u16(v@) == Ok::<_, Error>((x, rest@)),
            Err(e) => spec_dec_u16(v@) == Err::<(u16, Seq<u8>), _>(e),
        },
{
    if v.len() < 2 {
        Err(Error::Incomplete)
    } else {
        let x: u16 = (v[0] as u16) * 0x100 + (v[1] as u16);
        Ok((x, slice_subrange(v, 2, v.len())))
    }
}

/// Reads a big-endian `u32` off the front of the input.
pub fn dec_u32(v: &[u8]) -> (r: Result<(u32, &[u8]), Error>)
    ensures
        match r {
            Ok((x, rest)) => spec_dec_u32(v@) == Ok::<_, Error>((x, rest@)),
            Err(e) => spec_dec_u32(v@) == Err::<(u32, Seq<u8>), _>(e),
        },
{
    if v.len() < 4 {
        Err(Error::Incomplete)
    } else {
        let x: u32 = (v[0] as u32) * 0x100_0000 + (v[1] as u32) * 0x1_0000 + (v[2] as u32) * 0x100
            + (v[3] as u32);
        Ok((x, slice_subrange(v, 4, v.len())))
    }
}

/// Reads a big-endian `u64` off the front of the input.
pub fn dec_u64(v: &[u8]) -> (r: Result<(u64, &[u8]), Error>)
    ensures
        match r {
            Ok((x, rest)) => spec_dec_u64(v@) == Ok::<_, Error>((x, rest@)),
            Err(e) => spec_dec_u64(v@) == Err::<(u64, Seq<u8>), _>(e),
        },
{
    if v.len() < 8 {
        Err(Error::Incomplete)
    } else {
        let x: u64 = (v[0] as u64) * 0x100_0000_0000_0000 + (v[1] as u64) * 0x1_0000_0000_0000
            + (v[2] as u64) * 0x100_0000_0000 + (v[3] as u64) * 0x1_0000_0000
            + (v[4] as u64) * 0x100_0000 + (v[5] as u64) * 0x1_0000 + (v[6] as u64) * 0x100
            + (v[7] as u64);
        Ok((x, slice_subrange(v, 8, v.len())))
    }
}

/// Appends the big-endian bytes of a `u16` to `out`.
pub fn enc_u16(out: &mut Vec<u8>, v: u16)
    ensures
        final(out)@ == old(out)@ + spec_enc_u16(v),
{
    out.push((v / 0x100) as u8);
    out.push((v % 0x100) as u8);
    assert(final(out)@ =~= old(out)@ + spec_enc_u16(v));
}

/// Appends the big-endian bytes of a `u32` to `out`.
pub fn enc_u32(out: &mut Vec<u8>, v: u32)
    ensures
        final(out)@ == old(out)@ + spec_enc_u32(v),
{
    out.push((v / 0x100_0000) as u8);
    out.push(((v / 0x1_0000) % 0x100) as u8);
    out.push(((v / 0x100) % 0x100) as u8);
    out.push((v % 0x100) as u8);
    assert(final(out)@ =~= old(out)@ + spec_enc_u32(v));
}

/// Appends the big-endian bytes of a `u64` to `out`.
pub fn enc_u64(out: &mut Vec<u8>, v: u64)
    ensures
        final(out)@ == old(out)@ + spec_enc_u64(v),
{
    out.push((v / 0x100_0000_0000_0000) as u8);
    out.push(((v / 0x1_0000_0000_0000) % 0x100) as u8);
    out.push(((v / 0x100_0000_0000) % 0x100) as u8);
    out.push(((v / 0x1_0000_0000) % 0x100) as u8);
    out.push(((v / 0x100_0000) % 0x100) as u8);
    out.push(((v / 0x1_0000) % 0x100) as u8);
    out.push(((v / 0x100) % 0x100) as u8);
    out.push((v % 0x100) as u8);
    assert(final(out)@ =~= old(out)@ + spec_enc_u64(v));
}

/// Decoding the encoding of a `u16` gives the value back and leaves the rest.
pub proof fn lemma_u16_round_trip(v: u16, rest: Seq<u8>)
    ensures
        spec_dec_u16(spec_enc_u16(v) + rest) == Ok::<_, Error>((v, rest)),
{
    let s = spec_enc_u16(v) + rest;
    assert(s.skip(2) =~= rest);
    assert(s[0] * 0x100 + s[1] == v);
}

/// Decoding the encoding of a `u32` gives the value back and leaves the rest.
pub proof fn lemma_u32_round_trip(v: u32, rest: Seq<u8>)
    ensures
        spec_dec_u32(spec_enc_u32(v) + rest) == Ok::<_, Error>((v, rest)),
{
    let s = spec_enc_u32(v) + rest;
    assert(s.skip(4) =~= rest);
    assert(s[0] * 0x100_0000 + s[1] * 0x1_0000 + s[2] * 0x100 + s[3] == v);
}

/// Decoding the encoding of a `u64` gives the value back and leaves the rest.
pub proof fn lemma_u64_round_trip(v: u64, rest: Seq<u8>)
    ensures
        spec_dec_u64(spec_enc_u64(v) + rest) == Ok::<_, Error>((v, rest)),
{
    let s = spec_enc_u64(v) + rest;
    assert(s.skip(8) =~= rest);
    let x = v as int;
    let q1 = x / 0x100;
    let q2 = q1 / 0x100;
    let q3 = q2 / 0x100;
    let q4 = q3 / 0x100;
    let q5 = q4 / 0x100;
    let q6 = q5 / 0x100;
    let q7 = q6 / 0x100;
    lemma_div_denominator(x, 0x100, 0x100);
    lemma_div_denominator(x, 0x1_0000, 0x100);
    lemma_div_denominator(x, 0x100_0000, 0x100);
    lemma_div_denominator(x, 0x1_0000_0000, 0x100);
    lemma_div_denominator(x, 0x100_0000_0000, 0x100);
    lemma_div_denominator(x, 0x1_0000_0000_0000, 0x100);
    assert(q2 == x / 0x1_0000 && q3 == x / 0x100_0000 && q4 == x / 0x1_0000_0000 && q5 == x
        / 0x100_0000_0000 && q6 == x / 0x1_0000_0000_0000 && q7 == x / 0x100_0000_0000_0000);
    lemma_fundamental_div_mod(x, 0x100);
    lemma_fundamental_div_mod(q1, 0x100);
    lemma_fundamental_div_mod(q2, 0x100);
    lemma_fundamental_div_mod(q3, 0x100);
    lemma_fundamental_div_mod(q4, 0x100);
    lemma_fundamental_div_mod(q5, 0x100);
    lemma_fundamental_div_mod(q6, 0x100);
    assert(s[0] * 0x100_0000_0000_0000 + s[1] * 0x1_0000_0000_0000 + s[2] * 0x100_0000_0000
        + s[3] * 0x1_0000_0000 + s[4] * 0x100_0000 + s[5] * 0x1_0000 + s[6] * 0x100 + s[7] == v);
}

// ---------------------------------------------------------------------------
// Unsigned varints: little-endian base-128, MSB set means more bytes follow.
// At most 10 bytes may carry a value, and the value must fit in 64 bits.
// ---------------------------------------------------------------------------

/// Decodes an unsigned varint, with `k` bytes of allowance left.
pub open spec fn spec_dec_varint_k(s: Seq<u8>, k: nat) -> Result<(u64, Seq<u8>), Error>
    decreases k,
{
    if s.len() == 0 {
        Err(Error::Incomplete)
    } else if s[0] < 0x80 {
        Ok((s[0] as u64, s.skip(1)))
    } else if k <= 1 {
        Err(Error::Overflow)
    } else {
        match spec_dec_varint_k(s.skip(1), (k - 1) as nat) {
            Ok((hi, rest)) => if hi * 0x80 + (s[0] - 0x80) <= u64::MAX {
                Ok(((hi * 0x80 + (s[0] - 0x80)) as u64, rest))
            } else {
                Err(Error::Overflow)
            },
            Err(e) => Err(e),
        }
    }
}

/// Decodes an unsigned varint: `Incomplete` at end of input, `Overflow` past
/// 64 bits or past the tenth byte.
pub open spec fn spec_dec_varint(s: Seq<u8>) -> Result<(u64, Seq<u8>), Error> {
    spec_dec_varint_k(s, 10)
}

/// The varint bytes of `n`: 7 bits per byte, least significant group first.
pub open spec fn spec_enc_varint(n: nat) -> Seq<u8>
    decreases n,
{
    if n < 0x80 {
        seq![n as u8]
    } else {
        seq![(0x80 + n % 0x80) as u8] + spec_enc_varint(n / 0x80)
    }
}

/// An unsigned varint read off the wire: its value and how many bytes held it.
#[derive(Debug, Clone, Copy, PartialEq, Eq, Structural)]
pub struct VarInt {
    pub value: u64,
    pub n_bytes: usize,
}

fn dec_varint_k(v: &[u8], k: usize) -> (r: Result<(u64, &[u8]), Error>)
    requires
        1 <= k,
    ensures
        match r {
            Ok((x, rest)) => spec_dec_varint_k(v@, k as nat) == Ok::<_, Error>((x, rest@))
                && rest@.len() < v@.len(),
            Err(e) => spec_dec_varint_k(v@, k as nat) == Err::<(u64, Seq<u8>), _>(e),
        },
    decreases v@.len(),
{
    if v.len() == 0 {
        Err(Error::Incomplete)
    } else {
        let b = v[0];
        if b < 0x80 {
            Ok((b as u64, slice_subrange(v, 1, v.len())))
        } else if k <= 1 {
            Err(Error::Overflow)
        } else {
            match dec_varint_k(slice_subrange(v, 1, v.len()), k - 1) {
                Ok((hi, rest)) => {
                    let low = (b - 0x80) as u64;
                    if hi <= (u64::MAX - low) / 0x80 {
                        Ok((hi * 0x80 + low, rest))
                    } else {
                        Err(Error::Overflow)
                    }
                },
                Err(e) => Err(e),
            }
        }
    }
}

impl VarInt {
    /// Packs a value with the byte count that carried it.
    fn new(value: u64, n_bytes: usize) -> (r: VarInt)
        ensures
            r.value == value && r.n_bytes == n_bytes,
    {
        VarInt { value, n_bytes }
    }

    /// Reads an unsigned varint off the front of the input.
    pub fn decode(bytes: &[u8]) -> (r: Result<(VarInt, &[u8]), Error>)
        ensures
            match r {
                Ok((x, rest)) => spec_dec_varint(bytes@) == Ok::<_, Error>((x.value, rest@))
                    && x.n_bytes + rest@.len() == bytes@.len() && 1 <= x.n_bytes,
                Err(e) => spec_dec_varint(bytes@) == Err::<(u64, Seq<u8>), _>(e),
            },
    {
        match dec_varint_k(bytes, 10) {
            Ok((x, rest)) => Ok((VarInt::new(x, bytes.len() - rest.len()), rest)),
            Err(e) => Err(e),
        }
    }

    /// Emits the varint bytes of `v`.
    pub fn encode(v: u64) -> (r: Vec<u8>)
        ensures
            r@ == spec_enc_varint(v as nat),
    {
        let mut buf: Vec<u8> = Vec::new();
        let mut value = v;
        while value >= 0x80
            invariant
                spec_enc_varint(v as nat) == buf@ + spec_enc_varint(value as nat),
            decreases value,
        {
            proof {
                lemma_div_decreases(value as int, 0x80);
            }
            let ghost pre = buf@;
            let ghost val0 = value as nat;
            buf.push((value % 0x80 + 0x80) as u8);
            value = value / 0x80;
            proof {
                assert(pre + spec_enc_varint(val0) =~= buf@ + spec_enc_varint(value as nat));
            }
        }
        buf.push(value as u8);
        proof {
            assert(spec_enc_varint(v as nat) =~= buf@);
        }
        buf
    }

    /// The decoded value.
    pub fn value(&self) -> (r: u64)
        ensures
            r == self.value,
    {
        self.value
    }
}

/// Decoding the encoding of any 64-bit value, with anything after it, gives
/// the value back and leaves the rest untouched, as long as the allowance
/// covers the encoding's length.
proof fn lemma_varint_round_trip_k(n: nat, rest: Seq<u8>, k: nat)
    requires
        n <= u64::MAX,
        spec_enc_varint(n).len() <= k,
    ensures
        spec_dec_varint_k(spec_enc_varint(n) + rest, k) == Ok::<_, Error>((n as u64, rest)),
    decreases n,
{
    let e = spec_enc_varint(n);
    if n < 0x80 {
        assert((e + rest).skip(1) =~= rest);
    } else {
        lemma_div_decreases(n as int, 0x80);
        lemma_fundamental_div_mod(n as int, 0x80);
        assert((e + rest).skip(1) =~= spec_enc_varint(n / 0x80) + rest);
        lemma_varint_round_trip_k(n / 0x80, rest, (k - 1) as nat);
    }
}

/// The varint bytes of a 64-bit value: at least one, at most ten.
pub proof fn lemma_enc_varint_len(n: nat)
    requires
        n <= u64::MAX,
    ensures
        1 <= spec_enc_varint(n).len() <= 10,
{
    let n1 = n / 0x80;
    let n2 = n1 / 0x80;
    let n3 = n2 / 0x80;
    let n4 = n3 / 0x80;
    let n5 = n4 / 0x80;
    let n6 = n5 / 0x80;
    let n7 = n6 / 0x80;
    let n8 = n7 / 0x80;
    let n9 = n8 / 0x80;
    assert(n9 < 0x80) by {
        lemma_div_denominator(n as int, 0x80, 0x80);
        lemma_div_denominator(n as int, 0x4000, 0x80);
        lemma_div_denominator(n as int, 0x20_0000, 0x80);
        lemma_div_denominator(n as int, 0x1000_0000, 0x80);
        lemma_div_denominator(n as int, 0x8_0000_0000, 0x80);
        lemma_div_denominator(n as int, 0x400_0000_0000, 0x80);
        lemma_div_denominator(n as int, 0x2_0000_0000_0000, 0x80);
        lemma_div_denominator(n as int, 0x100_0000_0000_0000, 0x80);
        assert(n9 == n / 0x8000_0000_0000_0000);
    }
    assert(spec_enc_varint(n9).len() == 1);
    assert(spec_enc_varint(n8).len() <= 2);
    assert(spec_enc_varint(n7).len() <= 3);
    assert(spec_enc_varint(n6).len() <= 4);
    assert(spec_enc_varint(n5).len() <= 5);
    assert(spec_enc_varint(n4).len() <= 6);
    assert(spec_enc_varint(n3).len() <= 7);
    assert(spec_enc_varint(n2).len() <= 8);
    assert(spec_enc_varint(n1).len() <= 9);
    assert(spec_enc_varint(n).len() <= 10);
}

/// Decoding the varint encoding of any 64-bit value, followed by anything,
/// gives the value back and leaves the rest untouched.
pub proof fn lemma_varint_round_trip(n: u64, rest: Seq<u8>)
    ensures
        spec_dec_varint(spec_enc_varint(n as nat) + rest) == Ok::<_, Error>((n, rest)),
{
    lemma_enc_varint_len(n as nat);
    lemma_varint_round_trip_k(n as nat, rest, 10);
}

/// Decoding the varint encoding of any 64-bit value on its own gives the
/// value back and leaves nothing.
pub proof fn lemma_varint_round_trip_whole(n: u64)
    ensures
        spec_dec_varint(spec_enc_varint(n as nat)) == Ok::<_, Error>((n, Seq::<u8>::empty())),
{
    assert(spec_enc_varint(n as nat) + Seq::<u8>::empty() =~= spec_enc_varint(n as nat));
    lemma_varint_round_trip(n, Seq::<u8>::empty());
}

/// A varint that decodes takes at least one byte with it.
pub proof fn lemma_dec_varint_k_shrinks(s: Seq<u8>, k: nat)
    ensures
        spec_dec_varint_k(s, k) matches Ok(p) ==> p.1.len() < s.len(),
    decreases k,
{
    if s.len() != 0 && s[0] >= 0x80 && k > 1 {
        lemma_dec_varint_k_shrinks(s.skip(1), (k - 1) as nat);
    }
}

/// A varint that decodes takes at least one byte with it.
pub proof fn lemma_dec_varint_shrinks(s: Seq<u8>)
    ensures
        spec_dec_varint(s) matches Ok(p) ==> p.1.len() < s.len(),
{
    lemma_dec_varint_k_shrinks(s, 10);
}

// ---------------------------------------------------------------------------
// Signed varints: zig-zag mapping over the unsigned varint.
// ---------------------------------------------------------------------------

/// The zig-zag image of a signed value: non-negatives to evens, negatives to
/// odds, so that small magnitudes stay small.
pub open spec fn spec_zigzag(n: i64) -> u64 {
    if n >= 0 {
        (2 * n) as u64
    } else {
        (-2 * n - 1) as u64
    }
}

/// The signed value a zig-zag image came from.
pub open spec fn spec_unzigzag(u: u64) -> i64 {
    if u % 2 == 0 {
        (u / 2) as i64
    } else {
        (-1 - (u / 2)) as i64
    }
}

/// Decodes a signed varint.
pub open spec fn spec_dec_svarint(s: Seq<u8>) -> Result<(i64, Seq<u8>), Error> {
    match spec_dec_varint(s) {
        Ok((u, rest)) => Ok((spec_unzigzag(u), rest)),
        Err(e) => Err(e),
    }
}

/// The signed-varint bytes of `n`.
pub open spec fn spec_enc_svarint(n: i64) -> Seq<u8> {
    spec_enc_varint(spec_zigzag(n) as nat)
}

/// A signed varint read off the wire: its value and how many bytes held it.
#[derive(Debug, Clone, Copy, PartialEq, Eq, Structural)]
pub struct SignedVarInt {
    pub value: i64,
    pub n_bytes: usize,
}

impl SignedVarInt {
    /// Packs a value with the byte count that carried it.
    pub fn new(value: i64, n_bytes: usize) -> (r: SignedVarInt)
        ensures
            r == (SignedVarInt { value, n_bytes }),
    {
        SignedVarInt { value, n_bytes }
    }

    /// Reads a signed varint off the front of the input.
    pub fn decode(v: &[u8]) -> (r: Result<(SignedVarInt, &[u8]), Error>)
        ensures
            match r {
                Ok((x, rest)) => spec_dec_svarint(v@) == Ok::<_, Error>((x.value, rest@))
                    && x.n_bytes + rest@.len() == v@.len() && 1 <= x.n_bytes,
                Err(e) => spec_dec_svarint(v@) == Err::<(i64, Seq<u8>), _>(e),
            },
    {
        match VarInt::decode(v) {
            Ok((u, rest)) => Ok((
                SignedVarInt::new(Self::zig_zag_decode(u.value), u.n_bytes),
                rest,
            )),
            Err(e) => Err(e),
        }
    }

    /// The decoded value.
    pub fn value(&self) -> (r: i64)
        ensures
            r == self.value,
    {
        self.value
    }

    fn zig_zag_decode(u: u64) -> (r: i64)
        ensures
            r == spec_unzigzag(u),
    {
        if u % 2 == 0 {
            (u / 2) as i64
        } else {
            -1 - ((u / 2) as i64)
        }
    }

    fn zig_zag_encode(n: i64) -> (r: u64)
        ensures
            r == spec_zigzag(n),
    {
        if n >= 0 {
            (n as u64) * 2
        } else {
            (-(n + 1) as u64) * 2 + 1
        }
    }

    /// Emits the signed-varint bytes of `n`.
    pub fn encode(n: i64) -> (r: Vec<u8>)
        ensures
            r@ == spec_enc_svarint(n),
    {
        VarInt::encode(Self::zig_zag_encode(n))
    }
}

/// A signed varint that decodes takes at least one byte with it.
pub proof fn lemma_dec_svarint_shrinks(s: Seq<u8>)
    ensures
        spec_dec_svarint(s) matches Ok(p) ==> p.1.len() < s.len(),
{
    lemma_dec_varint_shrinks(s);
}

/// The zig-zag mapping loses nothing: decoding the image gives the value back.
pub proof fn lemma_zigzag_round_trip(n: i64)
    ensures
        spec_unzigzag(spec_zigzag(n)) == n,
{
}

/// Decoding the signed-varint encoding of any value, followed by anything,
/// gives the value back and leaves the rest untouched.
pub proof fn lemma_svarint_round_trip(n: i64, rest: Seq<u8>)
    ensures
        spec_dec_svarint(spec_enc_svarint(n) + rest) == Ok::<_, Error>((n, rest)),
{
    lemma_varint_round_trip(spec_zigzag(n), rest);
    lemma_zigzag_round_trip(n);
}

/// Decoding the signed-varint encoding of any value on its own gives the
/// value back and leaves nothing.
pub proof fn lemma_svarint_round_trip_whole(n: i64)
    ensures
        spec_dec_svarint(spec_enc_svarint(n)) == Ok::<_, Error>((n, Seq::<u8>::empty())),
{
    assert(spec_enc_svarint(n) + Seq::<u8>::empty() =~= spec_enc_svarint(n));
    lemma_svarint_round_trip(n, Seq::<u8>::empty());
}

// ---------------------------------------------------------------------------
// Length prefixes
// ---------------------------------------------------------------------------

/// One more than a count, saturating at the top of `u64`. Compact length
/// prefixes hold one more than the count they announce; no real buffer comes
/// within reach of the saturation point.
pub open spec fn spec_len1(n: nat) -> nat {
    if n + 1 <= u64::MAX {
        n + 1
    } else {
        u64::MAX as nat
    }
}

/// One more than a count, saturating at the top of `u64`.
pub fn len_plus_one(n: usize) -> (r: u64)
    ensures
        r == spec_len1(n as nat),
{
    let n64 = n as u64;
    if n64 < u64::MAX {
        n64 + 1
    } else {
        u64::MAX
    }
}

// ---------------------------------------------------------------------------
// Splitting, and nullable integers (all-ones means absent)
// ---------------------------------------------------------------------------

/// Splits the input after its first `n` bytes.
pub fn take(v: &[u8], n: usize) -> (r: (&[u8], &[u8]))
    requires
        n <= v@.len(),
    ensures
        r.0@ == v@.take(n as int),
        r.1@ == v@.skip(n as int),
{
    let pre = slice_subrange(v, 0, n);
    let rest = slice_subrange(v, n, v.len());
    assert(pre@ =~= v@.take(n as int));
    assert(rest@ =~= v@.skip(n as int));
    (pre, rest)
}

/// Nothing before a byte string leaves it as it is.
pub proof fn lemma_empty_prefix(s: Seq<u8>)
    ensures
        Seq::<u8>::empty() + s == s,
{
    assert(Seq::<u8>::empty() + s =~= s);
}

/// Pushing one byte is appending a one-byte string.
pub proof fn lemma_push_is_concat(s: Seq<u8>, x: u8)
    ensures
        s.push(x) == s + seq![x],
{
    assert(s.push(x) =~= s + seq![x]);
}

/// Appends a byte slice to `out`.
pub fn append_bytes(out: &mut Vec<u8>, b: &[u8])
    ensures
        final(out)@ == old(out)@ + b@,
{
    let mut i: usize = 0;
    while i < b.len()
        invariant
            i <= b@.len(),
            out@ == old(out)@ + b@.take(i as int),
        decreases b@.len() - i,
    {
        out.push(b[i]);
        i = i + 1;
        proof {
            assert(out@ =~= old(out)@ + b@.take(i as int));
        }
    }
    proof {
        assert(out@ =~= old(out)@ + b@);
    }
}

/// Decodes a big-endian `u16` whose all-ones value means absent.
pub open spec fn spec_dec_u16_opt(s: Seq<u8>) -> Result<(Option<u16>, Seq<u8>), Error> {
    match spec_dec_u16(s) {
        Ok((x, rest)) => Ok((if x == 0xffff { None } else { Some(x) }, rest)),
        Err(e) => Err(e),
    }
}

/// Decodes a big-endian `u32` whose all-ones value means absent.
pub open spec fn spec_dec_u32_opt(s: Seq<u8>) -> Result<(Option<u32>, Seq<u8>), Error> {
    match spec_dec_u32(s) {
        Ok((x, rest)) => Ok((if x == 0xffff_ffff { None } else { Some(x) }, rest)),
        Err(e) => Err(e),
    }
}

/// Decodes a big-endian `u64` whose all-ones value means absent.
pub open spec fn spec_dec_u64_opt(s: Seq<u8>) -> Result<(Option<u64>, Seq<u8>), Error> {
    match spec_dec_u64(s) {
        Ok((x, rest)) => Ok((if x == 0xffff_ffff_ffff_ffff { None } else { Some(x) }, rest)),
        Err(e) => Err(e),
    }
}

/// Reads a nullable big-endian `u16` off the front of the input.
pub fn dec_u16_opt(v: &[u8]) -> (r: Result<(Option<u16>, &[u8]), Error>)
    ensures
        match r {
            Ok((x, rest)) => spec_dec_u16_opt(v@) == Ok::<_, Error>((x, rest@)),
            Err(e) => spec_dec_u16_opt(v@) == Err::<(Option<u16>, Seq<u8>), _>(e),
        },
{
    match dec_u16(v) {
        Ok((x, rest)) => Ok((if x == 0xffff { None } else { Some(x) }, rest)),
        Err(e) => Err(e),
    }
}

/// Reads a nullable big-endian `u32` off the front of the input.
pub fn dec_u32_opt(v: &[u8]) -> (r: Result<(Option<u32>, &[u8]), Error>)
    ensures
        match r {
            Ok((x, rest)) => spec_dec_u32_opt(v@) == Ok::<_, Error>((x, rest@)),
            Err(e) => spec_dec_u32_opt(v@) == Err::<(Option<u32>, Seq<u8>), _>(e),
        },
{
    match dec_u32(v) {
        Ok((x, rest)) => Ok((if x == 0xffff_ffff { None } else { Some(x) }, rest)),
        Err(e) => Err(e),
    }
}

/// Reads a nullable big-endian `u64` off the front of the input.
pub fn dec_u64_opt(v: &[u8]) -> (r: Result<(Option<u64>, &[u8]), Error>)
    ensures
        match r {
            Ok((x, rest)) => spec_dec_u64_opt(v@) == Ok::<_, Error>((x, rest@)),
            Err(e) => spec_dec_u64_opt(v@) == Err::<(Option<u64>, Seq<u8>), _>(e),
        },
{
    match dec_u64(v) {
        Ok((x, rest)) => Ok((if x == 0xffff_ffff_ffff_ffff { None } else { Some(x) }, rest)),
        Err(e) => Err(e),
    }
}

// ---------------------------------------------------------------------------
// Compact strings: a varint length prefix, zero meaning absent, then length
// minus one bytes of UTF-8.
// ---------------------------------------------------------------------------

/// Decodes a compact string to its characters.
pub open spec fn spec_dec_compact_string(s: Seq<u8>) -> Result<(Seq<char>, Seq<u8>), Error> {
    match spec_dec_varint(s) {
        Err(e) => Err(e),
        Ok((l, rest)) => if l == 0 {
            Ok((Seq::<char>::empty(), rest))
        } else if rest.len() < l - 1 {
            Err(Error::BadLength)
        } else {
            let bytes = rest.take(l - 1);
            if valid_utf8(bytes) {
                Ok((decode_utf8(bytes), rest.skip(l - 1)))
            } else {
                Err(Error::InvalidUtf8)
            }
        },
    }
}

/// The compact-string bytes of `s`: a varint holding one more than the UTF-8
/// byte count, then the UTF-8 bytes.
pub open spec fn spec_enc_compact_string(s: Seq<char>) -> Seq<u8> {
    spec_enc_varint(spec_len1(encode_utf8(s).len())) + encode_utf8(s)
}

/// Relies on `String::from_utf8`: per its documentation it accepts exactly
/// the well-formed UTF-8 byte strings, which vstd's `valid_utf8` describes,
/// and decodes them to the characters that vstd's `decode_utf8` gives.
#[verifier::external_body]
fn string_from_utf8(v: Vec<u8>) -> (r: Option<String>)
    ensures
        r is Some <==> valid_utf8(v@),
        r matches Some(s) ==> s@ == decode_utf8(v@),
{
    String::from_utf8(v).ok()
}

/// Reads a compact string off the front of the input.
pub fn dec_compact_string(v: &[u8]) -> (r: Result<(String, &[u8]), Error>)
    ensures
        match r {
            Ok((s, rest)) => spec_dec_compact_string(v@) == Ok::<_, Error>((s@, rest@)),
            Err(e) => spec_dec_compact_string(v@) == Err::<(Seq<char>, Seq<u8>), _>(e),
        },
{
    match VarInt::decode(v) {
        Err(e) => Err(e),
        Ok((l, rest)) => {
            if l.value == 0 {
                Ok((String::new(), rest))
            } else {
                let n64 = l.value - 1;
                if (rest.len() as u64) < n64 {
                    Err(Error::BadLength)
                } else {
                    let n = n64 as usize;
                    let (pre, rest2) = take(rest, n);
                    match string_from_utf8(slice_to_vec(pre)) {
                        Some(s) => Ok((s, rest2)),
                        None => Err(Error::InvalidUtf8),
                    }
                }
            }
        },
    }
}

/// Emits the compact-string bytes of `s`.
pub fn enc_compact_string(out: &mut Vec<u8>, s: &str)
    ensures
        final(out)@ == old(out)@ + spec_enc_compact_string(s@),
{
    let bytes = s.as_bytes_vec();
    let mut prefix = VarInt::encode(len_plus_one(bytes.len()));
    let ghost pre = out@;
    out.append(&mut prefix);
    let mut body = bytes;
    out.append(&mut body);
    assert(out@ =~= pre + spec_enc_compact_string(s@));
}

/// Decoding the compact-string encoding of any string, followed by anything,
/// gives the characters back and leaves the rest untouched.
pub proof fn lemma_compact_string_round_trip(s: Seq<char>, rest: Seq<u8>)
    requires
        encode_utf8(s).len() + 1 <= u64::MAX,
    ensures
        spec_dec_compact_string(spec_enc_compact_string(s) + rest) == Ok::<_, Error>((s, rest)),
{
    let b = encode_utf8(s);
    let l = (b.len() + 1) as u64;
    assert(spec_enc_compact_string(s) + rest =~= spec_enc_varint(l as nat) + (b + rest));
    lemma_varint_round_trip(l, b + rest);
    assert((b + rest).take(l - 1) =~= b);
    assert((b + rest).skip(l - 1) =~= rest);
    encode_utf8_valid_utf8(s);
    encode_utf8_decode_utf8(s);
}

/// Decoding the compact-string encoding of any string on its own gives the
/// characters back and leaves nothing.
pub proof fn lemma_compact_string_round_trip_whole(s: Seq<char>)
    requires
        encode_utf8(s).len() + 1 <= u64::MAX,
    ensures
        spec_dec_compact_string(spec_enc_compact_string(s)) == Ok::<_, Error>(
            (s, Seq::<u8>::empty()),
        ),
{
    assert(spec_enc_compact_string(s) + Seq::<u8>::empty() =~= spec_enc_compact_string(s));
    lemma_compact_string_round_trip(s, Seq::<u8>::empty());
}

/// A value that can emit itself as a compact string.
pub trait ToCompactString {
    /// The characters whose compact-string form `to_compact_string` emits.
    spec fn compact_view(&self) -> Seq<char>;

    /// The compact-string bytes of this value.
    fn to_compact_string(&self) -> (r: Vec<u8>)
        ensures
            r@ == spec_enc_compact_string(self.compact_view()),
    ;
}

impl ToCompactString for String {
    open spec fn compact_view(&self) -> Seq<char> {
        self@
    }

    fn to_compact_string(&self) -> (r: Vec<u8>)
        ensures
            r@ == spec_enc_compact_string(self@),
    {
        let mut out: Vec<u8> = Vec::new();
        enc_compact_string(&mut out, self.as_str());
        out
    }
}

/// Decodes a plain (non-compact) string of exactly `n` UTF-8 bytes.
pub open spec fn spec_dec_str(s: Seq<u8>, n: nat) -> Result<(Seq<char>, Seq<u8>), Error> {
    if s.len() < n {
        Err(Error::Incomplete)
    } else {
        let bytes = s.take(n as int);
        if valid_utf8(bytes) {
            Ok((decode_utf8(bytes), s.skip(n as int)))
        } else {
            Err(Error::InvalidUtf8)
        }
    }
}

/// Reads a plain string of exactly `n` UTF-8 bytes off the front of the
/// input.
pub fn dec_str(v: &[u8], n: usize) -> (r: Result<(String, &[u8]), Error>)
    ensures
        match r {
            Ok((s, rest)) => spec_dec_str(v@, n as nat) == Ok::<_, Error>((s@, rest@)),
            Err(e) => spec_dec_str(v@, n as nat) == Err::<(Seq<char>, Seq<u8>), _>(e),
        },
{
    if v.len() < n {
        Err(Error::Incomplete)
    } else {
        let (pre, rest) = take(v, n);
        match string_from_utf8(slice_to_vec(pre)) {
            Some(s) => Ok((s, rest)),
            None => Err(Error::InvalidUtf8),
        }
    }
}

// ---------------------------------------------------------------------------
// Sixteen-byte ids
// ---------------------------------------------------------------------------

/// Decodes sixteen raw bytes.
pub open spec fn spec_dec_uuid(s: Seq<u8>) -> Result<(Seq<u8>, Seq<u8>), Error> {
    if s.len() < 16 {
        Err(Error::Incomplete)
    } else {
        Ok((s.take(16), s.skip(16)))
    }
}

/// Reads sixteen raw bytes off the front of the input.
pub fn dec_uuid(v: &[u8]) -> (r: Result<(Vec<u8>, &[u8]), Error>)
    ensures
        match r {
            Ok((b, rest)) => spec_dec_uuid(v@) == Ok::<_, Error>((b@, rest@)),
            Err(e) => spec_dec_uuid(v@) == Err::<(Seq<u8>, Seq<u8>), _>(e),
        },
{
    if v.len() < 16 {
        Err(Error::Incomplete)
    } else {
        let (pre, rest) = take(v, 16);
        Ok((slice_to_vec(pre), rest))
    }
}

// ---------------------------------------------------------------------------
// Compact arrays of packed big-endian `u32` values
// ---------------------------------------------------------------------------

/// Decodes `n` consecutive big-endian `u32` values.
pub open spec fn spec_dec_u32s(s: Seq<u8>, n: nat) -> Result<(Seq<u32>, Seq<u8>), Error>
    decreases n,
{
    if n == 0 {
        Ok((Seq::<u32>::empty(), s))
    } else {
        match spec_dec_u32(s) {
            Err(e) => Err(e),
            Ok((x, rest)) => match spec_dec_u32s(rest, (n - 1) as nat) {
                Err(e) => Err(e),
                Ok((xs, rest2)) => Ok((seq![x] + xs, rest2)),
            },
        }
    }
}

/// Decodes a compact array of packed big-endian `u32` values: a varint length
/// prefix, zero meaning absent, then length minus one values.
pub open spec fn spec_dec_u32_array(s: Seq<u8>) -> Result<(Seq<u32>, Seq<u8>), Error> {
    match spec_dec_varint(s) {
        Err(e) => Err(e),
        Ok((l, rest)) => if l == 0 {
            Ok((Seq::<u32>::empty(), rest))
        } else {
            spec_dec_u32s(rest, (l - 1) as nat)
        },
    }
}

fn dec_u32s(v: &[u8], n: u64) -> (r: Result<(Vec<u32>, &[u8]), Error>)
    ensures
        match r {
            Ok((xs, rest)) => spec_dec_u32s(v@, n as nat) == Ok::<_, Error>((xs@, rest@)),
            Err(e) => spec_dec_u32s(v@, n as nat) == Err::<(Seq<u32>, Seq<u8>), _>(e),
        },
    decreases n,
{
    if n == 0 {
        let empty: Vec<u32> = Vec::new();
        assert(empty@ =~= Seq::<u32>::empty());
        Ok((empty, v))
    } else {
        match dec_u32(v) {
            Err(e) => Err(e),
            Ok((x, rest)) => match dec_u32s(rest, n - 1) {
                Err(e) => Err(e),
                Ok((xs, rest2)) => {
                    let mut out: Vec<u32> = Vec::new();
                    out.push(x);
                    let mut tail = xs;
                    out.append(&mut tail);
                    assert(out@ =~= seq![x] + xs@);
                    Ok((out, rest2))
                },
            },
        }
    }
}

/// Reads a compact array of packed big-endian `u32` values off the front of
/// the input.
pub fn dec_u32_array(v: &[u8]) -> (r: Result<(Vec<u32>, &[u8]), Error>)
    ensures
        match r {
            Ok((xs, rest)) => spec_dec_u32_array(v@) == Ok::<_, Error>((xs@, rest@)),
            Err(e) => spec_dec_u32_array(v@) == Err::<(Seq<u32>, Seq<u8>), _>(e),
        },
{
    match VarInt::decode(v) {
        Err(e) => Err(e),
        Ok((l, rest)) => {
            if l.value == 0 {
                let empty: Vec<u32> = Vec::new();
                assert(empty@ =~= Seq::<u32>::empty());
                Ok((empty, rest))
            } else {
                dec_u32s(rest, l.value - 1)
            }
        },
    }
}

/// The concatenated big-endian bytes of the values.
pub open spec fn spec_enc_u32s(xs: Seq<u32>) -> Seq<u8>
    decreases xs.len(),
{
    if xs.len() == 0 {
        Seq::<u8>::empty()
    } else {
        spec_enc_u32(xs[0]) + spec_enc_u32s(xs.skip(1))
    }
}

/// The compact-array bytes of the values: a varint holding one more than the
/// count, then each value big-endian.
pub open spec fn spec_enc_u32_array(xs: Seq<u32>) -> Seq<u8> {
    spec_enc_varint(spec_len1(xs.len())) + spec_enc_u32s(xs)
}

/// Decoding `n` packed values after their own encoding gives them back.
pub proof fn lemma_u32s_round_trip(xs: Seq<u32>, rest: Seq<u8>)
    ensures
        spec_dec_u32s(spec_enc_u32s(xs) + rest, xs.len()) == Ok::<_, Error>((xs, rest)),
    decreases xs.len(),
{
    if xs.len() == 0 {
        assert(xs =~= Seq::<u32>::empty());
        assert(spec_enc_u32s(xs) + rest =~= rest);
    } else {
        assert(spec_enc_u32s(xs) + rest =~= spec_enc_u32(xs[0]) + (spec_enc_u32s(xs.skip(1))
            + rest));
        lemma_u32_round_trip(xs[0], spec_enc_u32s(xs.skip(1)) + rest);
        lemma_u32s_round_trip(xs.skip(1), rest);
        assert(seq![xs[0]] + xs.skip(1) =~= xs);
    }
}

/// Decoding the compact-array encoding of any packed `u32` list, followed by
/// anything, gives the list back and leaves the rest untouched.
pub proof fn lemma_u32_array_round_trip(xs: Seq<u32>, rest: Seq<u8>)
    requires
        xs.len() + 1 <= u64::MAX,
    ensures
        spec_dec_u32_array(spec_enc_u32_array(xs) + rest) == Ok::<_, Error>((xs, rest)),
{
    let l = (xs.len() + 1) as u64;
    assert(spec_enc_u32_array(xs) + rest =~= spec_enc_varint(l as nat) + (spec_enc_u32s(xs)
        + rest));
    lemma_varint_round_trip(l, spec_enc_u32s(xs) + rest);
    lemma_u32s_round_trip(xs, rest);
}

// ---------------------------------------------------------------------------
// Compact arrays of sixteen-byte ids
// ---------------------------------------------------------------------------

/// Decodes `n` consecutive sixteen-byte ids.
pub open spec fn spec_dec_uuids(s: Seq<u8>, n: nat) -> Result<(Seq<Seq<u8>>, Seq<u8>), Error>
    decreases n,
{
    if n == 0 {
        Ok((Seq::<Seq<u8>>::empty(), s))
    } else {
        match spec_dec_uuid(s) {
            Err(e) => Err(e),
            Ok((x, rest)) => match spec_dec_uuids(rest, (n - 1) as nat) {
                Err(e) => Err(e),
                Ok((xs, rest2)) => Ok((seq![x] + xs, rest2)),
            },
        }
    }
}

/// Decodes a compact array of sixteen-byte ids.
pub open spec fn spec_dec_uuid_array(s: Seq<u8>) -> Result<(Seq<Seq<u8>>, Seq<u8>), Error> {
    match spec_dec_varint(s) {
        Err(e) => Err(e),
        Ok((l, rest)) => if l == 0 {
            Ok((Seq::<Seq<u8>>::empty(), rest))
        } else {
            spec_dec_uuids(rest, (l - 1) as nat)
        },
    }
}

fn dec_uuids(v: &[u8], n: u64) -> (r: Result<(Vec<Vec<u8>>, &[u8]), Error>)
    ensures
        match r {
            Ok((xs, rest)) => spec_dec_uuids(v@, n as nat) == Ok::<_, Error>(
                (xs@.map_values(|x: Vec<u8>| x@), rest@),
            ),
            Err(e) => spec_dec_uuids(v@, n as nat) == Err::<(Seq<Seq<u8>>, Seq<u8>), _>(e),
        },
    decreases n,
{
    if n == 0 {
        let empty: Vec<Vec<u8>> = Vec::new();
        assert(empty@.map_values(|x: Vec<u8>| x@) =~= Seq::<Seq<u8>>::empty());
        Ok((empty, v))
    } else {
        match dec_uuid(v) {
            Err(e) => Err(e),
            Ok((x, rest)) => match dec_uuids(rest, n - 1) {
                Err(e) => Err(e),
                Ok((xs, rest2)) => {
                    let ghost xv = x@;
                    let ghost xsv = xs@.map_values(|y: Vec<u8>| y@);
                    let mut out: Vec<Vec<u8>> = Vec::new();
                    out.push(x);
                    let mut tail = xs;
                    out.append(&mut tail);
                    assert(out@.map_values(|y: Vec<u8>| y@) =~= seq![xv] + xsv);
                    Ok((out, rest2))
                },
            },
        }
    }
}

/// Reads a compact array of sixteen-byte ids off the front of the input.
pub fn dec_uuid_array(v: &[u8]) -> (r: Result<(Vec<Vec<u8>>, &[u8]), Error>)
    ensures
        match r {
            Ok((xs, rest)) => spec_dec_uuid_array(v@) == Ok::<_, Error>(
                (xs@.map_values(|x: Vec<u8>| x@), rest@),
            ),
            Err(e) => spec_dec_uuid_array(v@) == Err::<(Seq<Seq<u8>>, Seq<u8>), _>(e),
        },
{
    match VarInt::decode(v) {
        Err(e) => Err(e),
        Ok((l, rest)) => {
            if l.value == 0 {
                let empty: Vec<Vec<u8>> = Vec::new();
                assert(empty@.map_values(|x: Vec<u8>| x@) =~= Seq::<Seq<u8>>::empty());
                Ok((empty, rest))
            } else {
                dec_uuids(rest, l.value - 1)
            }
        },
    }
}

/// The concatenated bytes of the ids.
pub open spec fn spec_enc_uuids(xs: Seq<Seq<u8>>) -> Seq<u8>
    decreases xs.len(),
{
    if xs.len() == 0 {
        Seq::<u8>::empty()
    } else {
        xs[0] + spec_enc_uuids(xs.skip(1))
    }
}

/// The compact-array bytes of the ids: a varint holding one more than the
/// count, then each id's sixteen bytes.
pub open spec fn spec_enc_uuid_array(xs: Seq<Seq<u8>>) -> Seq<u8> {
    spec_enc_varint(spec_len1(xs.len())) + spec_enc_uuids(xs)
}

/// Appending one id to the list appends its bytes to the encoding.
pub proof fn lemma_enc_uuids_snoc(xs: Seq<Seq<u8>>, x: Seq<u8>)
    ensures
        spec_enc_uuids(xs.push(x)) == spec_enc_uuids(xs) + x,
    decreases xs.len(),
{
    let p = xs.push(x);
    assert(p.len() == xs.len() + 1);
    if xs.len() == 0 {
        assert(p[0] == x);
        assert(p.skip(1) =~= Seq::<Seq<u8>>::empty());
        assert(spec_enc_uuids(p) == x + spec_enc_uuids(Seq::<Seq<u8>>::empty()));
        assert(spec_enc_uuids(p) =~= spec_enc_uuids(xs) + x);
    } else {
        assert(p[0] == xs[0]);
        assert(p.skip(1) =~= xs.skip(1).push(x));
        lemma_enc_uuids_snoc(xs.skip(1), x);
        assert(spec_enc_uuids(p) == p[0] + spec_enc_uuids(xs.skip(1).push(x)));
        assert(spec_enc_uuids(p) =~= spec_enc_uuids(xs) + x);
    }
}

/// Decoding `n` ids after their own encoding gives them back, as long as each
/// is sixteen bytes.
pub proof fn lemma_uuids_round_trip(xs: Seq<Seq<u8>>, rest: Seq<u8>)
    requires
        forall|i: int| 0 <= i < xs.len() ==> xs[i].len() == 16,
    ensures
        spec_dec_uuids(spec_enc_uuids(xs) + rest, xs.len()) == Ok::<_, Error>((xs, rest)),
    decreases xs.len(),
{
    if xs.len() == 0 {
        assert(xs =~= Seq::<Seq<u8>>::empty());
        assert(spec_enc_uuids(xs) + rest =~= rest);
    } else {
        let tail = spec_enc_uuids(xs.skip(1)) + rest;
        assert(spec_enc_uuids(xs) + rest =~= xs[0] + tail);
        assert((xs[0] + tail).take(16) =~= xs[0]);
        assert((xs[0] + tail).skip(16) =~= tail);
        lemma_uuids_round_trip(xs.skip(1), rest);
        assert(seq![xs[0]] + xs.skip(1) =~= xs);
    }
}

/// Decoding the compact-array encoding of any id list, followed by anything,
/// gives the list back and leaves the rest untouched.
pub proof fn lemma_uuid_array_round_trip(xs: Seq<Seq<u8>>, rest: Seq<u8>)
    requires
        xs.len() + 1 <= u64::MAX,
        forall|i: int| 0 <= i < xs.len() ==> xs[i].len() == 16,
    ensures
        spec_dec_uuid_array(spec_enc_uuid_array(xs) + rest) == Ok::<_, Error>((xs, rest)),
{
    let l = (xs.len() + 1) as u64;
    assert(spec_enc_uuid_array(xs) + rest =~= spec_enc_varint(l as nat) + (spec_enc_uuids(xs)
        + rest));
    lemma_varint_round_trip(l, spec_enc_uuids(xs) + rest);
    lemma_uuids_round_trip(xs, rest);
}

// ---------------------------------------------------------------------------
// Saturating casts for length prefixes
// ---------------------------------------------------------------------------

/// A count clipped to what a signed varint length prefix can carry; no real
/// buffer comes within reach of the saturation point.
pub open spec fn spec_sat_i64(n: nat) -> i64 {
    if n <= i64::MAX {
        n as i64
    } else {
        i64::MAX
    }
}

/// A count clipped to what a signed varint length prefix can carry.
pub fn sat_i64(n: usize) -> (r: i64)
    ensures
        r == spec_sat_i64(n as nat),
{
    if (n as u64) <= i64::MAX as u64 {
        n as i64
    } else {
        i64::MAX
    }
}

/// A count clipped to four bytes; no real buffer comes within reach of the
/// saturation point.
pub open spec fn spec_sat_u32(n: nat) -> u32 {
    if n <= u32::MAX {
        n as u32
    } else {
        u32::MAX
    }
}

/// A count clipped to four bytes.
pub fn sat_u32(n: usize) -> (r: u32)
    ensures
        r == spec_sat_u32(n as nat),
{
    if (n as u64) <= u32::MAX as u64 {
        n as u32
    } else {
        u32::MAX
    }
}

/// A list that can emit itself as a compact array.
pub trait ToArray {
    /// The bytes that `to_pb_array` emits.
    spec fn array_view(&self) -> Seq<u8>;

    /// The compact-array bytes of this list.
    fn to_pb_array(&self) -> (r: Result<Vec<u8>, Error>)
        ensures
            r matches Ok(b) && b@ == self.array_view(),
    ;
}

impl ToArray for Vec<u32> {
    open spec fn array_view(&self) -> Seq<u8> {
        spec_enc_u32_array(self@)
    }

    fn to_pb_array(&self) -> (r: Result<Vec<u8>, Error>)
        ensures
            r matches Ok(b) && b@ == self.array_view(),
    {
        let mut out = VarInt::encode(len_plus_one(self.len()));
        let ghost prefix = out@;
        let mut i: usize = 0;
        while i < self.len()
            invariant
                i <= self@.len(),
                out@ == prefix + spec_enc_u32s(self@.take(i as int)),
                prefix == spec_enc_varint(spec_len1(self@.len())),
            decreases self@.len() - i,
        {
            let ghost before = out@;
            enc_u32(&mut out, self[i]);
            i = i + 1;
            proof {
                lemma_enc_u32s_snoc(self@.take(i as int - 1), self@[i as int - 1]);
                assert(self@.take(i as int) =~= self@.take(i as int - 1).push(self@[i as int - 1]));
            }
        }
        assert(self@.take(self@.len() as int) =~= self@);
        Ok(out)
    }
}

/// Appending one value to a packed list appends its bytes to the encoding.
proof fn lemma_enc_u32s_snoc(xs: Seq<u32>, x: u32)
    ensures
        spec_enc_u32s(xs.push(x)) == spec_enc_u32s(xs) + spec_enc_u32(x),
    decreases xs.len(),
{
    let p = xs.push(x);
    assert(p.len() == xs.len() + 1);
    if xs.len() == 0 {
        assert(p[0] == x);
        assert(p.skip(1) =~= Seq::<u32>::empty());
        assert(spec_enc_u32s(p) == spec_enc_u32(x) + spec_enc_u32s(Seq::<u32>::empty()));
        assert(spec_enc_u32s(p) =~= spec_enc_u32s(xs) + spec_enc_u32(x));
    } else {
        assert(p[0] == xs[0]);
        assert(p.skip(1) =~= xs.skip(1).push(x));
        lemma_enc_u32s_snoc(xs.skip(1), x);
        assert(spec_enc_u32s(p) == spec_enc_u32(xs[0]) + spec_enc_u32s(xs.skip(1).push(x)));
        assert(spec_enc_u32s(p) =~= spec_enc_u32s(xs) + spec_enc_u32(x));
    }
}

} // verus!
