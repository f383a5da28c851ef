//! Contract-call encoding primitives.
//!
//! A read-only contract call is encoded as a four-byte selector followed
//! by the arguments, each padded to a 32-byte word: an address is twelve
//! zero bytes and its twenty bytes, an unsigned 256-bit integer is its
//! four big-endian limbs, a boolean is thirty-one zero bytes and a 0 or
//! 1. This module holds the value types and the word-level encoders and
//! strict decoders; a decoder accepts exactly the canonical encodings.

use vstd::prelude::*;

verus! {

/// A 20-byte account or contract address, split big-endian into two
/// 64-bit parts and one 32-bit part: `w0` holds bytes 0..8, `w1` bytes
/// 8..16, `w2` bytes 16..20.
#[derive(Debug, Clone, Copy, PartialEq, Eq, Hash, Structural)]
pub struct Address {
    pub w0: u64,
    pub w1: u64,
    pub w2: u32,
}

impl Address {
    pub fn new(w0: u64, w1: u64, w2: u32) -> (r: Address)
        ensures
            r == (Address { w0, w1, w2 }),
    {
        Address { w0, w1, w2 }
    }
}

/// An unsigned 256-bit integer as four big-endian 64-bit limbs: `w0` is
/// the most significant.
#[derive(Debug, Clone, Copy, PartialEq, Eq, Hash, Structural)]
pub struct U256 {
    pub w0: u64,
    pub w1: u64,
    pub w2: u64,
    pub w3: u64,
}

impl U256 {
    pub fn new(w0: u64, w1: u64, w2: u64, w3: u64) -> (r: U256)
        ensures
            r == (U256 { w0, w1, w2, w3 }),
    {
        U256 { w0, w1, w2, w3 }
    }

    /// The value `x` as a 256-bit integer.
    pub fn from_u64(x: u64) -> (r: U256)
        ensures
            r == (U256 { w0: 0u64, w1: 0u64, w2: 0u64, w3: x }),
    {
        U256 { w0: 0, w1: 0, w2: 0, w3: x }
    }
}

/// Byte `i` (big-endian, `0 <= i < 8`) of a 64-bit value.
pub open spec fn u64_byte(x: u64, i: int) -> u8 {
    (((x >> (((7 - i) * 8) as u64)) & 0xff) as u8)
}

/// Byte `i` (big-endian, `0 <= i < 4`) of a 32-bit value.
pub open spec fn u32_byte(x: u32, i: int) -> u8 {
    (((x >> (((3 - i) * 8) as u32)) & 0xff) as u8)
}

/// The 8 bytes of a 64-bit value, big-endian.
pub open spec fn u64_bytes(x: u64) -> Seq<u8> {
    Seq::new(8, |i: int| u64_byte(x, i))
}

/// The 4 bytes of a 32-bit value, big-endian.
pub open spec fn u32_bytes(x: u32) -> Seq<u8> {
    Seq::new(4, |i: int| u32_byte(x, i))
}

/// `n` zero bytes.
pub open spec fn zero_bytes(n: int) -> Seq<u8> {
    Seq::new(n as nat, |i: int| 0u8)
}

/// The 32-byte word encoding an address: twelve zero bytes, then the
/// twenty address bytes.
pub open spec fn address_word(a: Address) -> Seq<u8> {
    zero_bytes(12) + u64_bytes(a.w0) + u64_bytes(a.w1) + u32_bytes(a.w2)
}

/// The 32-byte word encoding a 256-bit integer: its four limbs,
/// big-endian.
pub open spec fn u256_word(v: U256) -> Seq<u8> {
    u64_bytes(v.w0) + u64_bytes(v.w1) + u64_bytes(v.w2) + u64_bytes(v.w3)
}

/// Masking a value to its low byte keeps it below 256.
proof fn lemma_low_byte_fits(x: u64)
    ensures
        x & 0xff <= 0xff,
{
    assert(x & 0xff <= 0xff) by (bit_vector);
}

/// Masking a 32-bit value to its low byte keeps it below 256.
proof fn lemma_low_byte_fits_u32(x: u32)
    ensures
        x & 0xff <= 0xff,
{
    assert(x & 0xff <= 0xff) by (bit_vector);
}

/// Appends the 8 big-endian bytes of `x`.
pub(crate) fn push_u64_be(out: &mut Vec<u8>, x: u64)
    ensures
        final (out)@ == old(out)@ + u64_bytes(x),
{
    proof {
        lemma_low_byte_fits(x >> 56);
        lemma_low_byte_fits(x >> 48);
        lemma_low_byte_fits(x >> 40);
        lemma_low_byte_fits(x >> 32);
        lemma_low_byte_fits(x >> 24);
        lemma_low_byte_fits(x >> 16);
        lemma_low_byte_fits(x >> 8);
        lemma_low_byte_fits(x >> 0);
    }
    out.push(((x >> 56) & 0xff) as u8);
    out.push(((x >> 48) & 0xff) as u8);
    out.push(((x >> 40) & 0xff) as u8);
    out.push(((x >> 32) & 0xff) as u8);
    out.push(((x >> 24) & 0xff) as u8);
    out.push(((x >> 16) & 0xff) as u8);
    out.push(((x >> 8) & 0xff) as u8);
    out.push(((x >> 0) & 0xff) as u8);
    proof {
        assert(final (out)@ =~= old(out)@ + u64_bytes(x));
    }
}

/// Appends the 4 big-endian bytes of `x`.
pub(crate) fn push_u32_be(out: &mut Vec<u8>, x: u32)
    ensures
        final (out)@ == old(out)@ + u32_bytes(x),
{
    proof {
        lemma_low_byte_fits_u32(x >> 24);
        lemma_low_byte_fits_u32(x >> 16);
        lemma_low_byte_fits_u32(x >> 8);
        lemma_low_byte_fits_u32(x >> 0);
    }
    out.push(((x >> 24) & 0xff) as u8);
    out.push(((x >> 16) & 0xff) as u8);
    out.push(((x >> 8) & 0xff) as u8);
    out.push(((x >> 0) & 0xff) as u8);
    proof {
        assert(final (out)@ =~= old(out)@ + u32_bytes(x));
    }
}

/// Appends `n` zero bytes.
pub(crate) fn push_zero_bytes(out: &mut Vec<u8>, n: usize)
    ensures
        final (out)@ == old(out)@ + zero_bytes(n as int),
{
    let mut k: usize = 0;
    while k < n
        invariant
            k <= n,
            out@ == old(out)@ + zero_bytes(k as int),
        decreases n - k,
    {
        out.push(0u8);
        proof {
            assert(out@ =~= old(out)@ + zero_bytes(k + 1 as int));
        }
        k = k + 1;
    }
    proof {
        assert(out@ =~= old(out)@ + zero_bytes(n as int));
    }
}

/// Appends the 32-byte word of an address.
pub(crate) fn push_address_word(out: &mut Vec<u8>, a: Address)
    ensures
        final (out)@ == old(out)@ + address_word(a),
{
    push_zero_bytes(out, 12);
    push_u64_be(out, a.w0);
    push_u64_be(out, a.w1);
    push_u32_be(out, a.w2);
    proof {
        assert(final (out)@ =~= old(out)@ + address_word(a));
    }
}

/// Appends the 32-byte word of a 256-bit integer.
pub(crate) fn push_u256_word(out: &mut Vec<u8>, v: U256)
    ensures
        final (out)@ == old(out)@ + u256_word(v),
{
    push_u64_be(out, v.w0);
    push_u64_be(out, v.w1);
    push_u64_be(out, v.w2);
    push_u64_be(out, v.w3);
    proof {
        assert(final (out)@ =~= old(out)@ + u256_word(v));
    }
}

/// The 64-bit value whose big-endian bytes are `b0..b7`.
pub open spec fn u64_from_bytes(
    b0: u8,
    b1: u8,
    b2: u8,
    b3: u8,
    b4: u8,
    b5: u8,
    b6: u8,
    b7: u8,
) -> u64 {
    ((b0 as u64) << 56) | ((b1 as u64) << 48) | ((b2 as u64) << 40) | ((b3 as u64) << 32) | ((
    b4 as u64) << 24) | ((b5 as u64) << 16) | ((b6 as u64) << 8) | (b7 as u64)
}

/// The 32-bit value whose big-endian bytes are `b0..b3`.
pub open spec fn u32_from_bytes(b0: u8, b1: u8, b2: u8, b3: u8) -> u32 {
    ((b0 as u32) << 24) | ((b1 as u32) << 16) | ((b2 as u32) << 8) | (b3 as u32)
}

/// Combining 8 bytes into a 64-bit value and taking them apart again
/// yields the same bytes.
proof fn lemma_u64_bytes_roundtrip(b0: u8, b1: u8, b2: u8, b3: u8, b4: u8, b5: u8, b6: u8, b7: u8)
    ensures
        u64_bytes(u64_from_bytes(b0, b1, b2, b3, b4, b5, b6, b7)) =~= seq![
            b0,
            b1,
            b2,
            b3,
            b4,
            b5,
            b6,
            b7,
        ],
{
    let x = u64_from_bytes(b0, b1, b2, b3, b4, b5, b6, b7);
    assert((((x >> 56) & 0xff) as u8) == b0 && (((x >> 48) & 0xff) as u8) == b1 && (((x >> 40)
        & 0xff) as u8) == b2 && (((x >> 32) & 0xff) as u8) == b3 && (((x >> 24) & 0xff) as u8) == b4
        && (((x >> 16) & 0xff) as u8) == b5 && (((x >> 8) & 0xff) as u8) == b6 && (((x >> 0) & 0xff)
        as u8) == b7) by (bit_vector)
        requires
            x == ((b0 as u64) << 56) | ((b1 as u64) << 48) | ((b2 as u64) << 40) | ((b3 as u64)
                << 32) | ((b4 as u64) << 24) | ((b5 as u64) << 16) | ((b6 as u64) << 8) | (
            b7 as u64),
    ;
}

/// Combining 4 bytes into a 32-bit value and taking them apart again
/// yields the same bytes.
proof fn lemma_u32_bytes_roundtrip(b0: u8, b1: u8, b2: u8, b3: u8)
    ensures
        u32_bytes(u32_from_bytes(b0, b1, b2, b3)) =~= seq![b0, b1, b2, b3],
{
    let x = u32_from_bytes(b0, b1, b2, b3);
    assert((((x >> 24) & 0xff) as u8) == b0 && (((x >> 16) & 0xff) as u8) == b1 && (((x >> 8)
        & 0xff) as u8) == b2 && (((x >> 0) & 0xff) as u8) == b3) by (bit_vector)
        requires
            x == ((b0 as u32) << 24) | ((b1 as u32) << 16) | ((b2 as u32) << 8) | (b3 as u32),
    ;
}

/// Reads the 64-bit value whose big-endian bytes sit at `off..off+8`.
fn read_u64_be(data: &Vec<u8>, off: usize) -> (r: u64)
    requires
        off + 8 <= data@.len(),
    ensures
        u64_bytes(r) =~= data@.subrange(off as int, off as int + 8),
{
    let dlen = data.len();
    proof {
        assert(dlen == data@.len());
    }
    let r = u64_from_bytes_exec(
        data[off],
        data[off + 1],
        data[off + 2],
        data[off + 3],
        data[off + 4],
        data[off + 5],
        data[off + 6],
        data[off + 7],
    );
    proof {
        lemma_u64_bytes_roundtrip(
            data@[off as int],
            data@[off as int + 1],
            data@[off as int + 2],
            data@[off as int + 3],
            data@[off as int + 4],
            data@[off as int + 5],
            data@[off as int + 6],
            data@[off as int + 7],
        );
        assert(u64_bytes(r) =~= data@.subrange(off as int, off as int + 8));
    }
    r
}

/// Combines 8 big-endian bytes into a 64-bit value.
fn u64_from_bytes_exec(b0: u8, b1: u8, b2: u8, b3: u8, b4: u8, b5: u8, b6: u8, b7: u8) -> (r: u64)
    ensures
        r == u64_from_bytes(b0, b1, b2, b3, b4, b5, b6, b7),
{
    ((b0 as u64) << 56) | ((b1 as u64) << 48) | ((b2 as u64) << 40) | ((b3 as u64) << 32) | ((
    b4 as u64) << 24) | ((b5 as u64) << 16) | ((b6 as u64) << 8) | (b7 as u64)
}

/// Reads the 32-bit value whose big-endian bytes sit at `off..off+4`.
fn read_u32_be(data: &Vec<u8>, off: usize) -> (r: u32)
    requires
        off + 4 <= data@.len(),
    ensures
        u32_bytes(r) =~= data@.subrange(off as int, off as int + 4),
{
    let dlen = data.len();
    proof {
        assert(dlen == data@.len());
    }
    let r = ((data[off] as u32) << 24) | ((data[off + 1] as u32) << 16) | ((data[off + 2] as u32)
        << 8) | (data[off + 3] as u32);
    proof {
        lemma_u32_bytes_roundtrip(
            data@[off as int],
            data@[off as int + 1],
            data@[off as int + 2],
            data@[off as int + 3],
        );
        assert(u32_bytes(r) =~= data@.subrange(off as int, off as int + 4));
    }
    r
}

/// Checks that `data[off..off+n]` is all zeros.
fn check_zero_bytes(data: &Vec<u8>, off: usize, n: usize) -> (r: bool)
    requires
        off + n <= data@.len(),
    ensures
        r <==> data@.subrange(off as int, off as int + n) =~= zero_bytes(n as int),
{
    let dlen = data.len();
    let mut k: usize = 0;
    while k < n
        invariant
            k <= n,
            dlen == data@.len(),
            off + n <= data@.len(),
            forall|j: int| 0 <= j < k ==> #[trigger] data@[off + j] == 0u8,
        decreases n - k,
    {
        if data[off + k] != 0 {
            proof {
                assert(data@.subrange(off as int, off as int + n)[k as int] != 0u8);
            }
            return false;
        }
        k = k + 1;
    }
    proof {
        assert forall|j: int| 0 <= j < n implies #[trigger] data@.subrange(
            off as int,
            off as int + n,
        )[j] == 0u8 by {
            assert(data@[off + j] == 0u8);
        }
        assert(data@.subrange(off as int, off as int + n) =~= zero_bytes(n as int));
    }
    true
}

/// Reads the address whose canonical 32-byte word sits at `off..off+32`,
/// refusing a word whose padding is not zero.
pub(crate) fn read_address_word(data: &Vec<u8>, off: usize) -> (r: Option<Address>)
    requires
        off + 32 <= data@.len(),
    ensures
        r matches Some(a) ==> data@.subrange(off as int, off as int + 32) == address_word(a),
        r is None ==> forall|a: Address|
            data@.subrange(off as int, off as int + 32) != address_word(a),
{
    let dlen = data.len();
    proof {
        assert(dlen == data@.len());
    }
    if !check_zero_bytes(data, off, 12) {
        proof {
            assert forall|a: Address|
                data@.subrange(off as int, off as int + 32) != address_word(a) by {
                assert(address_word(a).subrange(0, 12) =~= zero_bytes(12));
                if data@.subrange(off as int, off as int + 32) == address_word(a) {
                    assert(data@.subrange(off as int, off as int + 12) =~= address_word(
                        a,
                    ).subrange(0, 12));
                }
            }
        }
        return None;
    }
    let w0 = read_u64_be(data, off + 12);
    let w1 = read_u64_be(data, off + 20);
    let w2 = read_u32_be(data, off + 28);
    let a = Address { w0, w1, w2 };
    proof {
        assert(data@.subrange(off as int, off as int + 32) =~= address_word(a));
    }
    Some(a)
}

/// Reads the 256-bit integer whose 32-byte word sits at `off..off+32`.
pub(crate) fn read_u256_word(data: &Vec<u8>, off: usize) -> (r: U256)
    requires
        off + 32 <= data@.len(),
    ensures
        data@.subrange(off as int, off as int + 32) == u256_word(r),
{
    let dlen = data.len();
    proof {
        assert(dlen == data@.len());
    }
    let w0 = read_u64_be(data, off);
    let w1 = read_u64_be(data, off + 8);
    let w2 = read_u64_be(data, off + 16);
    let w3 = read_u64_be(data, off + 24);
    let v = U256 { w0, w1, w2, w3 };
    proof {
        assert(data@.subrange(off as int, off as int + 32) =~= u256_word(v));
    }
    v
}

/// The 32-byte word encoding a boolean: thirty-one zero bytes and a 0
/// or 1.
pub open spec fn bool_word(b: bool) -> Seq<u8> {
    zero_bytes(31) + seq![if b { 1u8 } else { 0u8 }]
}

/// The 32-byte word encoding an 8-bit unsigned integer: thirty-one zero
/// bytes and the value.
pub open spec fn u8_word(x: u8) -> Seq<u8> {
    zero_bytes(31) + seq![x]
}

/// Reads the boolean whose canonical 32-byte word sits at `off..off+32`,
/// refusing anything but thirty-one zero bytes and a 0 or 1.
pub(crate) fn read_bool_word(data: &Vec<u8>, off: usize) -> (r: Option<bool>)
    requires
        off + 32 <= data@.len(),
    ensures
        r matches Some(b) ==> data@.subrange(off as int, off as int + 32) == bool_word(b),
        r is None ==> forall|b: bool| data@.subrange(off as int, off as int + 32) != bool_word(b),
{
    let dlen = data.len();
    proof {
        assert(dlen == data@.len());
    }
    if !check_zero_bytes(data, off, 31) {
        proof {
            assert forall|b: bool|
                data@.subrange(off as int, off as int + 32) != bool_word(b) by {
                assert(bool_word(b).subrange(0, 31) =~= zero_bytes(31));
                if data@.subrange(off as int, off as int + 32) == bool_word(b) {
                    assert(data@.subrange(off as int, off as int + 31) =~= bool_word(b).subrange(
                        0,
                        31,
                    ));
                }
            }
        }
        return None;
    }
    let last = data[off + 31];
    if last == 0 {
        proof {
            assert(data@.subrange(off as int, off as int + 32) =~= bool_word(false));
        }
        Some(false)
    } else if last == 1 {
        proof {
            assert(data@.subrange(off as int, off as int + 32) =~= bool_word(true));
        }
        Some(true)
    } else {
        proof {
            assert forall|b: bool|
                data@.subrange(off as int, off as int + 32) != bool_word(b) by {
                assert(bool_word(b)[31] == (if b { 1u8 } else { 0u8 }));
                assert(data@.subrange(off as int, off as int + 32)[31] == data@[off + 31]);
            }
        }
        None
    }
}

/// Reads the 8-bit value whose canonical 32-byte word sits at
/// `off..off+32`, refusing a word whose padding is not zero.
pub(crate) fn read_u8_word(data: &Vec<u8>, off: usize) -> (r: Option<u8>)
    requires
        off + 32 <= data@.len(),
    ensures
        r matches Some(x) ==> data@.subrange(off as int, off as int + 32) == u8_word(x),
        r is None ==> forall|x: u8| data@.subrange(off as int, off as int + 32) != u8_word(x),
{
    let dlen = data.len();
    proof {
        assert(dlen == data@.len());
    }
    if !check_zero_bytes(data, off, 31) {
        proof {
            assert forall|x: u8| data@.subrange(off as int, off as int + 32) != u8_word(x) by {
                assert(u8_word(x).subrange(0, 31) =~= zero_bytes(31));
                if data@.subrange(off as int, off as int + 32) == u8_word(x) {
                    assert(data@.subrange(off as int, off as int + 31) =~= u8_word(x).subrange(
                        0,
                        31,
                    ));
                }
            }
        }
        return None;
    }
    let last = data[off + 31];
    proof {
        assert(data@.subrange(off as int, off as int + 32) =~= u8_word(data@[off + 31]));
    }
    Some(last)
}

} // verus!
