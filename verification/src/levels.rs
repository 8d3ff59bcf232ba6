//! Encoding of the per-row validity stream.
//!
//! Each page carries one definition level per row — a single bit, since
//! the columns are flat — telling null from non-null positions. A uniform
//! stream is written as one run-length group: a ULEB128 header holding
//! `row_count << 1` (the cleared low bit marks a run) followed by one
//! byte holding the bit's value, so that an arbitrarily long all-equal
//! column compresses to a handful of bytes. A mixed stream is written as
//! one bit-packed group: a ULEB128 header holding `byte_count << 1 | 1`,
//! then the bits packed least-significant first, eight per byte.

use vstd::prelude::*;

verus! {

/// ULEB128 encoding of a value: seven data bits per byte, least
/// significant group first, the high bit set on every byte but the last.
pub open spec fn spec_uleb128(v: nat) -> Seq<u8>
    decreases v,
{
    if v < 128 {
        seq![v as u8]
    } else {
        seq![(v % 128 + 128) as u8] + spec_uleb128(v / 128)
    }
}

/// Whether every bit of the stream equals its first bit.
pub open spec fn spec_uniform(bits: Seq<bool>) -> bool {
    forall|i: int| 0 <= i < bits.len() ==> #[trigger] bits[i] == bits[0]
}

/// The byte that encodes a run's bit value.
pub open spec fn byte_of_bit(b: bool) -> u8 {
    if b {
        1u8
    } else {
        0u8
    }
}

/// The weight a bit contributes to its packed byte: its value at its
/// position's power of two, or nothing past the end of the stream.
pub open spec fn bit_at(bits: Seq<bool>, i: int) -> int {
    if 0 <= i < bits.len() && bits[i] {
        1
    } else {
        0
    }
}

/// The first eight bits of the stream packed into one byte, least
/// significant first; missing bits pack as zero.
pub open spec fn spec_pack_byte(bits: Seq<bool>) -> u8 {
    (bit_at(bits, 0) + 2 * bit_at(bits, 1) + 4 * bit_at(bits, 2) + 8 * bit_at(bits, 3) + 16
        * bit_at(bits, 4) + 32 * bit_at(bits, 5) + 64 * bit_at(bits, 6) + 128 * bit_at(
        bits,
        7,
    )) as u8
}

/// The whole stream packed eight bits to a byte.
pub open spec fn spec_packed_bytes(bits: Seq<bool>) -> Seq<u8> {
    Seq::new(((bits.len() + 7) / 8) as nat, |i: int| spec_pack_byte(bits.skip(8 * i)))
}

/// The encoded validity stream: one run-length group for a uniform
/// stream, one bit-packed group otherwise, nothing for no rows at all.
pub open spec fn spec_validity_bytes(bits: Seq<bool>) -> Seq<u8> {
    if bits.len() == 0 {
        Seq::empty()
    } else if spec_uniform(bits) {
        spec_uleb128(2 * bits.len()) + seq![byte_of_bit(bits[0])]
    } else {
        spec_uleb128(2 * ((bits.len() + 7) / 8) + 1) + spec_packed_bytes(bits)
    }
}

/// A ULEB128 header of a value below `2^35` takes at most five bytes.
pub proof fn lemma_uleb128_len5(v: nat)
    requires
        v < 0x8_0000_0000,
    ensures
        spec_uleb128(v).len() <= 5,
{
    let v1 = v / 128;
    let v2 = v1 / 128;
    let v3 = v2 / 128;
    let v4 = v3 / 128;
    assert(spec_uleb128(v4).len() == 1);
    assert(spec_uleb128(v3).len() <= 2);
    assert(spec_uleb128(v2).len() <= 3);
    assert(spec_uleb128(v1).len() <= 4);
    assert(spec_uleb128(v).len() <= 5);
}

/// The encoded validity stream of a page never exceeds two bytes per
/// row, so its byte length always fits the stream's 32-bit length
/// prefix.
pub proof fn lemma_validity_bytes_len(bits: Seq<bool>)
    requires
        bits.len() <= 0x7fff_ffff,
    ensures
        spec_validity_bytes(bits).len() <= 2 * bits.len(),
{
    if bits.len() == 0 {
    } else if spec_uniform(bits) {
        if 2 * bits.len() < 128 {
            assert(spec_uleb128(2 * bits.len()).len() == 1);
        } else {
            lemma_uleb128_len5(2 * bits.len());
        }
    } else {
        let groups = (bits.len() + 7) / 8;
        assert(bits.len() >= 2);
        if 2 * groups + 1 < 128 {
            assert(spec_uleb128(2 * groups + 1).len() == 1);
        } else {
            lemma_uleb128_len5(2 * groups + 1);
            assert(groups >= 15);
        }
    }
}

/// A uniform stream — every bit equal to the first — encodes as one
/// single run covering all the rows, however long the stream is.
pub proof fn lemma_uniform_validity(bits: Seq<bool>)
    requires
        bits.len() > 0,
        forall|i: int| 0 <= i < bits.len() ==> #[trigger] bits[i] == bits[0],
    ensures
        spec_validity_bytes(bits) == spec_uleb128(2 * bits.len()) + seq![byte_of_bit(bits[0])],
{
}

/// Append the ULEB128 encoding of `v` to `out`.
pub fn push_uleb128(out: &mut Vec<u8>, v: u64)
    ensures
        final(out)@ == old(out)@ + spec_uleb128(v as nat),
{
    let ghost prior = out@;
    let ghost v0 = v as nat;
    let mut v = v;
    while v >= 128
        invariant
            prior + spec_uleb128(v0) =~= out@ + spec_uleb128(v as nat),
        decreases v,
    {
        out.push((v % 128 + 128) as u8);
        v = v / 128;
    }
    out.push(v as u8);
    proof {
        assert(out@ =~= prior + spec_uleb128(v0));
    }
}

/// Pack the bits eight to a byte, least significant first.
fn pack_bits(bits: &Vec<bool>) -> (out: Vec<u8>)
    requires
        bits@.len() <= 0x7fff_ffff,
    ensures
        out@ == spec_packed_bytes(bits@),
{
    let n = bits.len();
    let groups = (n + 7) / 8;
    let mut out: Vec<u8> = Vec::new();
    let mut g: usize = 0;
    while g < groups
        invariant
            0 <= g <= groups == (bits@.len() + 7) / 8,
            bits@.len() == n <= 0x7fff_ffff,
            out@.len() == g,
            forall|i: int| 0 <= i < g ==> out@[i] == spec_pack_byte(bits@.skip(8 * i)),
        decreases groups - g,
    {
        let base = 8 * g;
        let mut byte: u16 = 0;
        if base < n && bits[base] {
            byte = byte + 1;
        }
        if base + 1 < n && bits[base + 1] {
            byte = byte + 2;
        }
        if base + 2 < n && bits[base + 2] {
            byte = byte + 4;
        }
        if base + 3 < n && bits[base + 3] {
            byte = byte + 8;
        }
        if base + 4 < n && bits[base + 4] {
            byte = byte + 16;
        }
        if base + 5 < n && bits[base + 5] {
            byte = byte + 32;
        }
        if base + 6 < n && bits[base + 6] {
            byte = byte + 64;
        }
        if base + 7 < n && bits[base + 7] {
            byte = byte + 128;
        }
        proof {
            let t = bits@.skip(8 * g);
            assert(forall|j: int| 0 <= j < t.len() ==> t[j] == bits@[8 * (g as int) + j]);
            assert(byte as int == bit_at(t, 0) + 2 * bit_at(t, 1) + 4 * bit_at(t, 2) + 8 * bit_at(
                t,
                3,
            ) + 16 * bit_at(t, 4) + 32 * bit_at(t, 5) + 64 * bit_at(t, 6) + 128 * bit_at(t, 7));
        }
        out.push(byte as u8);
        g = g + 1;
    }
    proof {
        assert(out@ =~= spec_packed_bytes(bits@));
    }
    out
}

/// Encode the validity bits: a single run when they are uniform, one
/// bit-packed group otherwise.
///
/// The stream length is capped at the format's page row limit so that
/// the doubled lengths in the group headers stay in range.
pub fn encode_validity(bits: &Vec<bool>) -> (out: Vec<u8>)
    requires
        bits@.len() <= 0x7fff_ffff,
    ensures
        out@ == spec_validity_bytes(bits@),
{
    let n = bits.len();
    let mut out: Vec<u8> = Vec::new();
    if n == 0 {
        return out;
    }
    let first = bits[0];
    let mut all_equal = true;
    let mut i: usize = 1;
    while i < n
        invariant
            1 <= i <= n == bits@.len(),
            first == bits@[0],
            all_equal <==> (forall|j: int| 1 <= j < i ==> #[trigger] bits@[j] == bits@[0]),
        decreases n - i,
    {
        if bits[i] != first {
            all_equal = false;
        }
        i = i + 1;
    }
    if all_equal {
        proof {
            assert(spec_uniform(bits@));
        }
        push_uleb128(&mut out, 2 * (n as u64));
        out.push(if first {
            1u8
        } else {
            0u8
        });
        proof {
            assert(out@ =~= spec_validity_bytes(bits@));
        }
    } else {
        proof {
            assert(!spec_uniform(bits@));
        }
        let groups = (n + 7) / 8;
        push_uleb128(&mut out, 2 * (groups as u64) + 1);
        let mut packed = pack_bits(bits);
        out.append(&mut packed);
        proof {
            assert(out@ =~= spec_validity_bytes(bits@));
        }
    }
    out
}

} // verus!
