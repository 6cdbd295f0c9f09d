//! Byte-level primitive decoders: big-endian unsigned integers, platform
//! indices, 16.16 fixed-point numbers, UTF-16 text, and single bits.

use vstd::prelude::*;

use crate::rs_types::{DecodeError, S15Fixed16Number};

verus! {

/// The value of two bytes read as a big-endian unsigned integer.
pub open spec fn be_u16(b: Seq<u8>) -> int
    recommends
        b.len() == 2,
{
    (b[0] as int) * 0x100 + (b[1] as int)
}

/// The value of four bytes read as a big-endian unsigned integer.
pub open spec fn be_u32(b: Seq<u8>) -> int
    recommends
        b.len() == 4,
{
    (b[0] as int) * 0x100_0000 + (b[1] as int) * 0x1_0000 + (b[2] as int) * 0x100 + (b[3] as int)
}

/// The raw value of four bytes read as a big-endian signed 16.16 fixed-point
/// number: the unsigned interpretation, wrapped into the range of `i32`.
pub open spec fn be_s15f16(b: Seq<u8>) -> int
    recommends
        b.len() == 4,
{
    if be_u32(b) < 0x8000_0000 {
        be_u32(b)
    } else {
        be_u32(b) - 0x1_0000_0000
    }
}

/// The four big-endian bytes of an unsigned 32-bit value.
pub open spec fn u32_be_bytes(v: int) -> Seq<u8>
    recommends
        0 <= v < 0x1_0000_0000,
{
    seq![
        (v / 0x100_0000) as u8,
        ((v / 0x1_0000) % 0x100) as u8,
        ((v / 0x100) % 0x100) as u8,
        (v % 0x100) as u8,
    ]
}

/// The four big-endian bytes that encode a 16.16 fixed-point raw value:
/// two's complement of the signed value.
pub open spec fn s15f16_be_bytes(raw: int) -> Seq<u8>
    recommends
        -0x8000_0000 <= raw < 0x8000_0000,
{
    u32_be_bytes(if raw < 0 { raw + 0x1_0000_0000 } else { raw })
}

/// Decoding four bytes as a fixed-point value and re-encoding the value
/// recovers the original bytes exactly, for every 4-byte input.
pub proof fn lemma_s15f16_round_trip(b: Seq<u8>)
    requires
        b.len() == 4,
    ensures
        s15f16_be_bytes(be_s15f16(b)) == b,
{
    let u = be_u32(b);
    let rest1 = (b[1] as int) * 0x1_0000 + (b[2] as int) * 0x100 + (b[3] as int);
    assert(u == (b[0] as int) * 0x100_0000 + rest1);
    vstd::arithmetic::div_mod::lemma_fundamental_div_mod_converse(
        u,
        0x100_0000,
        b[0] as int,
        rest1,
    );
    let q16 = (b[0] as int) * 0x100 + (b[1] as int);
    let rest2 = (b[2] as int) * 0x100 + (b[3] as int);
    assert(u == q16 * 0x1_0000 + rest2) by (nonlinear_arith)
        requires
            u == (b[0] as int) * 0x100_0000 + (b[1] as int) * 0x1_0000 + (b[2] as int) * 0x100 + (
            b[3] as int),
            q16 == (b[0] as int) * 0x100 + (b[1] as int),
            rest2 == (b[2] as int) * 0x100 + (b[3] as int),
    ;
    vstd::arithmetic::div_mod::lemma_fundamental_div_mod_converse(u, 0x1_0000, q16, rest2);
    vstd::arithmetic::div_mod::lemma_fundamental_div_mod_converse(
        q16,
        0x100,
        b[0] as int,
        b[1] as int,
    );
    let q8 = ((b[0] as int) * 0x100 + (b[1] as int)) * 0x100 + (b[2] as int);
    assert(u == q8 * 0x100 + (b[3] as int)) by (nonlinear_arith)
        requires
            u == (b[0] as int) * 0x100_0000 + (b[1] as int) * 0x1_0000 + (b[2] as int) * 0x100 + (
            b[3] as int),
            q8 == ((b[0] as int) * 0x100 + (b[1] as int)) * 0x100 + (b[2] as int),
    ;
    vstd::arithmetic::div_mod::lemma_fundamental_div_mod_converse(u, 0x100, q8, b[3] as int);
    vstd::arithmetic::div_mod::lemma_fundamental_div_mod_converse(
        q8,
        0x100,
        (b[0] as int) * 0x100 + (b[1] as int),
        b[2] as int,
    );
    assert(s15f16_be_bytes(be_s15f16(b)) =~= b);
}

/// One bit of a byte, most-significant bit first: index 0 is the top bit.
pub open spec fn bit_at(byte: u8, i: int) -> u8
    recommends
        0 <= i < 8,
{
    (byte >> ((7 - i) as u8)) & 1
}

/// Decomposes one byte into its eight constituent bits, ordered
/// most-significant bit first at index 0; the weighted sum of the bits
/// recovers the byte.
pub fn get_bits_of_byte(byte: u8) -> (r: [u8; 8])
    ensures
        forall|i: int| 0 <= i < 8 ==> r@[i] == bit_at(byte, i),
        byte == 128 * r@[0] + 64 * r@[1] + 32 * r@[2] + 16 * r@[3] + 8 * r@[4] + 4 * r@[5] + 2
            * r@[6] + r@[7],
{
    let r = [
        (byte >> 7) & 1,
        (byte >> 6) & 1,
        (byte >> 5) & 1,
        (byte >> 4) & 1,
        (byte >> 3) & 1,
        (byte >> 2) & 1,
        (byte >> 1) & 1,
        (byte >> 0) & 1,
    ];
    proof {
        assert(byte == 128 * ((byte >> 7) & 1) + 64 * ((byte >> 6) & 1) + 32 * ((byte >> 5) & 1)
            + 16 * ((byte >> 4) & 1) + 8 * ((byte >> 3) & 1) + 4 * ((byte >> 2) & 1) + 2 * ((byte
            >> 1) & 1) + ((byte >> 0) & 1)) by (bit_vector);
    }
    r
}

/// The 16-bit big-endian code units held by an even-length byte sequence.
pub open spec fn utf16_units(b: Seq<u8>) -> Seq<u16>
    recommends
        b.len() % 2 == 0,
{
    Seq::new(b.len() / 2, |i: int| ((b[2 * i] as int) * 0x100 + (b[2 * i + 1] as int)) as u16)
}

/// The Unicode scalar values encoded by a sequence of UTF-16 code units,
/// or `None` when the sequence is not well-formed: a high surrogate must be
/// followed by a low surrogate, and a low surrogate must not stand alone.
pub open spec fn utf16_scalars(u: Seq<u16>) -> Option<Seq<u32>>
    decreases u.len(),
{
    if u.len() == 0 {
        Some(Seq::empty())
    } else if 0xD800 <= u[0] < 0xDC00 {
        if u.len() >= 2 && 0xDC00 <= u[1] < 0xE000 {
            match utf16_scalars(u.skip(2)) {
                Some(rest) => Some(
                    seq![(0x10000 + (u[0] - 0xD800) * 0x400 + (u[1] - 0xDC00)) as u32] + rest,
                ),
                None => None,
            }
        } else {
            None
        }
    } else if 0xDC00 <= u[0] < 0xE000 {
        None
    } else {
        match utf16_scalars(u.skip(1)) {
            Some(rest) => Some(seq![u[0] as u32] + rest),
            None => None,
        }
    }
}

/// Relies on char::from_u32: it returns `Some` exactly on the valid Unicode
/// scalar values (everything up to 0x10FFFF except the surrogate range),
/// and the returned character has the given value.
#[verifier::external_body]
fn char_from_u32(v: u32) -> (r: Option<char>)
    ensures
        r is Some <==> (v < 0xD800 || (0xE000 <= v && v <= 0x10FFFF)),
        r is Some ==> r->Some_0 as u32 == v,
{
    char::from_u32(v)
}

/// Relies on String's FromIterator implementation over characters: the
/// collected string holds exactly the given characters, in order.
#[verifier::external_body]
pub(crate) fn chars_to_string(chars: &Vec<char>) -> (r: String)
    ensures
        r@ == chars@,
{
    chars.iter().collect()
}

/// Decodes an even-length byte slice as big-endian UTF-16 text. Returns
/// `None` on an odd-length slice or a malformed code-unit sequence rather
/// than substituting replacement characters.
pub fn read_utf16(slice: &[u8]) -> (r: Option<String>)
    ensures
        r is Some <==> (slice@.len() % 2 == 0 && utf16_scalars(utf16_units(slice@)) is Some),
        r is Some ==> r->Some_0@.map_values(|c: char| c as u32) == utf16_scalars(
            utf16_units(slice@),
        )->Some_0,
{
    if slice.len() % 2 != 0 {
        return None;
    }
    let ghost units = utf16_units(slice@);
    let n = slice.len() / 2;
    let mut out: Vec<char> = Vec::new();
    let mut i: usize = 0;
    proof {
        assert(units.skip(0) =~= units);
        assert(out@.map_values(|c: char| c as u32) =~= Seq::<u32>::empty());
    }
    while i < n
        invariant
            slice@.len() % 2 == 0,
            slice@.len() <= usize::MAX,
            n == slice@.len() / 2,
            units == utf16_units(slice@),
            units.len() == n,
            i <= n,
            utf16_scalars(units) is Some <==> utf16_scalars(units.skip(i as int)) is Some,
            utf16_scalars(units.skip(i as int)) is Some ==> utf16_scalars(units)->Some_0
                == out@.map_values(|c: char| c as u32) + utf16_scalars(
                units.skip(i as int),
            )->Some_0,
        decreases n - i,
    {
        let ghost prev_out = out@;
        let unit = be16_at(slice, 2 * i);
        proof {
            assert(unit == units[i as int]);
            assert(units.skip(i as int)[0] == units[i as int]);
        }
        if 0xD800 <= unit && unit < 0xDC00 {
            if i + 1 < n {
                let next = be16_at(slice, 2 * i + 2);
                proof {
                    assert(next == units[i as int + 1]);
                    assert(units.skip(i as int)[1] == units[i as int + 1]);
                }
                if 0xDC00 <= next && next < 0xE000 {
                    let scalar: u32 = 0x10000 + ((unit - 0xD800) as u32) * 0x400 + ((next
                        - 0xDC00) as u32);
                    let c = char_from_u32(scalar).unwrap();
                    out.push(c);
                    proof {
                        assert(units.skip(i as int).skip(2) =~= units.skip(i as int + 2));
                        assert(out@.map_values(|c: char| c as u32) =~= prev_out.map_values(
                            |c: char| c as u32,
                        ).push(scalar));
                        if utf16_scalars(units.skip(i as int + 2)) is Some {
                            assert(utf16_scalars(units)->Some_0 =~= out@.map_values(
                                |c: char| c as u32,
                            ) + utf16_scalars(units.skip(i as int + 2))->Some_0);
                        }
                    }
                    i = i + 2;
                } else {
                    proof {
                        assert(utf16_scalars(units.skip(i as int)) is None);
                    }
                    return None;
                }
            } else {
                proof {
                    assert(units.skip(i as int).len() == 1);
                    assert(utf16_scalars(units.skip(i as int)) is None);
                }
                return None;
            }
        } else if 0xDC00 <= unit && unit < 0xE000 {
            proof {
                assert(utf16_scalars(units.skip(i as int)) is None);
            }
            return None;
        } else {
            let c = char_from_u32(unit as u32).unwrap();
            out.push(c);
            proof {
                assert(units.skip(i as int).skip(1) =~= units.skip(i as int + 1));
                assert(out@.map_values(|c: char| c as u32) =~= prev_out.map_values(
                    |c: char| c as u32,
                ).push(unit as u32));
                if utf16_scalars(units.skip(i as int + 1)) is Some {
                    assert(utf16_scalars(units)->Some_0 =~= out@.map_values(|c: char| c as u32)
                        + utf16_scalars(units.skip(i as int + 1))->Some_0);
                }
            }
            i = i + 1;
        }
    }
    proof {
        assert(units.skip(n as int) =~= Seq::<u16>::empty());
        assert(utf16_scalars(units)->Some_0 =~= out@.map_values(|c: char| c as u32));
    }
    Some(chars_to_string(&out))
}

/// The text that lossy UTF-8 decoding produces for a byte sequence: valid
/// sequences decode to their characters, invalid bytes become replacement
/// characters. Named rather than spelled out; the decoding depends on the
/// bytes alone.
pub uninterp spec fn utf8_lossy(bytes: Seq<u8>) -> Seq<char>;

/// Relies on String::from_utf8_lossy: invalid UTF-8 sequences are replaced
/// with placeholder characters rather than failing, and the result is a
/// function of the bytes alone.
#[verifier::external_body]
pub(crate) fn utf8_lossy_decode(bytes: &[u8]) -> (r: String)
    ensures
        r@ == utf8_lossy(bytes@),
        bytes@.len() == 0 ==> r@.len() == 0,
{
    String::from_utf8_lossy(bytes).to_string()
}

/// Reads a big-endian 16-bit integer at a byte offset known to be in range.
pub(crate) fn be16_at(data: &[u8], off: usize) -> (r: u16)
    requires
        off + 2 <= data@.len(),
    ensures
        r as int == be_u16(data@.subrange(off as int, off as int + 2)),
{
    (data[off] as u16) * 0x100 + (data[off + 1] as u16)
}

/// Reads a big-endian 32-bit integer at a byte offset known to be in range.
pub(crate) fn be32_at(data: &[u8], off: usize) -> (r: u32)
    requires
        off + 4 <= data@.len(),
    ensures
        r as int == be_u32(data@.subrange(off as int, off as int + 4)),
{
    (data[off] as u32) * 0x100_0000 + (data[off + 1] as u32) * 0x1_0000 + (data[off + 2] as u32)
        * 0x100 + (data[off + 3] as u32)
}

/// Reads a big-endian 16.16 fixed-point raw value at a byte offset known to
/// be in range.
pub(crate) fn s15f16_at(data: &[u8], off: usize) -> (r: S15Fixed16Number)
    requires
        off + 4 <= data@.len(),
    ensures
        r.raw as int == be_s15f16(data@.subrange(off as int, off as int + 4)),
{
    let u = be32_at(data, off);
    let raw: i32 = if u < 0x8000_0000 {
        u as i32
    } else {
        i32::MIN + ((u - 0x8000_0000) as i32)
    };
    S15Fixed16Number { raw }
}

/// Decodes a 2-byte slice as a big-endian unsigned 16-bit integer; a slice
/// of any other length is a length-mismatch error.
pub fn bytes_to_u16(bytes: &[u8]) -> (r: Result<u16, DecodeError>)
    ensures
        r is Ok <==> bytes@.len() == 2,
        r is Ok ==> r->Ok_0 == be_u16(bytes@),
        r is Err ==> r->Err_0 == (DecodeError::LengthMismatch {
            expected: 2,
            got: bytes@.len() as usize,
        }),
{
    if bytes.len() == 2 {
        Ok((bytes[0] as u16) * 0x100 + (bytes[1] as u16))
    } else {
        Err(DecodeError::LengthMismatch { expected: 2, got: bytes.len() })
    }
}

/// Decodes a 4-byte slice as a big-endian unsigned 32-bit integer; a slice
/// of any other length is a length-mismatch error.
pub fn bytes_to_u32(bytes: &[u8]) -> (r: Result<u32, DecodeError>)
    ensures
        r is Ok <==> bytes@.len() == 4,
        r is Ok ==> r->Ok_0 == be_u32(bytes@),
        r is Err ==> r->Err_0 == (DecodeError::LengthMismatch {
            expected: 4,
            got: bytes@.len() as usize,
        }),
{
    if bytes.len() == 4 {
        Ok(
            (bytes[0] as u32) * 0x100_0000 + (bytes[1] as u32) * 0x1_0000 + (bytes[2] as u32)
                * 0x100 + (bytes[3] as u32),
        )
    } else {
        Err(DecodeError::LengthMismatch { expected: 4, got: bytes.len() })
    }
}

/// Decodes a 4-byte slice as a big-endian unsigned integer converted to the
/// platform's index type, which loses nothing on the supported targets.
pub fn bytes_u32_usize(bytes: &[u8]) -> (r: Result<usize, DecodeError>)
    ensures
        r is Ok <==> bytes@.len() == 4,
        r is Ok ==> r->Ok_0 == be_u32(bytes@),
        r is Err ==> r->Err_0 == (DecodeError::LengthMismatch {
            expected: 4,
            got: bytes@.len() as usize,
        }),
{
    match bytes_to_u32(bytes) {
        Ok(v) => Ok(v as usize),
        Err(e) => Err(e),
    }
}

/// Decodes a 2-byte slice as a big-endian unsigned integer converted to the
/// platform's index type, which loses nothing on the supported targets.
pub fn bytes_u16_usize(bytes: &[u8]) -> (r: Result<usize, DecodeError>)
    ensures
        r is Ok <==> bytes@.len() == 2,
        r is Ok ==> r->Ok_0 == be_u16(bytes@),
        r is Err ==> r->Err_0 == (DecodeError::LengthMismatch {
            expected: 2,
            got: bytes@.len() as usize,
        }),
{
    match bytes_to_u16(bytes) {
        Ok(v) => Ok(v as usize),
        Err(e) => Err(e),
    }
}

/// Decodes a 4-byte slice as a big-endian signed 16.16 fixed-point number;
/// a slice of any other length is a length-mismatch error.
pub fn bytes_to_sf32(bytes: &[u8]) -> (r: Result<S15Fixed16Number, DecodeError>)
    ensures
        r is Ok <==> bytes@.len() == 4,
        r is Ok ==> r->Ok_0.raw as int == be_s15f16(bytes@),
        r is Err ==> r->Err_0 == (DecodeError::LengthMismatch {
            expected: 4,
            got: bytes@.len() as usize,
        }),
{
    match bytes_to_u32(bytes) {
        Ok(u) => {
            let raw: i32 = if u < 0x8000_0000 {
                u as i32
            } else {
                i32::MIN + ((u - 0x8000_0000) as i32)
            };
            Ok(S15Fixed16Number { raw })
        },
        Err(e) => Err(e),
    }
}

/// Encodes a fixed-point number as the four big-endian bytes of its raw
/// value's two's complement: the exact inverse of [`bytes_to_sf32`].
pub fn sf32_to_be_bytes(num: S15Fixed16Number) -> (r: [u8; 4])
    ensures
        r@ == s15f16_be_bytes(num.raw as int),
{
    let u: u32 = if num.raw >= 0 {
        num.raw as u32
    } else {
        ((num.raw as i64) + 0x1_0000_0000i64) as u32
    };
    let r = [(u / 0x100_0000) as u8, ((u / 0x1_0000) % 0x100) as u8, ((u / 0x100) % 0x100) as u8, (
    u % 0x100) as u8];
    assert(r@ =~= s15f16_be_bytes(num.raw as int));
    r
}

} // verus!
