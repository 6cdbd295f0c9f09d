//! One decoder per ICC tag type. Each decoder receives the whole profile
//! buffer together with a tag-table entry's absolute offset (and size, where
//! the layout needs it), checks every internal sub-offset against the
//! available bytes, and returns a typed value or a [`DecodeError`] — never
//! panicking on truncated or corrupt payloads.

use vstd::prelude::*;
use vstd::slice::slice_subrange;

use crate::bytes_utils::{
    be16_at, be32_at, be_s15f16, be_u16, be_u32, bytes_to_sf32, read_utf16, s15f16_at, utf16_scalars,
    utf16_units, utf8_lossy, utf8_lossy_decode,
};
use crate::rs_types::{wrap_i32, DecodeError, S15Fixed16Array, S15Fixed16Number, Vcgt, XYZNumber};

verus! {

/// What decoding a generic text payload of `end` bytes at `idx` yields:
/// the 4-byte type signature and everything from `idx + 8` to the payload
/// end, lossily decoded. A payload shorter than its 8-byte header is an
/// out-of-range failure.
pub open spec fn spec_read_text(data: Seq<u8>, idx: usize, end: usize) -> Result<
    (u32, Seq<char>),
    DecodeError,
> {
    if end < 8 {
        Err(DecodeError::OutOfRange { tag_offset: idx, available: end })
    } else {
        Ok(
            (
                be_u32(data.subrange(idx as int, idx as int + 4)) as u32,
                utf8_lossy(data.subrange(idx as int + 8, idx as int + end as int)),
            ),
        )
    }
}

/// Decodes a generic text payload: the 4-byte signature, then everything
/// from offset + 8 up to the declared end as lossily-decoded text.
pub fn read_text_type(icc_raw_data: &[u8], idx: usize, end: usize) -> (r: Result<
    (u32, String),
    DecodeError,
>)
    requires
        idx + end <= icc_raw_data@.len(),
    ensures
        r is Ok <==> spec_read_text(icc_raw_data@, idx, end) is Ok,
        r is Err ==> r->Err_0 == spec_read_text(icc_raw_data@, idx, end)->Err_0,
        r is Ok ==> r->Ok_0.0 == spec_read_text(icc_raw_data@, idx, end)->Ok_0.0
            && r->Ok_0.1@ == spec_read_text(icc_raw_data@, idx, end)->Ok_0.1,
{
    if end < 8 {
        return Err(DecodeError::OutOfRange { tag_offset: idx, available: end });
    }
    let n = icc_raw_data.len();
    assert(idx + end <= n);
    let sig = be32_at(icc_raw_data, idx);
    let text = utf8_lossy_decode(slice_subrange(icc_raw_data, idx + 8, idx + end));
    Ok((sig, text))
}

/// The declared length of the ASCII part of a textDescription payload.
pub open spec fn td_ascii_len(data: Seq<u8>, idx: usize) -> int {
    be_u32(data.subrange(idx as int + 8, idx as int + 12))
}

/// The first byte after a textDescription payload's ASCII part, where its
/// UTF-16 part's language code begins.
pub open spec fn td_base(data: Seq<u8>, idx: usize) -> int {
    idx as int + 12 + td_ascii_len(data, idx)
}

/// The declared UTF-16 character count of a textDescription payload,
/// including the trailing terminator.
pub open spec fn td_utf_len(data: Seq<u8>, idx: usize) -> int {
    be_u32(data.subrange(td_base(data, idx) + 4, td_base(data, idx) + 8))
}

/// The code units of a textDescription payload's UTF-16 part, without the
/// trailing terminator: they start 2 bytes after the character count field.
pub open spec fn td_utf_units(data: Seq<u8>, idx: usize) -> Seq<u16> {
    utf16_units(data.subrange(td_base(data, idx) + 10, td_base(data, idx) + 6 + 2 * td_utf_len(data, idx)))
}

/// What decoding a textDescription payload at `idx` yields: the ASCII part
/// lossily decoded, and the UTF-16 part's Unicode scalar values. Every
/// declared length is checked against the buffer end; a malformed UTF-16
/// sequence is a failure of its own. A declared character count under 2
/// (nothing besides the terminator) yields empty UTF-16 text.
pub open spec fn spec_read_text_desc(data: Seq<u8>, idx: usize) -> Result<
    (Seq<char>, Seq<u32>),
    DecodeError,
> {
    let len = data.len() as int;
    if idx as int + 12 > len {
        Err(DecodeError::OutOfRange { tag_offset: idx, available: data.len() as usize })
    } else if idx as int + 12 + td_ascii_len(data, idx) > len {
        Err(DecodeError::OutOfRange { tag_offset: idx, available: data.len() as usize })
    } else if td_base(data, idx) + 8 > len {
        Err(DecodeError::OutOfRange { tag_offset: idx, available: data.len() as usize })
    } else if td_base(data, idx) + 8 + 2 * td_utf_len(data, idx) > len {
        Err(DecodeError::OutOfRange { tag_offset: idx, available: data.len() as usize })
    } else {
        let ascii = utf8_lossy(
            data.subrange(idx as int + 12, idx as int + 12 + td_ascii_len(data, idx)),
        );
        if td_utf_len(data, idx) < 2 {
            Ok((ascii, Seq::empty()))
        } else {
            match utf16_scalars(td_utf_units(data, idx)) {
                Some(scalars) => Ok((ascii, scalars)),
                None => Err(DecodeError::MalformedText),
            }
        }
    }
}

/// Decodes a textDescription payload: a 4-byte signature and reserved field
/// (skipped), a length-prefixed ASCII description, then a language code
/// (ignored), a UTF-16 character count, and that many code units starting 2
/// bytes past the count, the trailing terminator dropped. Returns the pair
/// of decoded strings.
pub fn read_text_desc_type(icc_raw_data: &[u8], idx: usize) -> (r: Result<
    (String, String),
    DecodeError,
>)
    ensures
        r is Ok <==> spec_read_text_desc(icc_raw_data@, idx) is Ok,
        r is Err ==> r->Err_0 == spec_read_text_desc(icc_raw_data@, idx)->Err_0,
        r is Ok ==> r->Ok_0.0@ == spec_read_text_desc(icc_raw_data@, idx)->Ok_0.0
            && r->Ok_0.1@.map_values(|c: char| c as u32) == spec_read_text_desc(
            icc_raw_data@,
            idx,
        )->Ok_0.1,
{
    let len = icc_raw_data.len();
    if len < 12 || idx > len - 12 {
        return Err(DecodeError::OutOfRange { tag_offset: idx, available: len });
    }
    let ascii_size = be32_at(icc_raw_data, idx + 8) as usize;
    if ascii_size > len - 12 - idx {
        return Err(DecodeError::OutOfRange { tag_offset: idx, available: len });
    }
    let base = idx + 12 + ascii_size;
    let ascii_desc = utf8_lossy_decode(slice_subrange(icc_raw_data, idx + 12, base));
    if len - base < 8 {
        return Err(DecodeError::OutOfRange { tag_offset: idx, available: len });
    }
    let utf_size = be32_at(icc_raw_data, base + 4) as usize;
    if (utf_size as u64) * 2 > (len - base - 8) as u64 {
        return Err(DecodeError::OutOfRange { tag_offset: idx, available: len });
    }
    if utf_size < 2 {
        let utf_desc = String::new();
        assert(utf_desc@.map_values(|c: char| c as u32) =~= Seq::<u32>::empty());
        return Ok((ascii_desc, utf_desc));
    }
    let units = slice_subrange(icc_raw_data, base + 10, base + 6 + 2 * utf_size);
    proof {
        assert(units@ == icc_raw_data@.subrange(
            td_base(icc_raw_data@, idx) + 10,
            td_base(icc_raw_data@, idx) + 6 + 2 * td_utf_len(icc_raw_data@, idx),
        ));
    }
    match read_utf16(units) {
        Some(utf_desc) => Ok((ascii_desc, utf_desc)),
        None => Err(DecodeError::MalformedText),
    }
}

/// What decoding an XYZ payload yields: the signature and three fixed-point
/// raw values scaled by 100 in 32-bit wrapping arithmetic. A payload whose
/// span past the 8-byte header is under 12 bytes is rejected as not long
/// enough.
pub open spec fn spec_read_xyz(data: Seq<u8>, idx: usize, end: usize) -> Result<
    (u32, Seq<int>),
    DecodeError,
> {
    if end < 20 {
        Err(DecodeError::NotLongEnough { available: end })
    } else {
        Ok(
            (
                be_u32(data.subrange(idx as int, idx as int + 4)) as u32,
                Seq::new(
                    3,
                    |c: int|
                        wrap_i32(
                            be_s15f16(
                                data.subrange(idx as int + 8 + 4 * c, idx as int + 12 + 4 * c),
                            ) * 100,
                        ),
                ),
            ),
        )
    }
}

/// Builds a tristimulus triple from three 4-byte big-endian fixed-point
/// encodings, each value scaled by 100 for display-range interoperability.
/// A slice of the wrong length is a length-mismatch error.
pub fn new_xyz(x: &[u8], y: &[u8], z: &[u8]) -> (r: Result<XYZNumber, DecodeError>)
    ensures
        r is Ok <==> (x@.len() == 4 && y@.len() == 4 && z@.len() == 4),
        r is Ok ==> r->Ok_0@[0].raw as int == wrap_i32(be_s15f16(x@) * 100) && r->Ok_0@[1].raw
            as int == wrap_i32(be_s15f16(y@) * 100) && r->Ok_0@[2].raw as int == wrap_i32(
            be_s15f16(z@) * 100,
        ),
        r is Err ==> r->Err_0 == (if x@.len() != 4 {
            DecodeError::LengthMismatch { expected: 4, got: x@.len() as usize }
        } else if y@.len() != 4 {
            DecodeError::LengthMismatch { expected: 4, got: y@.len() as usize }
        } else {
            DecodeError::LengthMismatch { expected: 4, got: z@.len() as usize }
        }),
{
    let fx = match bytes_to_sf32(x) {
        Ok(f) => f,
        Err(e) => {
            return Err(e);
        },
    };
    let fy = match bytes_to_sf32(y) {
        Ok(f) => f,
        Err(e) => {
            return Err(e);
        },
    };
    let fz = match bytes_to_sf32(z) {
        Ok(f) => f,
        Err(e) => {
            return Err(e);
        },
    };
    Ok([fx.times(100), fy.times(100), fz.times(100)])
}

/// Decodes an XYZ payload: the 4-byte signature, then three consecutive
/// 4-byte fixed-point values starting at offset + 8, each scaled by 100.
pub fn read_xyz_type(icc_raw_data: &[u8], idx: usize, end: usize) -> (r: Result<
    (u32, XYZNumber),
    DecodeError,
>)
    requires
        idx + end <= icc_raw_data@.len(),
    ensures
        r is Ok <==> spec_read_xyz(icc_raw_data@, idx, end) is Ok,
        r is Err ==> r->Err_0 == spec_read_xyz(icc_raw_data@, idx, end)->Err_0,
        r is Ok ==> r->Ok_0.0 == spec_read_xyz(icc_raw_data@, idx, end)->Ok_0.0 && forall|c: int|
            0 <= c < 3 ==> r->Ok_0.1@[c].raw as int == spec_read_xyz(
                icc_raw_data@,
                idx,
                end,
            )->Ok_0.1[c],
{
    if end < 20 {
        return Err(DecodeError::NotLongEnough { available: end });
    }
    let n = icc_raw_data.len();
    assert(idx + 20 <= n);
    let sig = be32_at(icc_raw_data, idx);
    let x = slice_subrange(icc_raw_data, idx + 8, idx + 12);
    let y = slice_subrange(icc_raw_data, idx + 12, idx + 16);
    let z = slice_subrange(icc_raw_data, idx + 16, idx + 20);
    match new_xyz(x, y, z) {
        Ok(v) => Ok((sig, v)),
        Err(e) => Err(e),
    }
}

/// How many offset/length fields a dictionary entry of the given element
/// size holds: the base name/value quadruple, extended by a display-name
/// pair past 16 bytes and a display-value pair past 24.
pub open spec fn dict_field_count(elem: int) -> int {
    if elem == 16 {
        4
    } else if elem == 24 {
        6
    } else {
        8
    }
}

/// The offset/length fields parsed out of one dictionary entry header:
/// name offset, name length, value offset, value length, then the
/// display-name and display-value pairs the element size allows.
pub open spec fn extract_fields_spec(b: Seq<u8>, elem: int) -> Seq<usize> {
    Seq::new(
        dict_field_count(elem) as nat,
        |j: int| be_u32(b.subrange(4 * j, 4 * j + 4)) as usize,
    )
}

/// Parses a dictionary entry header of `elem_size` bytes (16, 24 or 32)
/// into its 4, 6 or 8 big-endian offset/length fields, in table order. Any
/// other element size, or a slice too short for the fields it implies, is
/// rejected.
pub fn extract_key_value(tag_dict: &[u8], elem_size: usize) -> (r: Result<Vec<usize>, DecodeError>)
    ensures
        r is Ok <==> ((elem_size == 16 || elem_size == 24 || elem_size == 32) && tag_dict@.len()
            >= elem_size),
        r is Ok ==> r->Ok_0@ == extract_fields_spec(tag_dict@, elem_size as int),
        r is Err ==> r->Err_0 == (if elem_size != 16 && elem_size != 24 && elem_size != 32 {
            DecodeError::BadElementSize { element_size: elem_size }
        } else {
            DecodeError::LengthMismatch { expected: elem_size, got: tag_dict@.len() as usize }
        }),
{
    if elem_size != 16 && elem_size != 24 && elem_size != 32 {
        return Err(DecodeError::BadElementSize { element_size: elem_size });
    }
    if tag_dict.len() < elem_size {
        return Err(DecodeError::LengthMismatch { expected: elem_size, got: tag_dict.len() });
    }
    let nf = elem_size / 4;
    let mut fields: Vec<usize> = Vec::new();
    let mut j: usize = 0;
    while j < nf
        invariant
            nf == dict_field_count(elem_size as int),
            4 * nf <= tag_dict@.len(),
            tag_dict@.len() <= usize::MAX,
            j <= nf,
            fields@.len() == j,
            forall|t: int|
                0 <= t < j ==> fields@[t] == be_u32(tag_dict@.subrange(4 * t, 4 * t + 4)) as usize,
        decreases nf - j,
    {
        fields.push(be32_at(tag_dict, 4 * j) as usize);
        j = j + 1;
    }
    assert(fields@ =~= extract_fields_spec(tag_dict@, elem_size as int));
    Ok(fields)
}

/// What one offset/length group of a dictionary entry yields: the name and
/// value byte ranges, relative to the dictionary payload start, lossily
/// decoded. A range that reaches past the payload end is a failure.
pub open spec fn spec_dict_group(data: Seq<u8>, idx: usize, size: usize, off: int) -> Result<
    (Seq<char>, Seq<char>),
    DecodeError,
> {
    let name_off = be_u32(data.subrange(idx + off, idx + off + 4));
    let name_len = be_u32(data.subrange(idx + off + 4, idx + off + 8));
    let val_off = be_u32(data.subrange(idx + off + 8, idx + off + 12));
    let val_len = be_u32(data.subrange(idx + off + 12, idx + off + 16));
    if name_off + name_len > size || val_off + val_len > size {
        Err(DecodeError::OutOfRange { tag_offset: idx, available: size })
    } else {
        Ok(
            (
                utf8_lossy(data.subrange(idx + name_off, idx + name_off + name_len)),
                utf8_lossy(data.subrange(idx + val_off, idx + val_off + val_len)),
            ),
        )
    }
}

/// What the entries of a dictionary payload from entry `i` on yield: each
/// entry's base (name, value) pair, and for a 32-byte element size also its
/// (display-name, display-value) pair, in table order. The first failing
/// bounds check stops the decode.
pub open spec fn spec_dict_entries(
    data: Seq<u8>,
    idx: usize,
    size: usize,
    elem: usize,
    count: int,
    i: int,
) -> Result<Seq<(Seq<char>, Seq<char>)>, DecodeError>
    decreases count - i,
{
    if i >= count {
        Ok(Seq::empty())
    } else if 16 + 16 * i + elem > size {
        Err(DecodeError::OutOfRange { tag_offset: idx, available: size })
    } else {
        match spec_dict_group(data, idx, size, 16 + 16 * i) {
            Err(e) => Err(e),
            Ok(p0) => {
                if elem == 32 {
                    match spec_dict_group(data, idx, size, 16 + 16 * i + 16) {
                        Err(e) => Err(e),
                        Ok(p1) => match spec_dict_entries(data, idx, size, elem, count, i + 1) {
                            Err(e) => Err(e),
                            Ok(rest) => Ok(seq![p0, p1] + rest),
                        },
                    }
                } else {
                    match spec_dict_entries(data, idx, size, elem, count, i + 1) {
                        Err(e) => Err(e),
                        Ok(rest) => Ok(seq![p0] + rest),
                    }
                }
            },
        }
    }
}

/// What decoding a whole dictionary payload yields: the signature and the
/// decoded pairs of every entry. A payload under 16 bytes, or an element
/// size other than 16, 24 or 32, is rejected before any entry is read.
pub open spec fn spec_read_dict(data: Seq<u8>, idx: usize, size: usize) -> Result<
    (u32, Seq<(Seq<char>, Seq<char>)>),
    DecodeError,
> {
    if size < 16 {
        Err(DecodeError::OutOfRange { tag_offset: idx, available: size })
    } else {
        let count = be_u32(data.subrange(idx as int + 8, idx as int + 12));
        let elem = be_u32(data.subrange(idx as int + 12, idx as int + 16));
        if elem != 16 && elem != 24 && elem != 32 {
            Err(DecodeError::BadElementSize { element_size: elem as usize })
        } else {
            match spec_dict_entries(data, idx, size, elem as usize, count, 0) {
                Err(e) => Err(e),
                Ok(pairs) => Ok(
                    (be_u32(data.subrange(idx as int, idx as int + 4)) as u32, pairs),
                ),
            }
        }
    }
}

/// The mathematical view of a vector of decoded string pairs.
pub open spec fn pairs_view(v: Seq<(String, String)>) -> Seq<(Seq<char>, Seq<char>)> {
    v.map_values(|p: (String, String)| (p.0@, p.1@))
}

/// Reads the name and value of one offset/length group of a dictionary
/// entry whose header starts `off` bytes into the payload.
fn read_dict_group(icc_raw_data: &[u8], idx: usize, size: usize, off: usize) -> (r: Result<
    (String, String),
    DecodeError,
>)
    requires
        idx + size <= icc_raw_data@.len(),
        off + 16 <= size,
    ensures
        r is Ok <==> spec_dict_group(icc_raw_data@, idx, size, off as int) is Ok,
        r is Err ==> r->Err_0 == spec_dict_group(icc_raw_data@, idx, size, off as int)->Err_0,
        r is Ok ==> (r->Ok_0.0@, r->Ok_0.1@) == spec_dict_group(
            icc_raw_data@,
            idx,
            size,
            off as int,
        )->Ok_0,
{
    let n = icc_raw_data.len();
    assert(idx + size <= n);
    let name_off = be32_at(icc_raw_data, idx + off) as usize;
    let name_len = be32_at(icc_raw_data, idx + off + 4) as usize;
    let val_off = be32_at(icc_raw_data, idx + off + 8) as usize;
    let val_len = be32_at(icc_raw_data, idx + off + 12) as usize;
    if (name_off as u64) + (name_len as u64) > (size as u64) || (val_off as u64) + (val_len as u64)
        > (size as u64) {
        return Err(DecodeError::OutOfRange { tag_offset: idx, available: size });
    }
    let name = utf8_lossy_decode(
        slice_subrange(icc_raw_data, idx + name_off, idx + name_off + name_len),
    );
    let value = utf8_lossy_decode(
        slice_subrange(icc_raw_data, idx + val_off, idx + val_off + val_len),
    );
    Ok((name, value))
}

/// Decodes a dictType payload: the 4-byte signature, a 4-byte entry count
/// at offset + 8 and element size at offset + 12, then one 16-byte-strided
/// entry header per entry. Each entry yields its (name, value) pair, and
/// with a 32-byte element size also its (display-name, display-value) pair,
/// in table order; keys need not be unique.
#[verifier::rlimit(100)]
pub fn read_dict_type(icc_raw_data: &[u8], idx: usize, size: usize) -> (r: Result<
    (u32, Vec<(String, String)>),
    DecodeError,
>)
    requires
        idx + size <= icc_raw_data@.len(),
    ensures
        r is Ok <==> spec_read_dict(icc_raw_data@, idx, size) is Ok,
        r is Err ==> r->Err_0 == spec_read_dict(icc_raw_data@, idx, size)->Err_0,
        r is Ok ==> r->Ok_0.0 == spec_read_dict(icc_raw_data@, idx, size)->Ok_0.0 && pairs_view(
            r->Ok_0.1@,
        ) == spec_read_dict(icc_raw_data@, idx, size)->Ok_0.1,
{
    let ghost d = icc_raw_data@;
    if size < 16 {
        return Err(DecodeError::OutOfRange { tag_offset: idx, available: size });
    }
    let n = icc_raw_data.len();
    assert(idx + size <= n);
    let dict_sig = be32_at(icc_raw_data, idx);
    let count = be32_at(icc_raw_data, idx + 8) as usize;
    let elem = be32_at(icc_raw_data, idx + 12) as usize;
    if elem != 16 && elem != 24 && elem != 32 {
        return Err(DecodeError::BadElementSize { element_size: elem });
    }
    let mut dict_str: Vec<(String, String)> = Vec::new();
    let mut i: usize = 0;
    proof {
        assert(pairs_view(dict_str@) =~= Seq::<(Seq<char>, Seq<char>)>::empty());
    }
    while i < count
        invariant
            idx + size <= d.len(),
            d.len() <= usize::MAX,
            d == icc_raw_data@,
            16 <= size,
            elem == 16 || elem == 24 || elem == 32,
            count as int == be_u32(d.subrange(idx as int + 8, idx as int + 12)),
            elem as int == be_u32(d.subrange(idx as int + 12, idx as int + 16)),
            count < 0x1_0000_0000,
            i <= count,
            spec_dict_entries(d, idx, size, elem, count as int, 0) is Ok <==> spec_dict_entries(
                d,
                idx,
                size,
                elem,
                count as int,
                i as int,
            ) is Ok,
            spec_dict_entries(d, idx, size, elem, count as int, i as int) is Ok
                ==> spec_dict_entries(d, idx, size, elem, count as int, 0)->Ok_0 == pairs_view(
                dict_str@,
            ) + spec_dict_entries(d, idx, size, elem, count as int, i as int)->Ok_0,
            spec_dict_entries(d, idx, size, elem, count as int, i as int) is Err
                ==> spec_dict_entries(d, idx, size, elem, count as int, 0)->Err_0
                == spec_dict_entries(d, idx, size, elem, count as int, i as int)->Err_0,
        decreases count - i,
    {
        let ghost prev = dict_str@;
        let ghost k = i as int;
        if 16u64 + 16u64 * (i as u64) + (elem as u64) > (size as u64) {
            proof {
                assert(spec_dict_entries(d, idx, size, elem, count as int, k) == Err::<
                    Seq<(Seq<char>, Seq<char>)>,
                    DecodeError,
                >(DecodeError::OutOfRange { tag_offset: idx, available: size }));
            }
            return Err(DecodeError::OutOfRange { tag_offset: idx, available: size });
        }
        let entry_off = 16 + 16 * i;
        let p0 = match read_dict_group(icc_raw_data, idx, size, entry_off) {
            Ok(p) => p,
            Err(e) => {
                proof {
                    assert(spec_dict_entries(d, idx, size, elem, count as int, k) == Err::<
                        Seq<(Seq<char>, Seq<char>)>,
                        DecodeError,
                    >(e));
                }
                return Err(e);
            },
        };
        dict_str.push(p0);
        if elem == 32 {
            let p1 = match read_dict_group(icc_raw_data, idx, size, entry_off + 16) {
                Ok(p) => p,
                Err(e) => {
                    proof {
                        assert(spec_dict_entries(d, idx, size, elem, count as int, k) == Err::<
                            Seq<(Seq<char>, Seq<char>)>,
                            DecodeError,
                        >(e));
                    }
                    return Err(e);
                },
            };
            dict_str.push(p1);
            proof {
                let p0v = spec_dict_group(d, idx, size, 16 + 16 * k)->Ok_0;
                let p1v = spec_dict_group(d, idx, size, 16 + 16 * k + 16)->Ok_0;
                let rest = spec_dict_entries(d, idx, size, elem, count as int, k + 1);
                assert(spec_dict_entries(d, idx, size, elem, count as int, k) == (match rest {
                    Err(e) => Err::<Seq<(Seq<char>, Seq<char>)>, DecodeError>(e),
                    Ok(rs) => Ok(seq![p0v, p1v] + rs),
                }));
                assert(pairs_view(dict_str@) =~= pairs_view(prev) + seq![p0v, p1v]);
                if rest is Ok {
                    assert(pairs_view(prev) + (seq![p0v, p1v] + rest->Ok_0) =~= pairs_view(
                        dict_str@,
                    ) + rest->Ok_0);
                }
            }
        } else {
            proof {
                let p0v = spec_dict_group(d, idx, size, 16 + 16 * k)->Ok_0;
                let rest = spec_dict_entries(d, idx, size, elem, count as int, k + 1);
                assert(spec_dict_entries(d, idx, size, elem, count as int, k) == (match rest {
                    Err(e) => Err::<Seq<(Seq<char>, Seq<char>)>, DecodeError>(e),
                    Ok(rs) => Ok(seq![p0v] + rs),
                }));
                assert(pairs_view(dict_str@) =~= pairs_view(prev) + seq![p0v]);
                if rest is Ok {
                    assert(pairs_view(prev) + (seq![p0v] + rest->Ok_0) =~= pairs_view(dict_str@)
                        + rest->Ok_0);
                }
            }
        }
        i = i + 1;
    }
    proof {
        if spec_dict_entries(d, idx, size, elem, count as int, count as int) is Ok {
            assert(spec_dict_entries(d, idx, size, elem, count as int, 0)->Ok_0 =~= pairs_view(
                dict_str@,
            ));
        }
    }
    Ok((dict_sig, dict_str))
}

/// What decoding an s15Fixed16Array payload yields: the signature and one
/// fixed-point raw value per complete 4-byte chunk between offset + 8 and
/// the payload end; trailing bytes short of a full chunk are never read.
pub open spec fn spec_read_sf32(data: Seq<u8>, idx: usize, size: usize) -> Result<
    (u32, Seq<int>),
    DecodeError,
> {
    if size < 4 {
        Err(DecodeError::OutOfRange { tag_offset: idx, available: size })
    } else {
        Ok(
            (
                be_u32(data.subrange(idx as int, idx as int + 4)) as u32,
                Seq::new(
                    sf32_count(size),
                    |k: int|
                        be_s15f16(data.subrange(idx as int + 8 + 4 * k, idx as int + 12 + 4 * k)),
                ),
            ),
        )
    }
}

/// The number of complete 4-byte chunks between a payload's 8-byte header
/// and its end.
pub open spec fn sf32_count(size: usize) -> nat {
    if size >= 8 {
        ((size - 8) / 4) as nat
    } else {
        0
    }
}

/// Decodes an s15Fixed16Array payload: the 4-byte signature, then a scan of
/// 4-byte fixed-point chunks from offset + 8 to the payload end, stopping at
/// the last complete chunk.
pub fn read_sf32_type(icc_raw_data: &[u8], idx: usize, size: usize) -> (r: Result<
    (u32, S15Fixed16Array),
    DecodeError,
>)
    requires
        idx + size <= icc_raw_data@.len(),
    ensures
        r is Ok <==> spec_read_sf32(icc_raw_data@, idx, size) is Ok,
        r is Err ==> r->Err_0 == spec_read_sf32(icc_raw_data@, idx, size)->Err_0,
        r is Ok ==> r->Ok_0.0 == spec_read_sf32(icc_raw_data@, idx, size)->Ok_0.0
            && r->Ok_0.1@.len() == sf32_count(size) && forall|k: int|
            0 <= k < sf32_count(size) ==> r->Ok_0.1@[k].raw as int == spec_read_sf32(
                icc_raw_data@,
                idx,
                size,
            )->Ok_0.1[k],
{
    if size < 4 {
        return Err(DecodeError::OutOfRange { tag_offset: idx, available: size });
    }
    let n = icc_raw_data.len();
    assert(idx + size <= n);
    let sig = be32_at(icc_raw_data, idx);
    let mut sf32: S15Fixed16Array = Vec::new();
    if size >= 8 {
        let count = (size - 8) / 4;
        let mut k: usize = 0;
        while k < count
            invariant
                count == sf32_count(size),
                idx + size <= icc_raw_data@.len(),
                icc_raw_data@.len() <= usize::MAX,
                size >= 8,
                8 + 4 * count <= size,
                k <= count,
                sf32@.len() == k,
                forall|j: int|
                    0 <= j < k ==> sf32@[j].raw as int == be_s15f16(
                        icc_raw_data@.subrange(idx as int + 8 + 4 * j, idx as int + 12 + 4 * j),
                    ),
            decreases count - k,
        {
            let f = s15f16_at(icc_raw_data, idx + 8 + 4 * k);
            sf32.push(f);
            k = k + 1;
        }
    }
    Ok((sig, sf32))
}

/// One channel of a ramp-variant gamma table: `entries` consecutive 2-byte
/// big-endian samples, the three channel blocks (red, green, blue) laid out
/// one after another right after the payload's 18-byte prefix.
pub open spec fn vcgt_channel(data: Seq<u8>, idx: int, entries: int, chan: int) -> Seq<u16> {
    Seq::new(
        entries as nat,
        |e: int|
            be_u16(
                data.subrange(
                    idx + 18 + 2 * entries * chan + 2 * e,
                    idx + 18 + 2 * entries * chan + 2 * e + 2,
                ),
            ) as u16,
    )
}

/// The smallest value of a sequence of 16-bit samples, starting from the
/// largest possible sample (the value of an empty scan).
pub open spec fn seq_min_u16(s: Seq<u16>) -> u16
    decreases s.len(),
{
    if s.len() == 0 {
        0xFFFF
    } else {
        let m = seq_min_u16(s.drop_last());
        if s.last() < m {
            s.last()
        } else {
            m
        }
    }
}

/// The largest value of a sequence of 16-bit samples, starting from zero
/// (the value of an empty scan).
pub open spec fn seq_max_u16(s: Seq<u16>) -> u16
    decreases s.len(),
{
    if s.len() == 0 {
        0
    } else {
        let m = seq_max_u16(s.drop_last());
        if s.last() > m {
            s.last()
        } else {
            m
        }
    }
}

/// A 16-bit sample as a fixed-point percentage of the full 16-bit range:
/// `v * 100 / 65535`, carried out at the 16.16 scale in integer arithmetic.
pub open spec fn pct_raw(v: int) -> int {
    (v * 6553600) / 65535
}

/// The distance between two samples, whichever is larger.
pub open spec fn u16_spread(a: int, b: int) -> int {
    if a >= b {
        a - b
    } else {
        b - a
    }
}

/// Converts a 16-bit sample to a fixed-point percentage of the 16-bit
/// range, exact at both endpoints: 0 maps to 0% and 65535 to 100%.
pub fn pct_of_u16(v: u16) -> (r: S15Fixed16Number)
    ensures
        r.raw as int == pct_raw(v as int),
{
    let raw_u: u64 = ((v as u64) * 6553600) / 65535;
    proof {
        vstd::arithmetic::div_mod::lemma_div_is_ordered(
            (v as int) * 6553600,
            65535int * 6553600,
            65535,
        );
        vstd::arithmetic::div_mod::lemma_div_multiples_vanish(6553600, 65535);
    }
    S15Fixed16Number { raw: raw_u as i32 }
}

/// Which shape a video-card gamma payload takes, or why it is rejected:
/// `Ok(true)` is a well-formed ramp variant, `Ok(false)` a recognized
/// formula variant (which yields no structured result), and every other
/// payload fails with the check that rejected it.
pub open spec fn spec_vcgt_check(data: Seq<u8>, idx: usize, size: usize) -> Result<
    bool,
    DecodeError,
> {
    if size < 4 {
        Err(DecodeError::OutOfRange { tag_offset: idx, available: size })
    } else if be_u32(data.subrange(idx as int, idx as int + 4)) != 0x76636774 {
        Err(
            DecodeError::BadSignature {
                found: be_u32(data.subrange(idx as int, idx as int + 4)) as u32,
            },
        )
    } else if size < 12 {
        Err(DecodeError::OutOfRange { tag_offset: idx, available: size })
    } else {
        let gamma_type = be_u32(data.subrange(idx as int + 8, idx as int + 12));
        if gamma_type == 0 {
            if size < 18 {
                Err(DecodeError::OutOfRange { tag_offset: idx, available: size })
            } else {
                let channels = be_u16(data.subrange(idx as int + 12, idx as int + 14));
                let entries = be_u16(data.subrange(idx as int + 14, idx as int + 16));
                let width = be_u16(data.subrange(idx as int + 16, idx as int + 18));
                if channels != 3 {
                    Err(DecodeError::BadChannelCount { channels: channels as usize })
                } else if width != 2 {
                    Err(DecodeError::BadEntryWidth { bits: (width * 8) as usize })
                } else if size < 18 + 6 * entries {
                    Err(DecodeError::OutOfRange { tag_offset: idx, available: size })
                } else {
                    Ok(true)
                }
            }
        } else if gamma_type == 1 {
            if size < 24 {
                Err(DecodeError::OutOfRange { tag_offset: idx, available: size })
            } else {
                Ok(false)
            }
        } else {
            Err(DecodeError::UnknownGammaType { found: gamma_type as u32 })
        }
    }
}

/// What a decoded ramp-variant gamma table holds: the three channel ramps
/// exactly as laid out in the payload, the per-channel minimum and maximum
/// as fixed-point percentages, the declared entry count, and the
/// low-contrast warning flag, raised when every channel's spread is below
/// 5% of the 16-bit range.
pub open spec fn vcgt_matches(v: Vcgt, data: Seq<u8>, idx: usize) -> bool {
    let entries = be_u16(data.subrange(idx as int + 14, idx as int + 16));
    let chan_r = vcgt_channel(data, idx as int, entries, 0);
    let chan_g = vcgt_channel(data, idx as int, entries, 1);
    let chan_b = vcgt_channel(data, idx as int, entries, 2);
    &&& v.sig == 0x76636774
    &&& v.channels_num == 3
    &&& v.entries_num == entries
    &&& v.bitdepth == 16
    &&& v.red_ramp@ == chan_r
    &&& v.green_ramp@ == chan_g
    &&& v.blue_ramp@ == chan_b
    &&& v.max_percent@[0].raw as int == pct_raw(seq_max_u16(chan_r) as int)
    &&& v.max_percent@[1].raw as int == pct_raw(seq_max_u16(chan_g) as int)
    &&& v.max_percent@[2].raw as int == pct_raw(seq_max_u16(chan_b) as int)
    &&& v.min_percent@[0].raw as int == pct_raw(seq_min_u16(chan_r) as int)
    &&& v.min_percent@[1].raw as int == pct_raw(seq_min_u16(chan_g) as int)
    &&& v.min_percent@[2].raw as int == pct_raw(seq_min_u16(chan_b) as int)
    &&& v.low_contrast == (u16_spread(seq_max_u16(chan_r) as int, seq_min_u16(chan_r) as int)
        < 3276 && u16_spread(seq_max_u16(chan_g) as int, seq_min_u16(chan_g) as int) < 3276
        && u16_spread(seq_max_u16(chan_b) as int, seq_min_u16(chan_b) as int) < 3276)
}

/// Decodes a vcgtType payload, branching on the sub-type discriminant at
/// offset + 8: discriminant 0 is a sampled ramp table, fully decoded with
/// derived per-channel statistics; discriminant 1 is the formula variant,
/// recognized but yielding no structured result (`Ok(None)`); anything else
/// fails with an unknown-gamma-type error.
#[verifier::rlimit(100)]
pub fn read_vcgt_type(icc_raw_data: &[u8], idx: usize, size: usize) -> (r: Result<
    Option<Vcgt>,
    DecodeError,
>)
    requires
        idx + size <= icc_raw_data@.len(),
    ensures
        r is Ok <==> spec_vcgt_check(icc_raw_data@, idx, size) is Ok,
        r is Err ==> r->Err_0 == spec_vcgt_check(icc_raw_data@, idx, size)->Err_0,
        r is Ok ==> ((r->Ok_0 is Some) <==> spec_vcgt_check(icc_raw_data@, idx, size)->Ok_0
            == true),
        (r is Ok && r->Ok_0 is Some) ==> vcgt_matches(r->Ok_0->Some_0, icc_raw_data@, idx),
{
    let ghost d = icc_raw_data@;
    let n = icc_raw_data.len();
    assert(idx + size <= n);
    if size < 4 {
        return Err(DecodeError::OutOfRange { tag_offset: idx, available: size });
    }
    let vcgt_sig = be32_at(icc_raw_data, idx);
    if vcgt_sig != 0x76636774 {
        return Err(DecodeError::BadSignature { found: vcgt_sig });
    }
    if size < 12 {
        return Err(DecodeError::OutOfRange { tag_offset: idx, available: size });
    }
    let gamma_type = be32_at(icc_raw_data, idx + 8);
    if gamma_type == 0 {
        if size < 18 {
            return Err(DecodeError::OutOfRange { tag_offset: idx, available: size });
        }
        let channels_num = be16_at(icc_raw_data, idx + 12) as usize;
        let entries_num = be16_at(icc_raw_data, idx + 14) as usize;
        let entry_size = be16_at(icc_raw_data, idx + 16) as usize;
        if channels_num != 3 {
            return Err(DecodeError::BadChannelCount { channels: channels_num });
        }
        if entry_size != 2 {
            return Err(DecodeError::BadEntryWidth { bits: entry_size * 8 });
        }
        if size < 18 + 6 * entries_num {
            return Err(DecodeError::OutOfRange { tag_offset: idx, available: size });
        }
        let ghost chan_r = vcgt_channel(d, idx as int, entries_num as int, 0);
        let ghost chan_g = vcgt_channel(d, idx as int, entries_num as int, 1);
        let ghost chan_b = vcgt_channel(d, idx as int, entries_num as int, 2);
        let mut r_ramp: Vec<u16> = Vec::new();
        let mut g_ramp: Vec<u16> = Vec::new();
        let mut b_ramp: Vec<u16> = Vec::new();
        let mut r_max: u16 = 0;
        let mut g_max: u16 = 0;
        let mut b_max: u16 = 0;
        let mut r_min: u16 = 0xFFFF;
        let mut g_min: u16 = 0xFFFF;
        let mut b_min: u16 = 0xFFFF;
        let mut e: usize = 0;
        while e < entries_num
            invariant
                d == icc_raw_data@,
                idx + size <= d.len(),
                d.len() <= usize::MAX,
                entries_num <= 0xFFFF,
                18 + 6 * entries_num <= size,
                chan_r == vcgt_channel(d, idx as int, entries_num as int, 0),
                chan_g == vcgt_channel(d, idx as int, entries_num as int, 1),
                chan_b == vcgt_channel(d, idx as int, entries_num as int, 2),
                e <= entries_num,
                r_ramp@.len() == e && g_ramp@.len() == e && b_ramp@.len() == e,
                forall|j: int| 0 <= j < e ==> r_ramp@[j] == chan_r[j],
                forall|j: int| 0 <= j < e ==> g_ramp@[j] == chan_g[j],
                forall|j: int| 0 <= j < e ==> b_ramp@[j] == chan_b[j],
                r_min == seq_min_u16(chan_r.take(e as int)),
                g_min == seq_min_u16(chan_g.take(e as int)),
                b_min == seq_min_u16(chan_b.take(e as int)),
                r_max == seq_max_u16(chan_r.take(e as int)),
                g_max == seq_max_u16(chan_g.take(e as int)),
                b_max == seq_max_u16(chan_b.take(e as int)),
            decreases entries_num - e,
        {
            let r_value = be16_at(icc_raw_data, idx + 18 + 2 * e);
            let g_value = be16_at(icc_raw_data, idx + 18 + 2 * entries_num + 2 * e);
            let b_value = be16_at(icc_raw_data, idx + 18 + 4 * entries_num + 2 * e);
            proof {
                assert(r_value == chan_r[e as int]);
                assert(g_value == chan_g[e as int]);
                assert(b_value == chan_b[e as int]);
            }
            r_ramp.push(r_value);
            g_ramp.push(g_value);
            b_ramp.push(b_value);
            if r_max < r_value {
                r_max = r_value;
            }
            if r_min > r_value {
                r_min = r_value;
            }
            if g_max < g_value {
                g_max = g_value;
            }
            if g_min > g_value {
                g_min = g_value;
            }
            if b_max < b_value {
                b_max = b_value;
            }
            if b_min > b_value {
                b_min = b_value;
            }
            proof {
                assert(chan_r.take(e as int + 1).drop_last() =~= chan_r.take(e as int));
                assert(chan_g.take(e as int + 1).drop_last() =~= chan_g.take(e as int));
                assert(chan_b.take(e as int + 1).drop_last() =~= chan_b.take(e as int));
                assert(chan_r.take(e as int + 1).last() == chan_r[e as int]);
                assert(chan_g.take(e as int + 1).last() == chan_g[e as int]);
                assert(chan_b.take(e as int + 1).last() == chan_b[e as int]);
            }
            e = e + 1;
        }
        proof {
            assert(chan_r.take(entries_num as int) =~= chan_r);
            assert(chan_g.take(entries_num as int) =~= chan_g);
            assert(chan_b.take(entries_num as int) =~= chan_b);
            assert(r_ramp@ =~= chan_r);
            assert(g_ramp@ =~= chan_g);
            assert(b_ramp@ =~= chan_b);
        }
        let r_spread = if r_max >= r_min {
            r_max - r_min
        } else {
            r_min - r_max
        };
        let g_spread = if g_max >= g_min {
            g_max - g_min
        } else {
            g_min - g_max
        };
        let b_spread = if b_max >= b_min {
            b_max - b_min
        } else {
            b_min - b_max
        };
        let low_contrast = r_spread < 3276 && g_spread < 3276 && b_spread < 3276;
        let vcgt = Vcgt {
            sig: vcgt_sig,
            red_ramp: r_ramp,
            green_ramp: g_ramp,
            blue_ramp: b_ramp,
            max_percent: [pct_of_u16(r_max), pct_of_u16(g_max), pct_of_u16(b_max)],
            min_percent: [pct_of_u16(r_min), pct_of_u16(g_min), pct_of_u16(b_min)],
            channels_num,
            entries_num,
            bitdepth: entry_size * 8,
            low_contrast,
        };
        assert(vcgt_matches(vcgt, d, idx));
        Ok(Some(vcgt))
    } else if gamma_type == 1 {
        if size < 24 {
            return Err(DecodeError::OutOfRange { tag_offset: idx, available: size });
        }
        Ok(None)
    } else {
        Err(DecodeError::UnknownGammaType { found: gamma_type })
    }
}

} // verus!
