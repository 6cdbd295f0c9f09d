//! The typed results that the payload decoders produce, and the error type
//! they fail with.

use vstd::prelude::*;
use vstd::string::StringExecFns;

verus! {

/// A signed fixed-point number with 16 integer and 16 fractional bits,
/// backed by a 32-bit signed integer scaled by 65536.
#[derive(Clone, Copy, Debug, PartialEq, Eq, Structural)]
pub struct S15Fixed16Number {
    /// The represented value is `raw` / 65536.
    pub raw: i32,
}

/// The result of wrapping an unbounded integer into the range of `i32`,
/// keeping its residue modulo 2^32.
pub open spec fn wrap_i32(v: int) -> int {
    let m = v % 0x1_0000_0000;
    if m >= 0x8000_0000 {
        m - 0x1_0000_0000
    } else {
        m
    }
}

impl S15Fixed16Number {
    /// The fixed-point number with integer value `n` (and zero fraction).
    pub fn from_num(n: i16) -> (r: Self)
        ensures
            r.raw == n * 0x10000,
    {
        S15Fixed16Number { raw: (n as i32) * 0x10000 }
    }

    /// The product of a fixed-point number and a small integer, in the
    /// integer domain, with the wrapping semantics of 32-bit arithmetic.
    /// Whenever the mathematical product stays within `i32`, the result is
    /// exact.
    pub fn times(self, m: i32) -> (r: Self)
        ensures
            r.raw as int == wrap_i32(self.raw * m),
            i32::MIN <= self.raw * m <= i32::MAX ==> r.raw == self.raw * m,
    {
        proof {
            if i32::MIN <= self.raw * m <= i32::MAX {
                if self.raw * m >= 0 {
                    vstd::arithmetic::div_mod::lemma_small_mod((self.raw * m) as nat,
                        0x1_0000_0000nat);
                } else {
                    vstd::arithmetic::div_mod::lemma_mod_add_multiples_vanish(
                        self.raw * m,
                        0x1_0000_0000,
                    );
                    vstd::arithmetic::div_mod::lemma_small_mod((self.raw * m + 0x1_0000_0000) as nat,
                        0x1_0000_0000nat);
                }
            }
        }
        S15Fixed16Number { raw: self.raw.wrapping_mul(m) }
    }
}

/// A tristimulus triple: fixed-point X, Y and Z values.
pub type XYZNumber = [S15Fixed16Number; 3];

/// An ordered sequence of fixed-point values decoded from one payload.
pub type S15Fixed16Array = Vec<S15Fixed16Number>;

/// A decoded ramp-variant video-card gamma table: one ordered ramp of 16-bit
/// samples per RGB channel, with the per-channel minimum and maximum both as
/// raw samples and as fixed-point percentages of the 16-bit range.
#[derive(Debug)]
pub struct Vcgt {
    /// The payload's 4-byte type signature.
    pub sig: u32,
    /// The red channel's samples, in table order.
    pub red_ramp: Vec<u16>,
    /// The green channel's samples, in table order.
    pub green_ramp: Vec<u16>,
    /// The blue channel's samples, in table order.
    pub blue_ramp: Vec<u16>,
    /// Largest sample of each channel (red, green, blue), as a percentage
    /// of the full 16-bit range.
    pub max_percent: [S15Fixed16Number; 3],
    /// Smallest sample of each channel (red, green, blue), as a percentage
    /// of the full 16-bit range.
    pub min_percent: [S15Fixed16Number; 3],
    /// Number of channels declared by the payload (always 3 once decoded).
    pub channels_num: usize,
    /// Number of samples per channel.
    pub entries_num: usize,
    /// Bits per sample (always 16 once decoded).
    pub bitdepth: usize,
    /// True when every channel's spread between largest and smallest sample
    /// is below 5% of the 16-bit range: a non-fatal warning condition.
    pub low_contrast: bool,
}

/// The ways a payload decode can fail. Every failure is reported to the
/// caller; no decoder panics on corrupt or truncated input.
#[derive(Clone, Copy, Debug, PartialEq, Eq, Structural)]
pub enum DecodeError {
    /// A fixed-width primitive received a slice of the wrong length.
    LengthMismatch { expected: usize, got: usize },
    /// A declared offset or length would push a read past the end of the
    /// buffer or payload; `available` is the number of bytes there were.
    OutOfRange { tag_offset: usize, available: usize },
    /// An XYZ payload too short to hold three fixed-point values.
    NotLongEnough { available: usize },
    /// A video-card gamma payload whose type signature is not `vcgt`.
    BadSignature { found: u32 },
    /// A gamma sub-type discriminant other than 0 (ramp) or 1 (formula).
    UnknownGammaType { found: u32 },
    /// A ramp-variant gamma table with a channel count other than 3.
    BadChannelCount { channels: usize },
    /// A ramp-variant gamma table whose samples are not 16 bits wide;
    /// `bits` is the offending width.
    BadEntryWidth { bits: usize },
    /// A dictionary element size other than 16, 24 or 32 bytes.
    BadElementSize { element_size: usize },
    /// A UTF-16 byte sequence that is not well-formed text.
    MalformedText,
}

/// The text a decode error carries: enough context to say which check
/// failed and on what value.
pub open spec fn spec_message(e: DecodeError) -> Seq<char> {
    match e {
        DecodeError::LengthMismatch { expected, got } => "expected "@ + crate::icc_utils::dec_str(
            expected as int,
        ) + " bytes, got "@ + crate::icc_utils::dec_str(got as int),
        DecodeError::OutOfRange { tag_offset, available } => "tag at offset "@
            + crate::icc_utils::dec_str(tag_offset as int) + " : read past the end of the data ("@
            + crate::icc_utils::dec_str(available as int) + " bytes available)"@,
        DecodeError::NotLongEnough { available } => "Tag is not long enough to contain XYZ values ("@
            + crate::icc_utils::dec_str(available as int) + " bytes)"@,
        DecodeError::BadSignature { found } => "Bad vcgt sig found : "@
            + crate::icc_utils::dec_str(found as int),
        DecodeError::UnknownGammaType { found } => "Gamma type unknown (must be 0 or 1) : "@
            + crate::icc_utils::dec_str(found as int),
        DecodeError::BadChannelCount { channels } => "channel number must be 3 (RGB), found "@
            + crate::icc_utils::dec_str(channels as int),
        DecodeError::BadEntryWidth { bits } => "Bad bitdepth, should be 16 bits, found "@
            + crate::icc_utils::dec_str(bits as int),
        DecodeError::BadElementSize { element_size } => "Bad dictionary element size, should be 16, 24 or 32, found "@
            + crate::icc_utils::dec_str(element_size as int),
        DecodeError::MalformedText => "Unable to read UTF16 string"@,
    }
}

impl DecodeError {
    /// A human-readable description of the failure, naming the offending
    /// value.
    pub fn message(&self) -> (r: String)
        ensures
            r@ == spec_message(*self),
    {
        let mut s = String::new();
        match *self {
            DecodeError::LengthMismatch { expected, got } => {
                s.append("expected ");
                s.append(crate::icc_utils::dec_string(expected as u64).as_str());
                s.append(" bytes, got ");
                s.append(crate::icc_utils::dec_string(got as u64).as_str());
            },
            DecodeError::OutOfRange { tag_offset, available } => {
                s.append("tag at offset ");
                s.append(crate::icc_utils::dec_string(tag_offset as u64).as_str());
                s.append(" : read past the end of the data (");
                s.append(crate::icc_utils::dec_string(available as u64).as_str());
                s.append(" bytes available)");
            },
            DecodeError::NotLongEnough { available } => {
                s.append("Tag is not long enough to contain XYZ values (");
                s.append(crate::icc_utils::dec_string(available as u64).as_str());
                s.append(" bytes)");
            },
            DecodeError::BadSignature { found } => {
                s.append("Bad vcgt sig found : ");
                s.append(crate::icc_utils::dec_string(found as u64).as_str());
            },
            DecodeError::UnknownGammaType { found } => {
                s.append("Gamma type unknown (must be 0 or 1) : ");
                s.append(crate::icc_utils::dec_string(found as u64).as_str());
            },
            DecodeError::BadChannelCount { channels } => {
                s.append("channel number must be 3 (RGB), found ");
                s.append(crate::icc_utils::dec_string(channels as u64).as_str());
            },
            DecodeError::BadEntryWidth { bits } => {
                s.append("Bad bitdepth, should be 16 bits, found ");
                s.append(crate::icc_utils::dec_string(bits as u64).as_str());
            },
            DecodeError::BadElementSize { element_size } => {
                s.append("Bad dictionary element size, should be 16, 24 or 32, found ");
                s.append(crate::icc_utils::dec_string(element_size as u64).as_str());
            },
            DecodeError::MalformedText => {
                s.append("Unable to read UTF16 string");
            },
        }
        assert(s@ =~= spec_message(*self));
        s
    }
}

/// The tag types this engine decodes, keyed by the 4-byte signature of the
/// tag-table entry; `Unknown` is the fallback for every other signature.
#[derive(Clone, Copy, Debug, PartialEq, Eq, Structural)]
pub enum TagKind {
    TextDescription,
    Text,
    Xyz,
    Dict,
    FixedArray,
    Vcgt,
    Unknown,
}

/// The decoder that handles a tag-table signature.
pub open spec fn spec_tag_kind(sig: u32) -> TagKind {
    if sig == 0x64657363 || sig == 0x646D6E64 {
        TagKind::TextDescription
    } else if sig == 0x63707274 || sig == 0x44657644 || sig == 0x43494544 || sig == 0x74617267 {
        TagKind::Text
    } else if sig == 0x77747074 || sig == 0x626B7074 || sig == 0x6C756D69 {
        TagKind::Xyz
    } else if sig == 0x6D657461 {
        TagKind::Dict
    } else if sig == 0x61727473 {
        TagKind::FixedArray
    } else if sig == 0x76636774 {
        TagKind::Vcgt
    } else {
        TagKind::Unknown
    }
}

/// Maps a tag-table signature to the decoder that handles it, with every
/// unrecognized signature falling through to `Unknown`.
pub fn tag_kind_of(sig: u32) -> (r: TagKind)
    ensures
        r == spec_tag_kind(sig),
{
    match sig {
        0x64657363 => TagKind::TextDescription,
        0x646D6E64 => TagKind::TextDescription,
        0x63707274 => TagKind::Text,
        0x44657644 => TagKind::Text,
        0x43494544 => TagKind::Text,
        0x74617267 => TagKind::Text,
        0x77747074 => TagKind::Xyz,
        0x626B7074 => TagKind::Xyz,
        0x6C756D69 => TagKind::Xyz,
        0x6D657461 => TagKind::Dict,
        0x61727473 => TagKind::FixedArray,
        0x76636774 => TagKind::Vcgt,
        _ => TagKind::Unknown,
    }
}

} // verus!
