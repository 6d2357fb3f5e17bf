//! Wire framing of a publish request.
//!
//! The request body is a length-prefixed pair of segments: a 4-byte
//! little-endian length followed by the JSON metadata document, then a 4-byte
//! little-endian length followed by the raw archive bytes. Truncated or
//! over-length prefixes are rejected before anything is parsed.

use vstd::bytes::{spec_u32_from_le_bytes, u32_from_le_bytes};
use vstd::prelude::*;
use vstd::slice::{slice_subrange, slice_to_vec};

use crate::strutil::{dec_str, u64_to_dec};

verus! {

#[derive(Clone, Debug, PartialEq, Eq, Structural)]
pub enum WireError {
    /// Fewer than four bytes remain where a metadata length prefix is owed.
    InvalidMetadataLength,
    /// The declared metadata length overruns the remaining payload.
    MetadataLengthOverrun { declared: u32 },
    /// Fewer than four bytes remain where an archive length prefix is owed.
    InvalidTarballLength,
    /// The declared archive length overruns the remaining payload.
    TarballLengthOverrun { declared: u32 },
}

/// The metadata length declared by the first prefix.
pub open spec fn declared_json_len(b: Seq<u8>) -> int {
    spec_u32_from_le_bytes(b.take(4)) as int
}

/// The archive length declared by the second prefix, which starts right
/// after the metadata segment.
pub open spec fn declared_tarball_len(b: Seq<u8>) -> int {
    spec_u32_from_le_bytes(b.subrange(4 + declared_json_len(b), 8 + declared_json_len(b))) as int
}

/// Whether the body frames two complete segments.
pub open spec fn well_framed(b: Seq<u8>) -> bool {
    &&& b.len() >= 4
    &&& declared_json_len(b) <= b.len() - 4
    &&& b.len() - 8 >= declared_json_len(b)
    &&& declared_tarball_len(b) <= b.len() - 8 - declared_json_len(b)
}

/// The metadata segment of a well-framed body.
pub open spec fn json_segment(b: Seq<u8>) -> Seq<u8> {
    b.subrange(4, 4 + declared_json_len(b))
}

/// The archive segment of a well-framed body.
pub open spec fn tarball_segment(b: Seq<u8>) -> Seq<u8> {
    b.subrange(8 + declared_json_len(b), 8 + declared_json_len(b) + declared_tarball_len(b))
}

/// Splits a publish body into its JSON metadata bytes and its raw archive
/// bytes, rejecting truncated or over-length prefixes.
pub fn split_body(body: &[u8]) -> (r: Result<(Vec<u8>, Vec<u8>), WireError>)
    ensures
        match r {
            Ok((json, tarball)) => {
                &&& well_framed(body@)
                &&& json@ == json_segment(body@)
                &&& tarball@ == tarball_segment(body@)
            },
            Err(WireError::InvalidMetadataLength) => body@.len() < 4,
            Err(WireError::MetadataLengthOverrun { declared }) => {
                &&& body@.len() >= 4
                &&& declared as int == declared_json_len(body@)
                &&& declared as int > body@.len() - 4
            },
            Err(WireError::InvalidTarballLength) => {
                &&& body@.len() >= 4
                &&& declared_json_len(body@) <= body@.len() - 4
                &&& body@.len() - 8 < declared_json_len(body@)
            },
            Err(WireError::TarballLengthOverrun { declared }) => {
                &&& body@.len() >= 8
                &&& declared_json_len(body@) <= body@.len() - 8
                &&& declared as int == declared_tarball_len(body@)
                &&& declared as int > body@.len() - 8 - declared_json_len(body@)
            },
        },
        r is Ok <==> well_framed(body@),
{
    if body.len() < 4 {
        return Err(WireError::InvalidMetadataLength);
    }
    let json_prefix = slice_subrange(body, 0, 4);
    assert(json_prefix@ =~= body@.take(4));
    let json_len_raw = u32_from_le_bytes(json_prefix);
    let json_len = json_len_raw as usize;
    if json_len > body.len() - 4 {
        return Err(WireError::MetadataLengthOverrun { declared: json_len_raw });
    }
    let json = slice_to_vec(slice_subrange(body, 4, 4 + json_len));
    let rest = 4 + json_len;
    if body.len() - rest < 4 {
        return Err(WireError::InvalidTarballLength);
    }
    let tarball_prefix = slice_subrange(body, rest, rest + 4);
    assert(tarball_prefix@ =~= body@.subrange(
        4 + declared_json_len(body@),
        8 + declared_json_len(body@),
    ));
    let tarball_len_raw = u32_from_le_bytes(tarball_prefix);
    let tarball_len = tarball_len_raw as usize;
    if tarball_len > body.len() - rest - 4 {
        return Err(WireError::TarballLengthOverrun { declared: tarball_len_raw });
    }
    let tarball = slice_to_vec(slice_subrange(body, rest + 4, rest + 4 + tarball_len));
    Ok((json, tarball))
}

impl WireError {
    /// The stable human-readable message for the rejection.
    pub open spec fn spec_message(self) -> Seq<char> {
        match self {
            WireError::InvalidMetadataLength => "invalid metadata length"@,
            WireError::MetadataLengthOverrun { declared } => "invalid metadata length for remaining payload: "@
                + dec_str(declared as int),
            WireError::InvalidTarballLength => "invalid tarball length"@,
            WireError::TarballLengthOverrun { declared } => "invalid tarball length for remaining payload: "@
                + dec_str(declared as int),
        }
    }

    pub fn message(&self) -> (r: String)
        ensures
            r@ == self.spec_message(),
    {
        match self {
            WireError::InvalidMetadataLength => String::from_str("invalid metadata length"),
            WireError::MetadataLengthOverrun { declared } => {
                let mut s = String::from_str("invalid metadata length for remaining payload: ");
                s.append(u64_to_dec(*declared as u64).as_str());
                s
            },
            WireError::InvalidTarballLength => String::from_str("invalid tarball length"),
            WireError::TarballLengthOverrun { declared } => {
                let mut s = String::from_str("invalid tarball length for remaining payload: ");
                s.append(u64_to_dec(*declared as u64).as_str());
                s
            },
        }
    }
}

} // verus!
