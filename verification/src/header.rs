//! The header codec: an eight-byte little-endian length, then that many
//! bytes which begin with a JSON value.

use crate::codec::{le_value, u64_from_le};
use crate::json::{json_prefix, parse_json_prefix};
use vstd::prelude::*;
use vstd::slice::slice_subrange;

verus! {

/// A parsed header.
pub struct SafetensorsHeader {
    /// the header data
    pub data: serde_json::Value,
    /// offset of end of header, from start of file
    pub offset_end_of_header: usize,
}

/// Why a container could not be read.
#[derive(Debug)]
pub enum LoadTensorError {
    InvalidHeader { why: String },
    DuplicateTensorName(String),
    OffsetsOutOfBounds { name: String, offsets: (usize, usize) },
}

impl Clone for LoadTensorError {
    fn clone(&self) -> (r: Self)
        ensures
            r == *self,
    {
        match self {
            LoadTensorError::InvalidHeader { why } => LoadTensorError::InvalidHeader {
                why: why.clone(),
            },
            LoadTensorError::DuplicateTensorName(name) => LoadTensorError::DuplicateTensorName(
                name.clone(),
            ),
            LoadTensorError::OffsetsOutOfBounds { name, offsets } => {
                LoadTensorError::OffsetsOutOfBounds {
                    name: name.clone(),
                    offsets: (offsets.0, offsets.1),
                }
            },
        }
    }
}

/// Length of the length prefix.
pub const PREFIX_LEN: usize = 8;

/// The header length that the first eight bytes declare.
pub open spec fn declared_len(bytes: Seq<u8>) -> nat
    recommends
        bytes.len() >= 8,
{
    le_value(bytes.subrange(0, 8))
}

/// Whether the bytes hold the length prefix and the whole region that it
/// declares.
pub open spec fn header_region_present(bytes: Seq<u8>) -> bool {
    bytes.len() >= 8 && 8 + declared_len(bytes) <= bytes.len()
}

/// The bytes of the declared header region.
pub open spec fn header_region(bytes: Seq<u8>) -> Seq<u8>
    recommends
        header_region_present(bytes),
{
    bytes.subrange(8, 8 + declared_len(bytes) as int)
}

/// What reading a header yields: the JSON value that the declared region
/// begins with and the offset at which the region ends; `None` where the
/// prefix or the region is cut short or the region begins with no JSON value.
pub open spec fn header_of(bytes: Seq<u8>) -> Option<(serde_json::Value, nat)> {
    if !header_region_present(bytes) {
        None
    } else {
        match json_prefix(header_region(bytes)) {
            Some(v) => Some((v, 8 + declared_len(bytes))),
            None => None,
        }
    }
}

/// Reads the header at the start of `bytes`. Bytes of the declared region
/// that follow the JSON value are ignored.
pub fn read_header(bytes: &[u8]) -> (r: Result<SafetensorsHeader, LoadTensorError>)
    ensures
        r is Ok <==> header_of(bytes@) is Some,
        r matches Ok(h) ==> h.data == header_of(bytes@).unwrap().0 && h.offset_end_of_header
            == header_of(bytes@).unwrap().1,
        r matches Err(e) ==> e is InvalidHeader,
{
    if bytes.len() < PREFIX_LEN {
        return Err(
            LoadTensorError::InvalidHeader { why: "header length prefix is cut short".to_owned() },
        );
    }
    let header_len: u64 = u64_from_le(bytes);
    if header_len > (bytes.len() - PREFIX_LEN) as u64 {
        return Err(LoadTensorError::InvalidHeader { why: "header is cut short".to_owned() });
    }
    let end: usize = PREFIX_LEN + header_len as usize;
    let region = slice_subrange(bytes, PREFIX_LEN, end);
    match parse_json_prefix(region) {
        Ok(data) => Ok(SafetensorsHeader { data, offset_end_of_header: end }),
        Err(_) => Err(
            LoadTensorError::InvalidHeader { why: "header does not begin with a JSON value".to_owned() },
        ),
    }
}

} // verus!
