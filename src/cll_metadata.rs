use vstd::prelude::*;

use crate::bitfield::{be16, lemma_u16_bytes_of_read, read_u16, u16_bytes, write_u16};
use crate::edit_config::EditCllMetadata;
use crate::error::EditError;

verus! {

/// Content light level information, in nits.
#[derive(Debug, Clone, Copy, PartialEq, Eq, Structural)]
pub struct CllMetadata {
    pub max_content_light_level: u16,
    pub max_average_light_level: u16,
}

/// Size of an encoded CLL payload, in bytes.
pub const CLL_PAYLOAD_LEN: usize = 4;

/// The encoded payload of `m`: both levels as 16-bit fields.
pub open spec fn cll_bytes(m: CllMetadata) -> Seq<u8> {
    u16_bytes(m.max_content_light_level) + u16_bytes(m.max_average_light_level)
}

/// `m` with the overrides of `e` applied.
pub open spec fn cll_merge(m: CllMetadata, e: EditCllMetadata) -> CllMetadata {
    CllMetadata {
        max_content_light_level: match e.max_content_light_level {
            Some(v) => v,
            None => m.max_content_light_level,
        },
        max_average_light_level: match e.max_average_light_level {
            Some(v) => v,
            None => m.max_average_light_level,
        },
    }
}

/// The encoded payload that editing the payload `data` with `e` gives, stated on bytes.
pub open spec fn cll_edit_bytes(data: Seq<u8>, e: EditCllMetadata) -> Seq<u8> {
    (match e.max_content_light_level {
        Some(v) => u16_bytes(v),
        None => data.subrange(0, 2),
    }) + (match e.max_average_light_level {
        Some(v) => u16_bytes(v),
        None => data.subrange(2, 4),
    })
}

impl CllMetadata {
    /// Decodes the first 4 bytes of `data`; bytes after them are ignored.
    pub fn parse(data: &[u8]) -> (r: Result<Self, EditError>)
        ensures
            data@.len() < 4 <==> r == Err::<Self, EditError>(EditError::DecodeUnderflow),
            r is Ok <==> data@.len() >= 4,
            r matches Ok(m) ==> m.max_content_light_level == be16(data@, 0)
                && m.max_average_light_level == be16(data@, 2)
                && cll_bytes(m) == data@.subrange(0, 4),
    {
        if data.len() < CLL_PAYLOAD_LEN {
            return Err(EditError::DecodeUnderflow);
        }
        let m = CllMetadata {
            max_content_light_level: read_u16(data, 0),
            max_average_light_level: read_u16(data, 2),
        };
        proof {
            lemma_u16_bytes_of_read(data@, 0);
            lemma_u16_bytes_of_read(data@, 2);
            assert(cll_bytes(m) =~= data@.subrange(0, 4));
        }
        Ok(m)
    }

    /// Encodes both levels, 4 bytes in all.
    pub fn encode(&self) -> (r: Vec<u8>)
        ensures
            r@ == cll_bytes(*self),
            r@.len() == 4,
    {
        let mut out: Vec<u8> = Vec::with_capacity(CLL_PAYLOAD_LEN);
        write_u16(&mut out, self.max_content_light_level);
        write_u16(&mut out, self.max_average_light_level);
        assert(out@ =~= cll_bytes(*self));
        out
    }

    /// Replaces each level that `src` overrides.
    pub fn copy(self, src: &EditCllMetadata) -> (r: Self)
        ensures
            r == cll_merge(self, *src),
    {
        let mut m = self;
        if let Some(max_cll) = src.max_content_light_level {
            m.max_content_light_level = max_cll;
        }
        if let Some(max_fall) = src.max_average_light_level {
            m.max_average_light_level = max_fall;
        }
        m
    }
}

/// Decoding then encoding a 4-byte payload gives it back unchanged.
pub proof fn lemma_cll_round_trip(data: Seq<u8>, m: CllMetadata)
    requires
        data.len() == 4,
        m.max_content_light_level == be16(data, 0),
        m.max_average_light_level == be16(data, 2),
    ensures
        cll_bytes(m) == data,
{
    lemma_u16_bytes_of_read(data, 0);
    lemma_u16_bytes_of_read(data, 2);
    assert(cll_bytes(m) =~= data);
}

/// An edit with no override leaves the metadata, and so its encoding, unchanged.
pub proof fn lemma_cll_empty_edit(m: CllMetadata, e: EditCllMetadata)
    requires
        e.max_content_light_level is None,
        e.max_average_light_level is None,
    ensures
        cll_merge(m, e) == m,
        cll_bytes(cll_merge(m, e)) == cll_bytes(m),
{
}

/// Merging then encoding agrees with editing the encoded bytes field by field.
pub proof fn lemma_cll_edit_bytes(data: Seq<u8>, m: CllMetadata, e: EditCllMetadata)
    requires
        data.len() >= 4,
        cll_bytes(m) == data.subrange(0, 4),
    ensures
        cll_bytes(cll_merge(m, e)) == cll_edit_bytes(data, e),
{
    assert(u16_bytes(m.max_content_light_level) =~= cll_bytes(m).subrange(0, 2));
    assert(u16_bytes(m.max_average_light_level) =~= cll_bytes(m).subrange(2, 4));
    assert(cll_bytes(cll_merge(m, e)) =~= cll_edit_bytes(data, e));
}

} // verus!
