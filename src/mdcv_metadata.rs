use vstd::prelude::*;

use crate::bitfield::{
    be16, be32, lemma_u16_bytes_of_read, lemma_u32_bytes_of_read, read_u16, read_u32, u16_bytes,
    u32_bytes, write_u16, write_u32,
};
use crate::edit_config::EditMdcvMetadata;
use crate::error::EditError;

verus! {

/// x of the D65 white point, in units of 0.00002.
pub const D65_WHITE_X: u16 = 15635;
/// y of the D65 white point, in units of 0.00002.
pub const D65_WHITE_Y: u16 = 16450;

/// Size of an encoded MDCV payload, in bytes.
pub const MDCV_PAYLOAD_LEN: usize = 24;

/// Mastering display colour volume metadata.
#[derive(Debug, Clone, Copy)]
pub struct MdcvMetadata {
    pub primaries: MasteringDisplayPrimaries,
    /// in units of 0.0001 nits
    /// 1000 nits = 10000000, 0.0001 = 1
    pub max_display_mastering_luminance: u32,
    pub min_display_mastering_luminance: u32,
}

/// Values in units of 0.00002
#[derive(Debug, Clone, Copy)]
pub struct MasteringDisplayPrimaries {
    pub display_primaries_x: [u16; 3],
    pub display_primaries_y: [u16; 3],
    pub white_point: [u16; 2],
}

/// The named sets of display primaries, all with a D65 white point.
#[derive(Debug, Clone, Copy, PartialEq, Eq, Structural)]
pub enum MdcvPrimariesPreset {
    BT709,
    DisplayP3,
    BT2020,
}

/// The eight primaries values in the order they are stored:
/// (x, y) of red, green and blue, then the white point.
pub open spec fn primaries_words(p: MasteringDisplayPrimaries) -> Seq<u16> {
    seq![
        p.display_primaries_x@[0], p.display_primaries_y@[0],
        p.display_primaries_x@[1], p.display_primaries_y@[1],
        p.display_primaries_x@[2], p.display_primaries_y@[2],
        p.white_point@[0], p.white_point@[1],
    ]
}

/// The stored primaries values of a preset.
pub open spec fn preset_words(p: MdcvPrimariesPreset) -> Seq<u16> {
    match p {
        MdcvPrimariesPreset::BT709 => seq![32000, 16500, 15000, 30000, 7500, 3000, D65_WHITE_X, D65_WHITE_Y],
        MdcvPrimariesPreset::DisplayP3 => seq![34000, 16000, 13250, 34500, 7500, 3000, D65_WHITE_X, D65_WHITE_Y],
        MdcvPrimariesPreset::BT2020 => seq![35400, 14600, 8500, 39850, 6550, 2300, D65_WHITE_X, D65_WHITE_Y],
    }
}

/// Eight 16-bit fields, one after the other.
pub open spec fn words_bytes(w: Seq<u16>) -> Seq<u8> {
    u16_bytes(w[0]) + u16_bytes(w[1]) + u16_bytes(w[2]) + u16_bytes(w[3]) + u16_bytes(w[4])
        + u16_bytes(w[5]) + u16_bytes(w[6]) + u16_bytes(w[7])
}

/// The encoded payload of `m`: primaries, white point, max then min luminance.
pub open spec fn mdcv_bytes(m: MdcvMetadata) -> Seq<u8> {
    words_bytes(primaries_words(m.primaries)) + u32_bytes(m.max_display_mastering_luminance)
        + u32_bytes(m.min_display_mastering_luminance)
}

/// `r` is `m` with the overrides of `e` applied: explicit primaries win over a
/// preset, and each luminance that `e` gives replaces the stored one.
pub open spec fn mdcv_merged(m: MdcvMetadata, e: EditMdcvMetadata, r: MdcvMetadata) -> bool {
    &&& match e.primaries {
        Some(p) => r.primaries == p,
        None => match e.preset {
            Some(ps) => primaries_words(r.primaries) == preset_words(ps),
            None => r.primaries == m.primaries,
        },
    }
    &&& r.max_display_mastering_luminance == match e.max_display_mastering_luminance {
        Some(v) => v,
        None => m.max_display_mastering_luminance,
    }
    &&& r.min_display_mastering_luminance == match e.min_display_mastering_luminance {
        Some(v) => v,
        None => m.min_display_mastering_luminance,
    }
}

/// The encoded payload that editing the payload `data` with `e` gives, stated on bytes.
pub open spec fn mdcv_edit_bytes(data: Seq<u8>, e: EditMdcvMetadata) -> Seq<u8> {
    (match e.primaries {
        Some(p) => words_bytes(primaries_words(p)),
        None => match e.preset {
            Some(ps) => words_bytes(preset_words(ps)),
            None => data.subrange(0, 16),
        },
    }) + (match e.max_display_mastering_luminance {
        Some(v) => u32_bytes(v),
        None => data.subrange(16, 20),
    }) + (match e.min_display_mastering_luminance {
        Some(v) => u32_bytes(v),
        None => data.subrange(20, 24),
    })
}

/// `m` holds the fields stored in the first 24 bytes of `data`.
pub open spec fn mdcv_decoded(data: Seq<u8>, m: MdcvMetadata) -> bool {
    &&& forall|c: int| 0 <= c < 3 ==> m.primaries.display_primaries_x@[c] == be16(data, 4 * c)
    &&& forall|c: int| 0 <= c < 3 ==> m.primaries.display_primaries_y@[c] == be16(data, 4 * c + 2)
    &&& m.primaries.white_point@[0] == be16(data, 12)
    &&& m.primaries.white_point@[1] == be16(data, 14)
    &&& m.max_display_mastering_luminance == be32(data, 16)
    &&& m.min_display_mastering_luminance == be32(data, 20)
}

impl MdcvMetadata {
    /// Decodes the first 24 bytes of `data`; bytes after them are ignored.
    pub fn parse(data: &[u8]) -> (r: Result<Self, EditError>)
        ensures
            data@.len() < 24 <==> r == Err::<Self, EditError>(EditError::DecodeUnderflow),
            r is Ok <==> data@.len() >= 24,
            r matches Ok(m) ==> mdcv_decoded(data@, m) && mdcv_bytes(m) == data@.subrange(0, 24),
    {
        if data.len() < MDCV_PAYLOAD_LEN {
            return Err(EditError::DecodeUnderflow);
        }
        let display_primaries_x = [read_u16(data, 0), read_u16(data, 4), read_u16(data, 8)];
        let display_primaries_y = [read_u16(data, 2), read_u16(data, 6), read_u16(data, 10)];
        let white_point = [read_u16(data, 12), read_u16(data, 14)];
        let m = MdcvMetadata {
            primaries: MasteringDisplayPrimaries {
                display_primaries_x,
                display_primaries_y,
                white_point,
            },
            max_display_mastering_luminance: read_u32(data, 16),
            min_display_mastering_luminance: read_u32(data, 20),
        };
        proof {
            lemma_mdcv_round_trip(data@.subrange(0, 24), m);
        }
        Ok(m)
    }

    /// Encodes the metadata, 24 bytes in all.
    pub fn encode(&self) -> (r: Vec<u8>)
        ensures
            r@ == mdcv_bytes(*self),
            r@.len() == 24,
    {
        let p = &self.primaries;
        let mut out: Vec<u8> = Vec::with_capacity(MDCV_PAYLOAD_LEN);
        write_u16(&mut out, p.display_primaries_x[0]);
        write_u16(&mut out, p.display_primaries_y[0]);
        write_u16(&mut out, p.display_primaries_x[1]);
        write_u16(&mut out, p.display_primaries_y[1]);
        write_u16(&mut out, p.display_primaries_x[2]);
        write_u16(&mut out, p.display_primaries_y[2]);
        write_u16(&mut out, p.white_point[0]);
        write_u16(&mut out, p.white_point[1]);
        write_u32(&mut out, self.max_display_mastering_luminance);
        write_u32(&mut out, self.min_display_mastering_luminance);
        assert(out@ =~= mdcv_bytes(*self));
        out
    }

    /// Applies the overrides of `src`.
    pub fn copy(self, src: &EditMdcvMetadata) -> (r: Self)
        ensures
            mdcv_merged(self, *src, r),
    {
        let mut m = self;
        if let Some(new_primaries) = &src.primaries {
            m.primaries = *new_primaries;
        } else if let Some(new_preset) = &src.preset {
            m.primaries = new_preset.primaries();
        }
        if let Some(min_mdl) = src.min_display_mastering_luminance {
            m.min_display_mastering_luminance = min_mdl;
        }
        if let Some(max_mdl) = src.max_display_mastering_luminance {
            m.max_display_mastering_luminance = max_mdl;
        }
        m
    }
}

impl MasteringDisplayPrimaries {
    /// The BT.709 primaries.
    pub fn bt709() -> (r: Self)
        ensures
            primaries_words(r) == preset_words(MdcvPrimariesPreset::BT709),
    {
        let r = MasteringDisplayPrimaries {
            display_primaries_x: [32000, 15000, 7500],
            display_primaries_y: [16500, 30000, 3000],
            white_point: [D65_WHITE_X, D65_WHITE_Y],
        };
        assert(primaries_words(r) =~= preset_words(MdcvPrimariesPreset::BT709));
        r
    }

    /// The Display-P3 primaries.
    pub fn displayp3() -> (r: Self)
        ensures
            primaries_words(r) == preset_words(MdcvPrimariesPreset::DisplayP3),
    {
        let r = MasteringDisplayPrimaries {
            display_primaries_x: [34000, 13250, 7500],
            display_primaries_y: [16000, 34500, 3000],
            white_point: [D65_WHITE_X, D65_WHITE_Y],
        };
        assert(primaries_words(r) =~= preset_words(MdcvPrimariesPreset::DisplayP3));
        r
    }

    /// The BT.2020 primaries.
    pub fn bt2020() -> (r: Self)
        ensures
            primaries_words(r) == preset_words(MdcvPrimariesPreset::BT2020),
    {
        let r = MasteringDisplayPrimaries {
            display_primaries_x: [35400, 8500, 6550],
            display_primaries_y: [14600, 39850, 2300],
            white_point: [D65_WHITE_X, D65_WHITE_Y],
        };
        assert(primaries_words(r) =~= preset_words(MdcvPrimariesPreset::BT2020));
        r
    }
}

impl MdcvPrimariesPreset {
    /// The primaries that the preset names.
    pub fn primaries(&self) -> (r: MasteringDisplayPrimaries)
        ensures
            primaries_words(r) == preset_words(*self),
    {
        match self {
            MdcvPrimariesPreset::BT709 => MasteringDisplayPrimaries::bt709(),
            MdcvPrimariesPreset::DisplayP3 => MasteringDisplayPrimaries::displayp3(),
            MdcvPrimariesPreset::BT2020 => MasteringDisplayPrimaries::bt2020(),
        }
    }
}

/// Decoding then encoding a 24-byte payload gives it back unchanged.
pub proof fn lemma_mdcv_round_trip(data: Seq<u8>, m: MdcvMetadata)
    requires
        data.len() == 24,
        mdcv_decoded(data, m),
    ensures
        mdcv_bytes(m) == data,
{
    let x = m.primaries.display_primaries_x@;
    let y = m.primaries.display_primaries_y@;
    assert(x[0] == be16(data, 0) && x[1] == be16(data, 4) && x[2] == be16(data, 8));
    assert(y[0] == be16(data, 2) && y[1] == be16(data, 6) && y[2] == be16(data, 10));
    lemma_u16_bytes_of_read(data, 0);
    lemma_u16_bytes_of_read(data, 2);
    lemma_u16_bytes_of_read(data, 4);
    lemma_u16_bytes_of_read(data, 6);
    lemma_u16_bytes_of_read(data, 8);
    lemma_u16_bytes_of_read(data, 10);
    lemma_u16_bytes_of_read(data, 12);
    lemma_u16_bytes_of_read(data, 14);
    lemma_u32_bytes_of_read(data, 16);
    lemma_u32_bytes_of_read(data, 20);
    assert(mdcv_bytes(m) =~= data);
}

/// Merging then encoding agrees with editing the encoded bytes field by field.
pub proof fn lemma_mdcv_edit_bytes(data: Seq<u8>, m: MdcvMetadata, e: EditMdcvMetadata, r: MdcvMetadata)
    requires
        data.len() >= 24,
        mdcv_bytes(m) == data.subrange(0, 24),
        mdcv_merged(m, e, r),
    ensures
        mdcv_bytes(r) == mdcv_edit_bytes(data, e),
{
    let pm = words_bytes(primaries_words(m.primaries));
    assert(pm =~= mdcv_bytes(m).subrange(0, 16));
    assert(u32_bytes(m.max_display_mastering_luminance) =~= mdcv_bytes(m).subrange(16, 20));
    assert(u32_bytes(m.min_display_mastering_luminance) =~= mdcv_bytes(m).subrange(20, 24));
    assert(mdcv_bytes(r) =~= mdcv_edit_bytes(data, e));
}

/// An edit with no override leaves the metadata byte-identical.
pub proof fn lemma_mdcv_empty_edit(m: MdcvMetadata, e: EditMdcvMetadata, r: MdcvMetadata)
    requires
        e.preset is None,
        e.primaries is None,
        e.max_display_mastering_luminance is None,
        e.min_display_mastering_luminance is None,
        mdcv_merged(m, e, r),
    ensures
        mdcv_bytes(r) == mdcv_bytes(m),
{
}

/// Editing a payload with no override gives back its 24 bytes.
pub proof fn lemma_mdcv_empty_edit_bytes(data: Seq<u8>, e: EditMdcvMetadata)
    requires
        data.len() == 24,
        e.preset is None,
        e.primaries is None,
        e.max_display_mastering_luminance is None,
        e.min_display_mastering_luminance is None,
    ensures
        mdcv_edit_bytes(data, e) == data,
{
    assert(mdcv_edit_bytes(data, e) =~= data);
}

} // verus!
