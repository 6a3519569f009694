//! Rebuilding SEI prefix NAL units around edited HDR metadata.
use vstd::prelude::*;

use crate::cll_metadata::{cll_bytes, cll_edit_bytes, lemma_cll_edit_bytes, CllMetadata};
use crate::edit_config::EditConfig;
use crate::emulation::{
    add_emulation_prevention, clear_emulation_prevention, escaped, lemma_escaped_no_start_code,
    lemma_escaped_from_start, lemma_unescaped_escaped, no_start_code, escape_from, parse_sei_rbsp, scan_fits,
    sei_messages_of, sei_scan_fits, unescaped,
};
use crate::error::EditError;
use crate::mdcv_metadata::{lemma_mdcv_edit_bytes, mdcv_bytes, mdcv_edit_bytes, MdcvMetadata};

verus! {

/// NAL unit type of an SEI prefix NAL.
pub const NAL_SEI_PREFIX: u8 = 39;
/// SEI payload type of mastering display colour volume metadata.
pub const MDCV_PAYLOAD_TYPE: u8 = 137;
/// SEI payload type of content light level metadata.
pub const CLL_PAYLOAD_TYPE: u8 = 144;
/// Largest payload that the one-byte payload size field can describe.
pub const MAX_PAYLOAD_SIZE: usize = 255;
/// rbsp_stop_one_bit followed by alignment zero bits.
pub const RBSP_TRAILING_BYTE: u8 = 0x80;

/// The SEI payload types that can be edited.
#[derive(Debug, Clone, Copy, PartialEq, Eq, Structural)]
pub enum SeiPayloadType {
    MasteringDisplayColourVolume,
    ContentLightLevel,
}

/// The editable kind of a payload type code, `None` when it is unrecognized.
pub open spec fn payload_kind(code: u8) -> Option<SeiPayloadType> {
    if code == MDCV_PAYLOAD_TYPE {
        Some(SeiPayloadType::MasteringDisplayColourVolume)
    } else if code == CLL_PAYLOAD_TYPE {
        Some(SeiPayloadType::ContentLightLevel)
    } else {
        None
    }
}

/// Identifies a payload type code.
pub fn sei_payload_type(code: u8) -> (r: Option<SeiPayloadType>)
    ensures
        r == payload_kind(code),
{
    if code == MDCV_PAYLOAD_TYPE {
        Some(SeiPayloadType::MasteringDisplayColourVolume)
    } else if code == CLL_PAYLOAD_TYPE {
        Some(SeiPayloadType::ContentLightLevel)
    } else {
        None
    }
}

/// One SEI message located in the unescaped payload of its NAL.
#[derive(Debug, Clone, Copy, PartialEq, Eq, Structural)]
pub struct SeiMessage {
    pub payload_type: u8,
    pub payload_offset: usize,
    pub payload_size: usize,
}

/// The message's payload lies within a buffer of `len` bytes.
pub open spec fn in_bounds(m: SeiMessage, len: int) -> bool {
    m.payload_offset + m.payload_size <= len
}

/// The payload bytes of `m`.
pub open spec fn message_data(m: SeiMessage, rbsp: Seq<u8>) -> Seq<u8> {
    rbsp.subrange(m.payload_offset as int, m.payload_offset + m.payload_size)
}

/// `m` is of a type whose edit section `cfg` holds.
pub open spec fn is_edited(m: SeiMessage, cfg: EditConfig) -> bool {
    ||| m.payload_type == MDCV_PAYLOAD_TYPE && cfg.mdcv is Some
    ||| m.payload_type == CLL_PAYLOAD_TYPE && cfg.cll is Some
}

/// Some message of `msgs` is edited under `cfg`.
pub open spec fn any_edited(msgs: Seq<SeiMessage>, cfg: EditConfig) -> bool {
    exists|i: int| 0 <= i < msgs.len() && is_edited(#[trigger] msgs[i], cfg)
}

/// The payload that a message of type `t` with payload `data` carries after editing.
pub open spec fn edited_payload(t: u8, data: Seq<u8>, cfg: EditConfig) -> Result<Seq<u8>, EditError> {
    if t == MDCV_PAYLOAD_TYPE && cfg.mdcv is Some {
        if data.len() < 24 {
            Err(EditError::DecodeUnderflow)
        } else {
            Ok(mdcv_edit_bytes(data, cfg.mdcv->0))
        }
    } else if t == CLL_PAYLOAD_TYPE && cfg.cll is Some {
        if data.len() < 4 {
            Err(EditError::DecodeUnderflow)
        } else {
            Ok(cll_edit_bytes(data, cfg.cll->0))
        }
    } else {
        Ok(data)
    }
}

/// The two header bytes of an SEI prefix NAL: forbidden_zero_bit 0, the 6-bit NAL type,
/// a 6-bit nuh_layer_id of 0 and a 3-bit nuh_temporal_id_plus1 of 1.
pub open spec fn sei_prefix_header() -> Seq<u8> {
    seq![(NAL_SEI_PREFIX * 2) as u8, 1u8]
}

/// The escaped bytes of an SEI prefix NAL that carries the single payload `p` of type `t`.
pub open spec fn sei_nal_bytes(t: u8, p: Seq<u8>) -> Seq<u8> {
    escaped(sei_nal_raw(t, p))
}

/// The NAL that message `m` becomes once split out of its NAL.
pub open spec fn encoded_message(rbsp: Seq<u8>, m: SeiMessage, cfg: EditConfig) -> Result<Seq<u8>, EditError> {
    if !in_bounds(m, rbsp.len() as int) {
        Err(EditError::MalformedSei)
    } else {
        match edited_payload(m.payload_type, message_data(m, rbsp), cfg) {
            Err(e) => Err(e),
            Ok(p) => if p.len() > MAX_PAYLOAD_SIZE {
                Err(EditError::PayloadTooLarge)
            } else {
                Ok(sei_nal_bytes(m.payload_type, p))
            },
        }
    }
}

/// The NALs of all `msgs`, in order, or the error of the first that fails.
pub open spec fn encoded_messages(rbsp: Seq<u8>, msgs: Seq<SeiMessage>, cfg: EditConfig) -> Result<Seq<Seq<u8>>, EditError>
    decreases msgs.len(),
{
    if msgs.len() == 0 {
        Ok(seq![])
    } else {
        match encoded_messages(rbsp, msgs.drop_last(), cfg) {
            Err(e) => Err(e),
            Ok(v) => match encoded_message(rbsp, msgs.last(), cfg) {
                Err(e) => Err(e),
                Ok(b) => Ok(v.push(b)),
            },
        }
    }
}

/// The NALs that stand for the SEI NAL `nal` in the output: the NAL itself when no
/// message is edited, else one NAL per message.
pub open spec fn rebuilt_sei_nal(nal: Seq<u8>, rbsp: Seq<u8>, msgs: Seq<SeiMessage>, cfg: EditConfig) -> Result<Seq<Seq<u8>>, EditError> {
    if any_edited(msgs, cfg) {
        encoded_messages(rbsp, msgs, cfg)
    } else {
        Ok(seq![nal])
    }
}

/// The messages that hevc_parser reports.
pub open spec fn messages_from(v: Seq<(u8, usize, usize)>) -> Seq<SeiMessage> {
    v.map_values(|t: (u8, usize, usize)| SeiMessage { payload_type: t.0, payload_offset: t.1, payload_size: t.2 })
}

/// The byte contents of a list of NALs.
pub open spec fn nals_view(r: Result<Vec<Vec<u8>>, EditError>) -> Result<Seq<Seq<u8>>, EditError> {
    match r {
        Ok(v) => Ok(v@.map_values(|n: Vec<u8>| n@)),
        Err(e) => Err(e),
    }
}

/// A message together with what editing made of it.
#[derive(Debug, Clone, Copy)]
pub enum EditedSei {
    /// Not edited: carried on with its original bytes.
    Unedited(SeiMessage),
    Mdcv(SeiMessage, MdcvMetadata),
    Cll(SeiMessage, CllMetadata),
}

/// The message that `ed` stands for.
pub open spec fn edited_message(ed: EditedSei) -> SeiMessage {
    match ed {
        EditedSei::Unedited(m) => m,
        EditedSei::Mdcv(m, _) => m,
        EditedSei::Cll(m, _) => m,
    }
}

/// The payload type code that `ed` is written with.
pub open spec fn edited_type(ed: EditedSei) -> u8 {
    match ed {
        EditedSei::Mdcv(..) => MDCV_PAYLOAD_TYPE,
        EditedSei::Cll(..) => CLL_PAYLOAD_TYPE,
        EditedSei::Unedited(m) => m.payload_type,
    }
}

/// The payload `ed` carries; `data` is the original payload of its message.
pub open spec fn edited_sei_bytes(ed: EditedSei, data: Seq<u8>) -> Seq<u8> {
    match ed {
        EditedSei::Unedited(_) => data,
        EditedSei::Mdcv(_, m) => mdcv_bytes(m),
        EditedSei::Cll(_, c) => cll_bytes(c),
    }
}

impl EditedSei {
    /// The payload type code of the message.
    pub fn payload_type(&self) -> (r: u8)
        ensures
            r == edited_type(*self),
    {
        match self {
            EditedSei::Mdcv(..) => MDCV_PAYLOAD_TYPE,
            EditedSei::Cll(..) => CLL_PAYLOAD_TYPE,
            EditedSei::Unedited(m) => m.payload_type,
        }
    }

    /// Encodes the edited metadata.
    pub fn encode_payload(&self) -> (r: Vec<u8>)
        requires
            !(self is Unedited),
        ensures
            r@ == edited_sei_bytes(*self, seq![]),
            r@.len() <= 24,
    {
        match self {
            EditedSei::Mdcv(_, meta) => meta.encode(),
            EditedSei::Cll(_, meta) => meta.encode(),
            EditedSei::Unedited(_) => Vec::new(),
        }
    }
}

/// The payload bytes of `msg`.
pub fn sei_message_data<'a>(msg: &SeiMessage, sei_payload: &'a [u8]) -> (r: &'a [u8])
    requires
        in_bounds(*msg, sei_payload@.len() as int),
    ensures
        r@ == message_data(*msg, sei_payload@),
{
    let n: usize = sei_payload.len();
    assert(msg.payload_offset + msg.payload_size <= n);
    let start = msg.payload_offset;
    let end = start + msg.payload_size;
    vstd::slice::slice_subrange(sei_payload, start, end)
}

/// Decodes and edits `msg` when its type is editable and `config` holds its section.
pub fn get_edited_sei_for_message(sei_payload: &[u8], msg: &SeiMessage, config: &EditConfig) -> (r: Result<EditedSei, EditError>)
    requires
        in_bounds(*msg, sei_payload@.len() as int),
    ensures
        match r {
            Ok(ed) => edited_message(ed) == *msg
                && edited_type(ed) == msg.payload_type
                && (ed is Unedited <==> !is_edited(*msg, *config))
                && edited_payload(msg.payload_type, message_data(*msg, sei_payload@), *config)
                    == Ok::<Seq<u8>, EditError>(edited_sei_bytes(ed, message_data(*msg, sei_payload@))),
            Err(e) => edited_payload(msg.payload_type, message_data(*msg, sei_payload@), *config)
                == Err::<Seq<u8>, EditError>(e),
        },
{
    let kind = sei_payload_type(msg.payload_type);
    let data = sei_message_data(msg, sei_payload);
    match kind {
        Some(SeiPayloadType::MasteringDisplayColourVolume) => {
            if let Some(new_mdcv) = &config.mdcv {
                let meta = match MdcvMetadata::parse(data) {
                    Ok(m) => m,
                    Err(e) => return Err(e),
                };
                let edited = meta.copy(new_mdcv);
                proof {
                    lemma_mdcv_edit_bytes(data@, meta, *new_mdcv, edited);
                }
                return Ok(EditedSei::Mdcv(*msg, edited));
            }
        },
        Some(SeiPayloadType::ContentLightLevel) => {
            if let Some(new_cll) = &config.cll {
                let meta = match CllMetadata::parse(data) {
                    Ok(m) => m,
                    Err(e) => return Err(e),
                };
                let edited = meta.copy(new_cll);
                proof {
                    lemma_cll_edit_bytes(data@, meta, *new_cll);
                }
                return Ok(EditedSei::Cll(*msg, edited));
            }
        },
        None => {},
    }
    Ok(EditedSei::Unedited(*msg))
}

/// Builds a single-message SEI prefix NAL (without start code) around `payload`.
pub fn encode_payload_to_sei_prefix(payload_type: u8, payload: &[u8]) -> (r: Result<Vec<u8>, EditError>)
    ensures
        payload@.len() > MAX_PAYLOAD_SIZE <==> r == Err::<Vec<u8>, EditError>(EditError::PayloadTooLarge),
        r is Ok <==> payload@.len() <= MAX_PAYLOAD_SIZE,
        r matches Ok(v) ==> v@ == sei_nal_bytes(payload_type, payload@),
{
    if payload.len() > MAX_PAYLOAD_SIZE {
        return Err(EditError::PayloadTooLarge);
    }
    let mut data: Vec<u8> = Vec::with_capacity(payload.len() + 5);
    data.push(NAL_SEI_PREFIX * 2);
    data.push(1);
    data.push(payload_type);
    data.push(payload.len() as u8);
    data.extend_from_slice(payload);
    data.push(RBSP_TRAILING_BYTE);
    assert(data@ =~= sei_nal_raw(payload_type, payload@));
    add_emulation_prevention(&mut data);
    Ok(data)
}

/// Builds the NAL of an edited message.
pub fn encode_edited_sei_to_nal(edited_sei: &EditedSei) -> (r: Result<Vec<u8>, EditError>)
    requires
        !(edited_sei is Unedited),
    ensures
        r matches Ok(v) && v@ == sei_nal_bytes(edited_type(*edited_sei), edited_sei_bytes(*edited_sei, seq![])),
        edited_sei_bytes(*edited_sei, seq![]).len() <= 24,
{
    let payload = edited_sei.encode_payload();
    encode_payload_to_sei_prefix(edited_sei.payload_type(), payload.as_slice())
}

/// Once a prefix of the messages fails, encoding all of them fails with the same error.
proof fn lemma_encoded_prefix_err(rbsp: Seq<u8>, msgs: Seq<SeiMessage>, cfg: EditConfig, k: int)
    requires
        0 <= k <= msgs.len(),
        encoded_messages(rbsp, msgs.subrange(0, k), cfg) is Err,
    ensures
        encoded_messages(rbsp, msgs, cfg) == encoded_messages(rbsp, msgs.subrange(0, k), cfg),
    decreases msgs.len() - k,
{
    if k < msgs.len() {
        assert(msgs.subrange(0, k + 1).drop_last() =~= msgs.subrange(0, k));
        lemma_encoded_prefix_err(rbsp, msgs, cfg, k + 1);
    } else {
        assert(msgs.subrange(0, k) =~= msgs);
    }
}

/// Rebuilds one SEI prefix NAL: `nal_data` is the NAL as found in the stream, `rbsp`
/// the same bytes unescaped and `messages` the SEI messages located in `rbsp`.
pub fn reconstruct_sei_nal(
    nal_data: &[u8],
    rbsp: &[u8],
    messages: &Vec<SeiMessage>,
    config: &EditConfig,
) -> (r: Result<Vec<Vec<u8>>, EditError>)
    ensures
        nals_view(r) == rebuilt_sei_nal(nal_data@, rbsp@, messages@, *config),
{
    let mut any = false;
    let mut i: usize = 0;
    while i < messages.len()
        invariant
            i <= messages@.len(),
            any <==> exists|j: int| 0 <= j < i && is_edited(#[trigger] messages@[j], *config),
        decreases messages@.len() - i,
    {
        let m = messages[i];
        if (m.payload_type == MDCV_PAYLOAD_TYPE && config.mdcv.is_some()) || (m.payload_type
            == CLL_PAYLOAD_TYPE && config.cll.is_some()) {
            any = true;
        }
        i = i + 1;
    }
    if !any {
        let mut out: Vec<Vec<u8>> = Vec::new();
        out.push(vstd::slice::slice_to_vec(nal_data));
        assert(out@.map_values(|n: Vec<u8>| n@) =~= seq![nal_data@]);
        return Ok(out);
    }
    let mut out: Vec<Vec<u8>> = Vec::with_capacity(messages.len());
    assert(messages@.subrange(0, 0) =~= Seq::<SeiMessage>::empty());
    assert(out@.map_values(|n: Vec<u8>| n@) =~= Seq::<Seq<u8>>::empty());
    let mut k: usize = 0;
    while k < messages.len()
        invariant
            k <= messages@.len(),
            any_edited(messages@, *config),
            encoded_messages(rbsp@, messages@.subrange(0, k as int), *config) == Ok::<
                Seq<Seq<u8>>,
                EditError,
            >(out@.map_values(|n: Vec<u8>| n@)),
        decreases messages@.len() - k,
    {
        let m = messages[k];
        assert(messages@.subrange(0, k + 1).drop_last() =~= messages@.subrange(0, k as int));
        assert(messages@.subrange(0, k + 1).last() == m);
        let n: usize = rbsp.len();
        if !(m.payload_size <= n && m.payload_offset <= n - m.payload_size) {
            proof {
                lemma_encoded_prefix_err(rbsp@, messages@, *config, k + 1);
            }
            return Err(EditError::MalformedSei);
        }
        let ed = match get_edited_sei_for_message(rbsp, &m, config) {
            Ok(e) => e,
            Err(e) => {
                proof {
                    lemma_encoded_prefix_err(rbsp@, messages@, *config, k + 1);
                }
                return Err(e);
            },
        };
        let nal = match ed {
            EditedSei::Unedited(msg) => encode_payload_to_sei_prefix(
                msg.payload_type,
                sei_message_data(&msg, rbsp),
            ),
            _ => encode_edited_sei_to_nal(&ed),
        };
        match nal {
            Ok(b) => {
                let ghost before = out@;
                out.push(b);
                assert(out@.map_values(|n: Vec<u8>| n@) =~= before.map_values(|n: Vec<u8>| n@).push(b@));
            },
            Err(e) => {
                proof {
                    lemma_encoded_prefix_err(rbsp@, messages@, *config, k + 1);
                }
                return Err(e);
            },
        }
        k = k + 1;
    }
    assert(messages@.subrange(0, messages@.len() as int) =~= messages@);
    Ok(out)
}

/// Turns one NAL of the stream (without start code) into the NALs that replace it.
pub fn process_nal(nal_type: u8, nal_data: &[u8], config: &EditConfig) -> (r: Result<Vec<Vec<u8>>, EditError>)
    ensures
        nal_type != NAL_SEI_PREFIX ==> nals_view(r) == Ok::<Seq<Seq<u8>>, EditError>(seq![nal_data@]),
        nal_type == NAL_SEI_PREFIX && !scan_fits(unescaped(nal_data@)) ==> r == Err::<
            Vec<Vec<u8>>,
            EditError,
        >(EditError::MalformedSei),
        nal_type == NAL_SEI_PREFIX && scan_fits(unescaped(nal_data@)) ==> match sei_messages_of(
            unescaped(nal_data@),
        ) {
            None => r == Err::<Vec<Vec<u8>>, EditError>(EditError::MalformedSei),
            Some(found) => nals_view(r) == rebuilt_sei_nal(
                nal_data@,
                unescaped(nal_data@),
                messages_from(found),
                *config,
            ),
        },
{
    if nal_type != NAL_SEI_PREFIX {
        let mut out: Vec<Vec<u8>> = Vec::new();
        out.push(vstd::slice::slice_to_vec(nal_data));
        assert(out@.map_values(|n: Vec<u8>| n@) =~= seq![nal_data@]);
        return Ok(out);
    }
    let sei_payload = clear_emulation_prevention(nal_data);
    if !sei_scan_fits(sei_payload.as_slice()) {
        return Err(EditError::MalformedSei);
    }
    let found = match parse_sei_rbsp(sei_payload.as_slice()) {
        Ok(v) => v,
        Err(_) => return Err(EditError::MalformedSei),
    };
    let mut messages: Vec<SeiMessage> = Vec::with_capacity(found.len());
    let mut i: usize = 0;
    while i < found.len()
        invariant
            i <= found@.len(),
            messages@ =~= messages_from(found@.subrange(0, i as int)),
        decreases found@.len() - i,
    {
        let t = found[i];
        messages.push(SeiMessage { payload_type: t.0, payload_offset: t.1, payload_size: t.2 });
        i = i + 1;
    }
    assert(found@.subrange(0, found@.len() as int) =~= found@);
    reconstruct_sei_nal(nal_data, sei_payload.as_slice(), &messages, config)
}

/// Every message of `msgs` is encoded, in order, when encoding them all succeeds.
proof fn lemma_encoded_messages_ok(rbsp: Seq<u8>, msgs: Seq<SeiMessage>, cfg: EditConfig, out: Seq<Seq<u8>>)
    requires
        encoded_messages(rbsp, msgs, cfg) == Ok::<Seq<Seq<u8>>, EditError>(out),
    ensures
        out.len() == msgs.len(),
        forall|i: int| 0 <= i < msgs.len() ==> encoded_message(rbsp, #[trigger] msgs[i], cfg)
            == Ok::<Seq<u8>, EditError>(out[i]),
    decreases msgs.len(),
{
    if msgs.len() > 0 {
        let prev = encoded_messages(rbsp, msgs.drop_last(), cfg)->Ok_0;
        lemma_encoded_messages_ok(rbsp, msgs.drop_last(), cfg, prev);
        assert forall|i: int| 0 <= i < msgs.len() implies encoded_message(rbsp, #[trigger] msgs[i], cfg)
            == Ok::<Seq<u8>, EditError>(out[i]) by {
            if i < msgs.len() - 1 {
                assert(msgs.drop_last()[i] == msgs[i]);
            }
        }
    }
}

/// Splitting: when some message of an SEI NAL is edited, the NAL is replaced by exactly
/// one NAL per message, in the original order: the `encoded_message` of each, which
/// carries that message alone (its edited or raw payload) in a freshly escaped SEI prefix
/// NAL that unescapes to header, type, size, payload and trailing byte, and holds no
/// start code.
pub proof fn lemma_split_one_nal_per_message(
    nal: Seq<u8>,
    rbsp: Seq<u8>,
    msgs: Seq<SeiMessage>,
    cfg: EditConfig,
    out: Seq<Seq<u8>>,
)
    requires
        any_edited(msgs, cfg),
        rebuilt_sei_nal(nal, rbsp, msgs, cfg) == Ok::<Seq<Seq<u8>>, EditError>(out),
    ensures
        out.len() == msgs.len(),
        forall|i: int| 0 <= i < msgs.len() ==> encoded_message(rbsp, #[trigger] msgs[i], cfg)
            == Ok::<Seq<u8>, EditError>(out[i]),
        forall|i: int|
            0 <= i < msgs.len() ==> {
                let t = #[trigger] msgs[i].payload_type;
                let body = edited_payload(t, message_data(msgs[i], rbsp), cfg);
                &&& in_bounds(msgs[i], rbsp.len() as int)
                &&& body is Ok
                &&& unescaped(out[i]) == sei_nal_raw(t, body->Ok_0)
                &&& no_start_code(out[i])
            },
{
    lemma_encoded_messages_ok(rbsp, msgs, cfg, out);
    assert forall|i: int| 0 <= i < msgs.len() implies {
        let t = #[trigger] msgs[i].payload_type;
        let body = edited_payload(t, message_data(msgs[i], rbsp), cfg);
        &&& in_bounds(msgs[i], rbsp.len() as int)
        &&& body is Ok
        &&& unescaped(out[i]) == sei_nal_raw(t, body->Ok_0)
        &&& no_start_code(out[i])
    } by {
        let m = msgs[i];
        assert(encoded_message(rbsp, m, cfg) == Ok::<Seq<u8>, EditError>(out[i]));
        let body = edited_payload(m.payload_type, message_data(m, rbsp), cfg);
        lemma_sei_nal_escaping(m.payload_type, body->Ok_0);
    }
}

/// Passthrough: an SEI NAL none of whose messages is edited comes out as its own bytes.
pub proof fn lemma_passthrough(nal: Seq<u8>, rbsp: Seq<u8>, msgs: Seq<SeiMessage>, cfg: EditConfig)
    requires
        forall|i: int| 0 <= i < msgs.len() ==> !is_edited(#[trigger] msgs[i], cfg),
    ensures
        rebuilt_sei_nal(nal, rbsp, msgs, cfg) == Ok::<Seq<Seq<u8>>, EditError>(seq![nal]),
{
}

/// The bytes of a single-message SEI prefix NAL before emulation prevention: header,
/// payload type, payload size, payload, then the trailing byte.
pub open spec fn sei_nal_raw(t: u8, p: Seq<u8>) -> Seq<u8> {
    sei_prefix_header() + seq![t, p.len() as u8] + p + seq![RBSP_TRAILING_BYTE]
}

/// Every SEI prefix NAL that this library builds is free of start code emulation (no two
/// zero bytes in it are followed by a byte up to 0x02), and removing its emulation
/// prevention bytes gives back its header, type, size, payload and trailing byte. As its
/// first byte is not zero, escaping it from the very first byte gives the same bytes.
pub proof fn lemma_sei_nal_escaping(t: u8, p: Seq<u8>)
    ensures
        sei_nal_bytes(t, p) == escaped(sei_nal_raw(t, p)),
        sei_nal_bytes(t, p) == escape_from(sei_nal_raw(t, p), 0),
        no_start_code(sei_nal_bytes(t, p)),
        unescaped(sei_nal_bytes(t, p)) == sei_nal_raw(t, p),
{
    let raw = sei_nal_raw(t, p);
    assert(raw[0] == NAL_SEI_PREFIX * 2);
    lemma_escaped_no_start_code(raw);
    lemma_unescaped_escaped(raw);
    lemma_escaped_from_start(raw);
}

} // verus!
