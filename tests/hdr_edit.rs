use hevc_hdr_editor::cll_metadata::CllMetadata;
use hevc_hdr_editor::edit_config::{EditCllMetadata, EditConfig, EditMdcvMetadata};
use hevc_hdr_editor::emulation::sei_scan_fits;
use hevc_hdr_editor::error::EditError;
use hevc_hdr_editor::mdcv_metadata::{MasteringDisplayPrimaries, MdcvMetadata, MdcvPrimariesPreset};
use hevc_hdr_editor::sei::{
    encode_edited_sei_to_nal, encode_payload_to_sei_prefix, get_edited_sei_for_message,
    process_nal, reconstruct_sei_nal, sei_payload_type, EditedSei, SeiMessage, SeiPayloadType,
};
use hevc_hdr_editor::utils::input_from_either;

const MDCV_BYTES: [u8; 24] = [
    0x84, 0xD0, 0x3E, 0x80, 0x33, 0xC2, 0x86, 0xC4, 0x1D, 0x4C, 0x0B, 0xB8, 0x3D, 0x13, 0x40,
    0x42, 0x00, 0x98, 0x96, 0x80, 0x00, 0x00, 0x00, 0x32,
];

fn empty_mdcv_edit() -> EditMdcvMetadata {
    EditMdcvMetadata {
        preset: None,
        primaries: None,
        max_display_mastering_luminance: None,
        min_display_mastering_luminance: None,
    }
}

fn words(p: &MasteringDisplayPrimaries) -> Vec<u16> {
    let mut v = Vec::new();
    for c in 0..3 {
        v.push(p.display_primaries_x[c]);
        v.push(p.display_primaries_y[c]);
    }
    v.extend_from_slice(&p.white_point);
    v
}

#[test]
fn mdcv_round_trip() {
    let m = MdcvMetadata::parse(&MDCV_BYTES).unwrap();
    assert_eq!(m.primaries.display_primaries_x, [34000, 13250, 7500]);
    assert_eq!(m.primaries.display_primaries_y, [16000, 34500, 3000]);
    assert_eq!(m.primaries.white_point, [15635, 16450]);
    assert_eq!(m.max_display_mastering_luminance, 10_000_000);
    assert_eq!(m.min_display_mastering_luminance, 50);
    assert_eq!(m.encode(), MDCV_BYTES.to_vec());
}

#[test]
fn cll_round_trip() {
    let bytes = [0x03, 0xE8, 0x01, 0x90];
    let m = CllMetadata::parse(&bytes).unwrap();
    assert_eq!(m.max_content_light_level, 1000);
    assert_eq!(m.max_average_light_level, 400);
    assert_eq!(m.encode(), bytes.to_vec());
}

#[test]
fn short_payloads_underflow() {
    assert_eq!(CllMetadata::parse(&[1, 2, 3]).unwrap_err(), EditError::DecodeUnderflow);
    assert_eq!(MdcvMetadata::parse(&MDCV_BYTES[..23]).unwrap_err(), EditError::DecodeUnderflow);
}

#[test]
fn empty_edit_is_identity() {
    let m = MdcvMetadata::parse(&MDCV_BYTES).unwrap();
    assert_eq!(m.copy(&empty_mdcv_edit()).encode(), MDCV_BYTES.to_vec());
    let c = CllMetadata { max_content_light_level: 1000, max_average_light_level: 400 };
    let none = EditCllMetadata { max_content_light_level: None, max_average_light_level: None };
    assert_eq!(c.copy(&none), c);
}

#[test]
fn explicit_primaries_beat_preset() {
    let m = MdcvMetadata::parse(&MDCV_BYTES).unwrap();
    let custom = MasteringDisplayPrimaries {
        display_primaries_x: [1, 2, 3],
        display_primaries_y: [4, 5, 6],
        white_point: [7, 8],
    };
    let edit = EditMdcvMetadata { preset: Some(MdcvPrimariesPreset::BT2020), primaries: Some(custom), ..empty_mdcv_edit() };
    let r = m.copy(&edit);
    assert_eq!(words(&r.primaries), vec![1, 4, 2, 5, 3, 6, 7, 8]);
}

#[test]
fn preset_only_keeps_luminance() {
    let m = MdcvMetadata::parse(&MDCV_BYTES).unwrap();
    let edit = EditMdcvMetadata { preset: Some(MdcvPrimariesPreset::BT709), ..empty_mdcv_edit() };
    let r = m.copy(&edit);
    assert_eq!(words(&r.primaries), words(&MasteringDisplayPrimaries::bt709()));
    assert_eq!(words(&r.primaries), vec![32000, 16500, 15000, 30000, 7500, 3000, 15635, 16450]);
    assert_eq!(r.max_display_mastering_luminance, 10_000_000);
    assert_eq!(r.min_display_mastering_luminance, 50);
}

#[test]
fn preset_tables() {
    assert_eq!(words(&MdcvPrimariesPreset::DisplayP3.primaries()), vec![34000, 16000, 13250, 34500, 7500, 3000, 15635, 16450]);
    assert_eq!(words(&MdcvPrimariesPreset::BT2020.primaries()), vec![35400, 14600, 8500, 39850, 6550, 2300, 15635, 16450]);
    assert_eq!(words(&MasteringDisplayPrimaries::displayp3()), words(&MdcvPrimariesPreset::DisplayP3.primaries()));
    assert_eq!(words(&MasteringDisplayPrimaries::bt2020()), words(&MdcvPrimariesPreset::BT2020.primaries()));
}

#[test]
fn luminance_overrides_are_stored() {
    let m = MdcvMetadata::parse(&MDCV_BYTES).unwrap();
    let edit = EditMdcvMetadata {
        max_display_mastering_luminance: Some(10_000_000),
        min_display_mastering_luminance: Some(1),
        ..empty_mdcv_edit()
    };
    let r = m.copy(&edit);
    assert_eq!(r.max_display_mastering_luminance, 10_000_000);
    assert_eq!(r.min_display_mastering_luminance, 1);
    assert_eq!(&r.encode()[16..], &[0x00, 0x98, 0x96, 0x80, 0x00, 0x00, 0x00, 0x01]);
}

#[test]
fn cll_edit_scenario() {
    let c = CllMetadata { max_content_light_level: 1000, max_average_light_level: 400 };
    let edit = EditCllMetadata { max_content_light_level: Some(500), max_average_light_level: None };
    let r = c.copy(&edit);
    assert_eq!(r, CllMetadata { max_content_light_level: 500, max_average_light_level: 400 });
    assert_eq!(r.encode(), vec![0x01, 0xF4, 0x01, 0x90]);
}

#[test]
fn oversize_payload_fails() {
    assert_eq!(encode_payload_to_sei_prefix(137, &[7u8; 300]), Err(EditError::PayloadTooLarge));
    assert!(encode_payload_to_sei_prefix(137, &[7u8; 255]).is_ok());
}

#[test]
fn emulation_prevention_inserted() {
    let nal = encode_payload_to_sei_prefix(5, &[0, 0, 0, 1]).unwrap();
    assert_eq!(nal, vec![0x4E, 0x01, 0x05, 0x04, 0x00, 0x00, 0x03, 0x00, 0x01, 0x80]);
}

#[test]
fn payload_type_codes() {
    assert_eq!(sei_payload_type(137), Some(SeiPayloadType::MasteringDisplayColourVolume));
    assert_eq!(sei_payload_type(144), Some(SeiPayloadType::ContentLightLevel));
    assert_eq!(sei_payload_type(5), None);
}

fn cll_config() -> EditConfig {
    EditConfig {
        mdcv: None,
        cll: Some(EditCllMetadata { max_content_light_level: Some(500), max_average_light_level: None }),
    }
}

const TWO_MESSAGES: [u8; 13] = [0x4E, 0x01, 0x90, 0x04, 0x03, 0xE8, 0x01, 0x90, 0x05, 0x02, 0xAA, 0xBB, 0x80];

#[test]
fn multi_message_nal_is_split() {
    let out = process_nal(39, &TWO_MESSAGES, &cll_config()).unwrap();
    assert_eq!(out, vec![
        vec![0x4E, 0x01, 0x90, 0x04, 0x01, 0xF4, 0x01, 0x90, 0x80],
        vec![0x4E, 0x01, 0x05, 0x02, 0xAA, 0xBB, 0x80],
    ]);
}

#[test]
fn unconfigured_nal_passes_through() {
    let cfg = EditConfig { mdcv: Some(empty_mdcv_edit()), cll: None };
    assert_eq!(process_nal(39, &TWO_MESSAGES, &cfg).unwrap(), vec![TWO_MESSAGES.to_vec()]);
    assert_eq!(process_nal(1, &[0x02, 0x01, 0x00, 0x00, 0x03], &cll_config()).unwrap(), vec![vec![0x02, 0x01, 0x00, 0x00, 0x03]]);
}

#[test]
fn escaped_nal_is_unescaped_then_reescaped() {
    let nal = [0x4E, 0x01, 0x90, 0x04, 0x00, 0x00, 0x03, 0x00, 0x01, 0x80];
    let cfg = EditConfig {
        mdcv: None,
        cll: Some(EditCllMetadata { max_content_light_level: None, max_average_light_level: Some(400) }),
    };
    let out = process_nal(39, &nal, &cfg).unwrap();
    assert_eq!(out, vec![vec![0x4E, 0x01, 0x90, 0x04, 0x00, 0x00, 0x03, 0x01, 0x90, 0x80]]);
}

#[test]
fn malformed_messages_fail() {
    let bad = vec![SeiMessage { payload_type: 144, payload_offset: 10, payload_size: 4 }];
    assert_eq!(reconstruct_sei_nal(&TWO_MESSAGES, &TWO_MESSAGES, &bad, &cll_config()), Err(EditError::MalformedSei));
    assert_eq!(process_nal(39, &[0x02, 0x01, 0x90], &cll_config()), Err(EditError::MalformedSei));
}

#[test]
fn edited_message_encodes_to_nal() {
    let msg = SeiMessage { payload_type: 144, payload_offset: 4, payload_size: 4 };
    let ed = get_edited_sei_for_message(&TWO_MESSAGES, &msg, &cll_config()).unwrap();
    assert!(matches!(ed, EditedSei::Cll(_, _)));
    assert_eq!(ed.payload_type(), 144);
    assert_eq!(encode_edited_sei_to_nal(&ed).unwrap(), vec![0x4E, 0x01, 0x90, 0x04, 0x01, 0xF4, 0x01, 0x90, 0x80]);
    let other = SeiMessage { payload_type: 5, payload_offset: 10, payload_size: 2 };
    assert!(matches!(get_edited_sei_for_message(&TWO_MESSAGES, &other, &cll_config()).unwrap(), EditedSei::Unedited(_)));
}

#[test]
fn config_needs_a_section() {
    let mut cfg = EditConfig { mdcv: None, cll: None };
    assert_eq!(cfg.setup(), Err(EditError::ConfigInvalid));
    assert_eq!(cll_config().setup(), Ok(()));
}

#[test]
fn input_choice() {
    assert_eq!(input_from_either(Some("a"), Some("b")), Ok("a"));
    assert_eq!(input_from_either(None, Some("b")), Ok("b"));
    assert_eq!(input_from_either::<&str>(None, None), Err(EditError::NoInput));
}

#[test]
fn overflowing_payload_type_is_malformed() {
    assert!(!sei_scan_fits(&[0x4E, 0x01, 0xFF, 0x01, 0x00, 0x80]));
    assert_eq!(process_nal(39, &[0x4E, 0x01, 0xFF, 0x01, 0x00, 0x80], &cll_config()), Err(EditError::MalformedSei));
    assert!(!sei_scan_fits(&[0x4E, 0x01, 0xFF, 0xFF, 0x01, 0x00, 0x80]));
}

#[test]
fn payload_type_255_is_scanned() {
    let nal = [0x4E, 0x01, 0xFF, 0x00, 0x01, 0xFF, 0x80];
    assert!(sei_scan_fits(&nal));
    assert_eq!(process_nal(39, &nal, &cll_config()).unwrap(), vec![nal.to_vec()]);
    assert!(sei_scan_fits(&TWO_MESSAGES));
    assert!(sei_scan_fits(&[0x4E, 0x01, 0x05, 0x02, 0xFF, 0x01, 0x80]));
    assert!(!sei_scan_fits(&[0x4E, 0x01, 0x05, 0x02, 0xFF, 0xFF, 0xFF, 0x01, 0x80]));
}
