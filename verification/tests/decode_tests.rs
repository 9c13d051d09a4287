use axe_sysex::decode::axe_model_name;
use axe_sysex::decode::get_checksums;
use axe_sysex::decode::read_syx;
use axe_sysex::decode::validate_header;
use axe_sysex::decode::Target;
use axe_sysex::parse_preset;

// The concrete scenario frame: model 0x03 ("Axe-Fx II"), message type 0x77,
// target selector 0x7F (current edit buffer). The checksum byte 0x0E is the
// XOR of the eight bytes before it, masked to the low seven bits.
const EDIT_BUFFER_FRAME: [u8; 10] = [0xF0, 0x00, 0x01, 0x74, 0x03, 0x77, 0x7F, 0x00, 0x0E, 0xF7];

// Same header, but target selector 0x00 and preset number 0x05; checksum
// recomputed accordingly.
const BANK_FRAME: [u8; 10] = [0xF0, 0x00, 0x01, 0x74, 0x03, 0x77, 0x00, 0x05, 0x74, 0xF7];

#[test]
fn scenario_frame_decodes_to_edit_buffer_preset() {
    let preset = parse_preset(&EDIT_BUFFER_FRAME).expect("the frame is valid");
    assert_eq!(preset.model, "Axe-Fx II");
    assert!(matches!(preset.target, Target::CurrentEditBuffer));
}

#[test]
fn edit_buffer_selector_wins_regardless_of_preset_byte() {
    // Offset 7 varies; offset 6 = 0x7F still addresses the edit buffer.
    let mut frame = EDIT_BUFFER_FRAME;
    frame[7] = 0x31;
    frame[8] = 0x0E ^ 0x31;
    let preset = read_syx(&frame).expect("the frame is valid");
    assert!(matches!(preset.target, Target::CurrentEditBuffer));
}

#[test]
fn bank_frame_decodes_to_bank_and_preset() {
    let preset = read_syx(&BANK_FRAME).expect("the frame is valid");
    assert_eq!(preset.model, "Axe-Fx II");
    assert!(matches!(preset.target, Target::BankAndPreset { bank: 0, preset: 5 }));
}

#[test]
fn stored_and_computed_checksums_of_the_scenario_frame() {
    let (stored, computed) = get_checksums(&EDIT_BUFFER_FRAME);
    assert_eq!(stored, 0x0E);
    assert_eq!(computed, 0x0E);
}

#[test]
fn checksum_is_deterministic() {
    let once = get_checksums(&BANK_FRAME);
    let twice = get_checksums(&BANK_FRAME);
    assert_eq!(once, twice);
}

#[test]
fn flipping_a_payload_byte_breaks_the_checksum() {
    // Offset 7 changes from 0x00 to 0x01 without recomputing the checksum.
    let mut frame = EDIT_BUFFER_FRAME;
    frame[7] = 0x01;
    assert!(read_syx(&frame).is_none());
    assert!(parse_preset(&frame).is_none());
}

#[test]
fn wrong_vendor_byte_rejects_the_frame() {
    // Offset 1 is 0x01 instead of 0x00; everything else is untouched.
    let mut frame = EDIT_BUFFER_FRAME;
    frame[1] = 0x01;
    assert!(read_syx(&frame).is_none());
    assert!(parse_preset(&frame).is_none());
}

#[test]
fn header_accepts_each_known_message_type() {
    for message_type in [0x77, 0x7A, 0x04] {
        let mut frame = EDIT_BUFFER_FRAME;
        frame[5] = message_type;
        assert!(validate_header(&frame));
    }
}

#[test]
fn header_rejects_unknown_message_type() {
    let mut frame = EDIT_BUFFER_FRAME;
    frame[5] = 0x05;
    assert!(!validate_header(&frame));
    frame[8] = 0x0E ^ 0x77 ^ 0x05;
    assert!(read_syx(&frame).is_none());
}

#[test]
fn known_model_codes_map_to_their_names() {
    assert_eq!(axe_model_name(0x00), "Axe-Fx Standard");
    assert_eq!(axe_model_name(0x01), "Axe-Fx Ultra");
    assert_eq!(axe_model_name(0x03), "Axe-Fx II");
    assert_eq!(axe_model_name(0x05), "FX8");
    assert_eq!(axe_model_name(0x06), "Axe-Fx II XL");
    assert_eq!(axe_model_name(0x07), "Axe-Fx II XL+");
    assert_eq!(axe_model_name(0x08), "AX8");
}

#[test]
fn every_model_code_maps_to_a_nonempty_name() {
    for code in 0..=255u8 {
        assert!(!axe_model_name(code).is_empty());
    }
    assert_eq!(axe_model_name(0x02), "Unknown");
    assert_eq!(axe_model_name(0xFF), "Unknown");
}

#[test]
fn unknown_model_still_decodes_structurally() {
    // Model code 0x42 is outside the table; the frame still decodes.
    let mut frame = EDIT_BUFFER_FRAME;
    frame[4] = 0x42;
    frame[8] = 0x0E ^ 0x03 ^ 0x42;
    let preset = read_syx(&frame).expect("unknown models are not an error");
    assert_eq!(preset.model, "Unknown");
}

#[test]
fn frames_too_short_for_the_header_are_rejected() {
    assert!(read_syx(&[0xF0, 0xF7]).is_none());
    assert!(read_syx(&[0xF0, 0x00, 0x01, 0x74, 0x03, 0x77, 0xF7]).is_none());
    assert!(parse_preset(&[0xF0, 0xF7]).is_none());
}

#[test]
fn empty_input_yields_no_preset() {
    assert!(parse_preset(&[]).is_none());
}

#[test]
fn malformed_framing_yields_no_preset() {
    assert!(parse_preset(&[0x00, 0xF0, 0xF7]).is_none());
    assert!(parse_preset(&[0xF0, 0x00, 0x01]).is_none());
}

#[test]
fn only_the_first_frame_is_decoded() {
    // A junk first frame followed by the valid scenario frame: no preset.
    let mut data: Vec<u8> = vec![0xF0, 0x0A, 0xF7];
    data.extend_from_slice(&EDIT_BUFFER_FRAME);
    assert!(parse_preset(&data).is_none());

    // The valid frame first: it decodes, whatever follows.
    let mut data: Vec<u8> = EDIT_BUFFER_FRAME.to_vec();
    data.extend_from_slice(&[0xF0, 0x0A, 0xF7]);
    let preset = parse_preset(&data).expect("the first frame is valid");
    assert_eq!(preset.model, "Axe-Fx II");
}

#[test]
fn minimal_frame_with_overlapping_checksum_position() {
    // In an eight-byte frame the checksum sits at offset 6, which is also the
    // target selector; the decoder reads both meanings from the same byte.
    let frame = [0xF0, 0x00, 0x01, 0x74, 0x03, 0x77, 0x71, 0xF7];
    let (stored, computed) = get_checksums(&frame);
    assert_eq!(stored, 0x71);
    assert_eq!(computed, 0x71);
    let preset = read_syx(&frame).expect("checksum matches");
    assert!(matches!(preset.target, Target::BankAndPreset { bank: 0x71, preset: 0xF7 }));
}
