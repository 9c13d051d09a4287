use axe_sysex::framing::find_sysex_message_end;
use axe_sysex::framing::find_sysex_message_start;
use axe_sysex::framing::parse_sysex_messages;

#[test]
fn start_found_at_position_zero() {
    assert_eq!(find_sysex_message_start(&[0xF0, 0x00, 0xF7]), Some(0));
}

#[test]
fn start_missing_when_first_byte_is_not_the_sentinel() {
    assert_eq!(find_sysex_message_start(&[0x00, 0xF0, 0xF7]), None);
    assert_eq!(find_sysex_message_start(&[]), None);
}

#[test]
fn end_is_the_first_end_sentinel() {
    assert_eq!(find_sysex_message_end(&[0xF0, 0x00, 0xF7, 0x01, 0xF7]), Some(2));
    assert_eq!(find_sysex_message_end(&[0xF7]), Some(0));
}

#[test]
fn end_missing_without_the_sentinel() {
    assert_eq!(find_sysex_message_end(&[0xF0, 0x00, 0x01]), None);
    assert_eq!(find_sysex_message_end(&[]), None);
}

#[test]
fn empty_input_yields_no_frames() {
    let frames = parse_sysex_messages(&[]).expect("empty input is well formed");
    assert_eq!(frames.len(), 0);
}

#[test]
fn single_frame_is_returned_whole() {
    let data = [0xF0, 0x0A, 0x0B, 0xF7];
    let frames = parse_sysex_messages(&data).expect("one well-formed frame");
    assert_eq!(frames.len(), 1);
    assert_eq!(frames[0], vec![0xF0, 0x0A, 0x0B, 0xF7]);
}

#[test]
fn concatenated_frames_round_trip_in_order() {
    let first = [0xF0, 0x00, 0x01, 0x74, 0x03, 0x77, 0x7F, 0x00, 0x0E, 0xF7];
    let second = [0xF0, 0x0A, 0x0B, 0xF7];
    let third = [0xF0, 0xF7];
    let mut data: Vec<u8> = Vec::new();
    data.extend_from_slice(&first);
    data.extend_from_slice(&second);
    data.extend_from_slice(&third);
    let frames = parse_sysex_messages(&data).expect("three well-formed frames");
    assert_eq!(frames.len(), 3);
    assert_eq!(frames[0], first.to_vec());
    assert_eq!(frames[1], second.to_vec());
    assert_eq!(frames[2], third.to_vec());
}

#[test]
fn leading_junk_fails_extraction() {
    assert_eq!(parse_sysex_messages(&[0x00, 0xF0, 0x0A, 0xF7]), None);
}

#[test]
fn missing_end_sentinel_fails_extraction() {
    assert_eq!(parse_sysex_messages(&[0xF0, 0x0A, 0x0B]), None);
}

#[test]
fn junk_between_frames_fails_extraction() {
    assert_eq!(parse_sysex_messages(&[0xF0, 0xF7, 0x55, 0xF0, 0xF7]), None);
}
