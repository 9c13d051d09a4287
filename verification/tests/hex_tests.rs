use axe_sysex::hex::hex_byte_string;
use axe_sysex::hex::hex_dump_string;

#[test]
fn bytes_render_as_two_uppercase_digits() {
    assert_eq!(hex_byte_string(0x00), "00");
    assert_eq!(hex_byte_string(0x0E), "0E");
    assert_eq!(hex_byte_string(0x7F), "7F");
    assert_eq!(hex_byte_string(0xF0), "F0");
    assert_eq!(hex_byte_string(0xFF), "FF");
}

#[test]
fn a_dump_spells_every_byte_with_a_trailing_space() {
    assert_eq!(hex_dump_string(&[]), "");
    assert_eq!(hex_dump_string(&[0xF0, 0x00, 0x01, 0x74, 0xF7]), "F0 00 01 74 F7 ");
}
