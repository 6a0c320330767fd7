use qasm::input::checks::{identify_type, normalize_hex_input, InputType};
use qasm::input::InputType as PlainInputType;

#[test]
fn normalize_plain_digits_unchanged() {
    assert_eq!(normalize_hex_input("90c3"), "90c3");
}

#[test]
fn normalize_pretty_list() {
    assert_eq!(normalize_hex_input("0x90, 0xC3"), "90C3");
}

#[test]
fn normalize_rust_array() {
    assert_eq!(
        normalize_hex_input("let data: [u8; 2] = [0x90, 0xC3];"),
        "90C3"
    );
}

#[test]
fn normalize_c_array() {
    assert_eq!(
        normalize_hex_input("unsigned char data[2] = { 0x90, 0xC3 };"),
        "90C3"
    );
}

#[test]
fn normalize_string_literal_and_escapes() {
    assert_eq!(normalize_hex_input("\"\\x90\\xc3\""), "90c3");
    assert_eq!(normalize_hex_input("\"0x90, 0xC3\""), "90C3");
}

#[test]
fn normalize_several_lines_and_blank_lines() {
    assert_eq!(normalize_hex_input("  0x90,\r\n\n\t0XC3 ;\n"), "90C3");
}

#[test]
fn normalize_keeps_other_characters() {
    assert_eq!(normalize_hex_input("mov eax, 1"), "moveax1");
}

#[test]
fn normalize_let_without_brackets_is_kept_whole() {
    assert_eq!(normalize_hex_input("let x = 5"), "letx=5");
}

#[test]
fn normalize_empty() {
    assert_eq!(normalize_hex_input(""), "");
    assert_eq!(normalize_hex_input("   \n  "), "");
}

#[test]
fn identify_hex_notations() {
    assert_eq!(identify_type(&["90 c3"]), InputType::Hex);
    assert_eq!(identify_type(&["90c3"]), InputType::Hex);
    assert_eq!(identify_type(&["0x90, 0xC3"]), InputType::Hex);
    assert_eq!(
        identify_type(&["let data: [u8; 2] = [0x90, 0xC3];"]),
        InputType::Hex
    );
    assert_eq!(
        identify_type(&["unsigned char data[2] = { 0x90, 0xC3 };"]),
        InputType::Hex
    );
    assert_eq!(identify_type(&["90", "c3"]), InputType::Hex);
}

#[test]
fn identify_assembly() {
    assert_eq!(identify_type(&["mov eax, 1"]), InputType::Assembly);
    assert_eq!(identify_type(&["nop"]), InputType::Assembly);
    assert_eq!(identify_type(&["loop:", "jmp loop"]), InputType::Assembly);
    assert_eq!(identify_type(&["90c"]), InputType::Assembly);
}

#[test]
fn identify_blank_is_assembly() {
    assert_eq!(identify_type(&[]), InputType::Assembly);
    assert_eq!(identify_type(&["", "   "]), InputType::Assembly);
    assert_eq!(identify_type(&[",,"]), InputType::Assembly);
}

#[test]
fn identify_colon_without_let_is_assembly() {
    assert_eq!(identify_type(&["00: 90"]), InputType::Assembly);
}

#[test]
fn identify_plain_version() {
    assert_eq!(
        qasm::input::identify_type(&["0x90, 0xc3"]),
        PlainInputType::Hex
    );
    assert_eq!(
        qasm::input::identify_type(&["mov eax, 1"]),
        PlainInputType::Assembly
    );
    assert_eq!(qasm::input::identify_type(&["a:"]), PlainInputType::Assembly);
    assert_eq!(qasm::input::identify_type(&["  "]), PlainInputType::Assembly);
    // only separators: nothing is left, which decodes
    assert_eq!(qasm::input::identify_type(&[",,"]), PlainInputType::Hex);
    // lines are concatenated without separator
    assert_eq!(qasm::input::identify_type(&["9", "0"]), PlainInputType::Hex);
    // "0 x" is not a prefix
    assert_eq!(qasm::input::identify_type(&["0 x90"]), PlainInputType::Assembly);
}

#[test]
fn decode_hex_accepts_and_rejects() {
    assert_eq!(qasm::hexcodec::decode_hex("90C3"), Some(vec![0x90, 0xc3]));
    assert_eq!(qasm::hexcodec::decode_hex("aBcD"), Some(vec![0xab, 0xcd]));
    assert_eq!(qasm::hexcodec::decode_hex(""), Some(vec![]));
    assert_eq!(qasm::hexcodec::decode_hex("9"), None);
    assert_eq!(qasm::hexcodec::decode_hex("zz"), None);
    assert_eq!(qasm::hexcodec::decode_hex("é0"), None);
}
