use qasm::hexcodec::decode_hex;
use qasm::input::checks::{identify_type, normalize_hex_input, InputType};
use qasm::output::{format_bytes, join_hex_bytes, AsmSyntax, HexFormat};

const ALL: [HexFormat; 5] = [
    HexFormat::Pretty,
    HexFormat::RawHex,
    HexFormat::RustVector,
    HexFormat::CStyleArray,
    HexFormat::StringLiteral,
];

#[test]
fn format_each_kind() {
    let b = [0x90u8, 0xc3, 0x0a];
    assert_eq!(format_bytes(&b, &HexFormat::Pretty), "0x90, 0xC3, 0x0A");
    assert_eq!(format_bytes(&b, &HexFormat::RawHex), "90c30a");
    assert_eq!(
        format_bytes(&b, &HexFormat::RustVector),
        "let data: [u8; 3] = [0x90, 0xC3, 0x0A];"
    );
    assert_eq!(
        format_bytes(&b, &HexFormat::CStyleArray),
        "unsigned char data[3] = { 0x90, 0xC3, 0x0A };"
    );
    assert_eq!(
        format_bytes(&b, &HexFormat::StringLiteral),
        "\"0x90, 0xC3, 0x0A\""
    );
}

#[test]
fn format_empty_bytes() {
    assert_eq!(format_bytes(&[], &HexFormat::Pretty), "");
    assert_eq!(format_bytes(&[], &HexFormat::RawHex), "");
    assert_eq!(format_bytes(&[], &HexFormat::RustVector), "let data: [u8; 0] = [];");
    assert_eq!(
        format_bytes(&[], &HexFormat::CStyleArray),
        "unsigned char data[0] = {  };"
    );
    assert_eq!(format_bytes(&[], &HexFormat::StringLiteral), "\"\"");
}

#[test]
fn format_counts_many_bytes_in_decimal() {
    let b = vec![0xffu8; 12];
    assert!(format_bytes(&b, &HexFormat::RustVector).starts_with("let data: [u8; 12] = [0xFF, "));
}

#[test]
fn raw_hex_is_lower_case() {
    assert_eq!(format_bytes(&[0xab, 0x01], &HexFormat::RawHex), "ab01");
}

#[test]
fn join_hex_bytes_prefix_and_separator() {
    assert_eq!(join_hex_bytes(&[0x01, 0xfe], "\\x", ""), "\\x01\\xFE");
    assert_eq!(join_hex_bytes(&[0x01, 0xfe], "", "-"), "01-FE");
    assert_eq!(join_hex_bytes(&[], "0x", ", "), "");
}

#[test]
fn format_labels() {
    assert_eq!(AsmSyntax::Intel.as_str(), "Intel");
    assert_eq!(AsmSyntax::Att.as_str(), "AT&T");
    assert_eq!(HexFormat::Pretty.as_str(), "Pretty");
    assert_eq!(HexFormat::RawHex.as_str(), "Raw hex");
    assert_eq!(HexFormat::RustVector.as_str(), "Rust");
    assert_eq!(HexFormat::CStyleArray.as_str(), "C");
    assert_eq!(HexFormat::StringLiteral.as_str(), "String literal");
}

#[test]
fn value_names() {
    assert_eq!(AsmSyntax::Intel.value_name(), "intel");
    assert_eq!(AsmSyntax::Att.value_name(), "att");
    assert_eq!(HexFormat::Pretty.value_name(), "pretty");
    assert_eq!(HexFormat::RawHex.value_name(), "raw-hex");
    assert_eq!(HexFormat::RustVector.value_name(), "rust-vector");
    assert_eq!(HexFormat::CStyleArray.value_name(), "c-style-array");
    assert_eq!(HexFormat::StringLiteral.value_name(), "string-literal");
}

#[test]
fn format_cycle_next_and_last() {
    assert_eq!(HexFormat::Pretty.next(), HexFormat::RawHex);
    assert_eq!(HexFormat::StringLiteral.next(), HexFormat::Pretty);
    assert_eq!(HexFormat::Pretty.last(), HexFormat::StringLiteral);
    assert_eq!(HexFormat::CStyleArray.last(), HexFormat::RustVector);
    for f in ALL {
        assert_eq!(f.next().last(), f);
        assert_eq!(f.last().next(), f);
        assert_eq!(f.next().next().next().next().next(), f);
    }
}

#[test]
fn syntax_switch_twice() {
    assert_eq!(AsmSyntax::Intel.next(), AsmSyntax::Att);
    assert_eq!(AsmSyntax::Att.next(), AsmSyntax::Intel);
    assert_eq!(AsmSyntax::Intel.next().next(), AsmSyntax::Intel);
}

#[test]
fn formatted_bytes_read_back_as_hex() {
    let b = [0x48u8, 0x31, 0xc0, 0x00, 0xc3];
    for f in ALL {
        let text = format_bytes(&b, &f);
        assert_eq!(identify_type(&[text.as_str()]), InputType::Hex);
        assert_eq!(decode_hex(&normalize_hex_input(&text)), Some(b.to_vec()));
    }
}
