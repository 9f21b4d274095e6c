use hci_parser_rs::{
    num_field, render_fields, str_to_array, subtree_end, subtree_start, u64_to_dec, u64_to_hex,
    u64_to_hex0x, DecodeStatus, FieldLoc, ParseBitsNode, ParseBytesNode, ParseNodeFormat,
};

#[test]
fn hex_rendering() {
    assert_eq!(u64_to_hex(0), "0");
    assert_eq!(u64_to_hex(0x1a2b), "1a2b");
    assert_eq!(u64_to_hex0x(0), "0x0");
    assert_eq!(u64_to_hex0x(0x0c03), "0xc03");
    assert_eq!(u64_to_hex0x(0xdeadbeef), "0xdeadbeef");
    assert_eq!(u64_to_hex0x(u64::MAX), "0xffffffffffffffff");
}

#[test]
fn dec_rendering() {
    assert_eq!(u64_to_dec(0), "0");
    assert_eq!(u64_to_dec(7), "7");
    assert_eq!(u64_to_dec(255), "255");
    assert_eq!(u64_to_dec(1000), "1000");
}

#[test]
fn node_format_of_values() {
    assert_eq!(0x2au8.node_format(), "0x2a");
    assert_eq!(0x0c03u16.node_format(), "0xc03");
    assert_eq!(0x9e8b33u32.node_format(), "0x9e8b33");
    assert_eq!("Reset".node_format(), "\"Reset\"");
    assert_eq!(String::from("x").node_format(), "\"x\"");
}

#[test]
fn bytes_node_format() {
    let node = ParseBytesNode::new(2, 3);
    assert_eq!(
        node.format("Key", 0x12u8, "alias", "oops"),
        "\"Key\": [0x12, \"alias\", \"B(2, 3)\", \"oops\"]"
    );
    assert_eq!(
        node.format("Name", "text", "", ""),
        "\"Name\": [\"text\", \"\", \"B(2, 3)\", \"\"]"
    );
}

#[test]
fn bits_node_format() {
    let node = ParseBitsNode::new(0, 2, 0, 10);
    assert_eq!(
        node.format("OCF", 0x3u16, "Reset", ""),
        "\"OCF\": [0x3, \"Reset\", \"B(0, 2), b(0, 10)\", \"\"]"
    );
}

#[test]
fn renderer_separators_and_brackets() {
    let fields = vec![
        subtree_start("Top"),
        num_field(
            "A",
            1,
            "",
            FieldLoc::Bytes(ParseBytesNode::new(0, 1)),
            DecodeStatus::Valid,
        ),
        num_field(
            "B",
            2,
            "two",
            FieldLoc::Bytes(ParseBytesNode::new(1, 1)),
            DecodeStatus::Error,
        ),
        subtree_end(),
        num_field("C", 3, "", FieldLoc::Absent, DecodeStatus::Valid),
    ];
    assert_eq!(
        render_fields(&fields),
        "\"Top\": {\"A\": [0x1, \"\", \"B(0, 1)\", \"\"], \"B\": [0x2, \"two\", \"B(1, 1)\", \"Error\"]}, \"C\": [0x3, \"\", \"\", \"\"]"
    );
    assert_eq!(render_fields(&Vec::new()), "");
}

#[test]
fn str_to_array_parses_hex_pairs() {
    assert_eq!(str_to_array("01 03 0c 00"), vec![0x01, 0x03, 0x0c, 0x00]);
    assert_eq!(str_to_array("ff"), vec![0xff]);
    assert_eq!(str_to_array("AB cd 0E"), vec![0xab, 0xcd, 0x0e]);
}
