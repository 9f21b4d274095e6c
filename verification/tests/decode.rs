use hci_parser_rs::hci::{
    opcode_to_ocf, opcode_to_ogf, EvtCommandComplete, HciCmd, HciCmdParam, HciEvt, HciEvtParam,
    HciPacket, OcfInquiry, OcfReset, OgfControllerAndBaseband, OgfLinkControl,
};
use hci_parser_rs::{
    str_to_array, DecodeStatus, FieldLoc, HostStack, ParseNodeOpt, ParseNodeOptA,
};

fn loc_bytes(f: &FieldLoc) -> (u8, u8) {
    match f {
        FieldLoc::Bytes(b) => (b.start_byte, b.len_in_bytes),
        _ => panic!("expected a byte location"),
    }
}

fn loc_bits(f: &FieldLoc) -> (u8, u8, u8, u8) {
    match f {
        FieldLoc::Bits(b) => (b.start_byte, b.len_in_bytes, b.start_bit, b.len_in_bits),
        _ => panic!("expected a bit location"),
    }
}

#[test]
fn opcode_split_is_canonical() {
    assert_eq!(opcode_to_ogf(0x0c03), 0x03);
    assert_eq!(opcode_to_ocf(0x0c03), 0x03);
    assert_eq!(opcode_to_ogf(0x0401), 0x01);
    assert_eq!(opcode_to_ocf(0x0401), 0x01);
    assert_eq!(opcode_to_ogf(0xffff), 0x3f);
    assert_eq!(opcode_to_ocf(0xffff), 0x3ff);
}

#[test]
fn reset_command_decodes() {
    let data = str_to_array("03 0c 00");
    let cmd = HciCmd::new(&data).expect("three bytes suffice");
    assert_eq!(cmd.opcode, 0x0c03);
    assert_eq!(cmd.param_len, 0);
    assert_eq!(
        cmd.param,
        HciCmdParam::ControllerAndBaseband(OgfControllerAndBaseband::Reset(Some(OcfReset {})))
    );
}

#[test]
fn reset_command_value_and_location_map() {
    let data = str_to_array("03 0c 00");
    let cmd = HciCmd::new(&data).unwrap();
    let fields = cmd.fields(0);
    // Opcode bracket: value 0x0C03 pinned to bytes (0, 2).
    assert_eq!(fields[0].key, "Opcode");
    assert_eq!(fields[0].status, DecodeStatus::SubtreeStart);
    assert_eq!(loc_bytes(&fields[0].loc), (0, 2));
    // OCF: value 3, named Reset, bits (0, 10) of bytes (0, 2).
    assert_eq!(fields[1].key, "Opcode Command Field (OCF)");
    assert_eq!(fields[1].symbolic, "Reset");
    assert_eq!(fields[1].status, DecodeStatus::Valid);
    assert_eq!(loc_bits(&fields[1].loc), (0, 2, 0, 10));
    // OGF: value 3, bits (10, 6) rooted at byte 1.
    assert_eq!(fields[2].key, "Opcode Group Field (OGF)");
    assert_eq!(fields[2].symbolic, "Controller & Baseband");
    assert_eq!(loc_bits(&fields[2].loc), (1, 1, 10, 6));
    assert_eq!(fields[3].status, DecodeStatus::SubtreeEnd);
    // Parameter Total Length at byte (2, 1).
    assert_eq!(fields[4].key, "Parameter Total Length");
    assert_eq!(loc_bytes(&fields[4].loc), (2, 1));
}

#[test]
fn reset_command_renders() {
    let data = str_to_array("03 0c 00");
    let cmd = HciCmd::new(&data).unwrap();
    let expected = "\"Opcode\": {\"Opcode Command Field (OCF)\": [0x3, \"Reset\", \"B(0, 2), b(0, 10)\", \"\"], \"Opcode Group Field (OGF)\": [0x3, \"Controller & Baseband\", \"B(1, 1), b(10, 6)\", \"\"]}, \"Parameter Total Length\": [0x0, \"\", \"B(2, 1)\", \"\"], \"Reset\": [\"\", \"\", \"B(3, 0)\", \"\"]";
    assert_eq!(cmd.as_json(0), expected);
}

#[test]
fn full_reset_packet_via_parse() {
    let mut args = HostStack::new();
    let data = str_to_array("01 03 0c 00");
    let json = hci_parser_rs::hci::parse(&data, &mut args);
    assert!(json.starts_with("\"Packet Type\": [0x1, \"Cmd\", \"B(0, 1)\", \"\"], "));
    // The command's own locations shift by the packet-type byte.
    assert!(json.contains("\"Parameter Total Length\": [0x0, \"\", \"B(3, 1)\", \"\"]"));
}

#[test]
fn inquiry_in_range_is_valid() {
    let data = str_to_array("01 04 05 33 8b 9e 30 01");
    let cmd = HciCmd::new(&data).unwrap();
    match &cmd.param {
        HciCmdParam::LinkControl(OgfLinkControl::Inquiry(Some(i))) => {
            assert_eq!(i.lap, 0x9e8b33);
            assert_eq!(i.inquiry_len, 0x30);
            assert_eq!(i.num_resp, 1);
            let fields = i.fields(3);
            assert_eq!(fields[0].key, "LAP");
            assert_eq!(fields[0].status, DecodeStatus::Valid);
            assert_eq!(loc_bytes(&fields[0].loc), (3, 3));
            assert_eq!(fields[1].key, "Inquiry Length");
            assert_eq!(fields[1].status, DecodeStatus::Valid);
            assert_eq!(loc_bytes(&fields[1].loc), (6, 1));
        }
        other => panic!("wrong dispatch: {:?}", other),
    }
}

#[test]
fn inquiry_out_of_range_reports_error_and_echoes_raw() {
    // LAP 0x030201 is outside the inquiry access code band; length 0x31 is
    // above the maximum; both fields still carry the raw values.
    let inquiry = OcfInquiry::new(&[0x01, 0x02, 0x03, 0x31, 0xff]).unwrap();
    assert_eq!(inquiry.lap, 0x030201);
    let fields = inquiry.fields(0);
    assert_eq!(fields[0].status, DecodeStatus::Error);
    assert_eq!(fields[1].status, DecodeStatus::Error);
    let json = inquiry.as_json(0);
    assert!(json.contains("\"LAP\": [0x30201, \"\", \"B(0, 3)\", \"Error\"]"));
    assert!(json.contains("\"Inquiry Length\": [0x31, \"\", \"B(3, 1)\", \"Error\"]"));
}

#[test]
fn inquiry_boundaries() {
    // Lowest and highest LAP of the band, lowest and highest length.
    let low = OcfInquiry::new(&[0x00, 0x8b, 0x9e, 0x01, 0x00]).unwrap();
    assert_eq!(low.fields(0)[0].status, DecodeStatus::Valid);
    assert_eq!(low.fields(0)[1].status, DecodeStatus::Valid);
    let high = OcfInquiry::new(&[0x3f, 0x8b, 0x9e, 0x30, 0x00]).unwrap();
    assert_eq!(high.fields(0)[0].status, DecodeStatus::Valid);
    let below = OcfInquiry::new(&[0xff, 0x8a, 0x9e, 0x00, 0x00]).unwrap();
    assert_eq!(below.fields(0)[0].status, DecodeStatus::Error);
    assert_eq!(below.fields(0)[1].status, DecodeStatus::Error);
    let above = OcfInquiry::new(&[0x40, 0x8b, 0x9e, 0x01, 0x00]).unwrap();
    assert_eq!(above.fields(0)[0].status, DecodeStatus::Error);
}

#[test]
fn truncated_command_is_none_not_panic() {
    assert_eq!(HciCmd::new(&[0x03, 0x0c]), None);
    assert_eq!(HciCmd::new(&[]), None);
    assert_eq!(OcfInquiry::new(&[1, 2, 3, 4]), None);
    assert_eq!(EvtCommandComplete::new(&[5, 3]), None);
    assert_eq!(HciEvt::new(&[0x0e]), None);
}

#[test]
fn unknown_packet_type_is_undefined() {
    let mut args = HostStack::new();
    let pkt = HciPacket::new(&[0x09, 0x01, 0x02], &mut args);
    assert_eq!(pkt, HciPacket::Undefined);
    let fields = pkt.fields(0);
    assert_eq!(fields[0].key, "Packet Type");
    assert_eq!(fields[0].symbolic, "");
    assert_eq!(fields[0].status, DecodeStatus::Error);
}

#[test]
fn unknown_ogf_group_is_undefined_with_error() {
    // Opcode 0x1fff: OGF 7 is not in the table.
    let cmd = HciCmd::new(&[0xff, 0x1f, 0x00]).unwrap();
    assert_eq!(cmd.param, HciCmdParam::Undefined);
    let fields = cmd.fields(0);
    assert_eq!(fields[2].symbolic, "");
    assert_eq!(fields[2].status, DecodeStatus::Error);
}

#[test]
fn command_complete_event_recovers_opcode_names() {
    let mut args = HostStack::new();
    let data = str_to_array("04 0e 04 05 03 0c 00");
    let pkt = HciPacket::new(&data, &mut args);
    let expected = HciPacket::Evt(Some(HciEvt {
        code: 0x0e,
        len: 4,
        param: Some(HciEvtParam::CommandComplete(Some(EvtCommandComplete {
            num_hci_command_packets: 5,
            command_opcode: 0x0c03,
        }))),
    }));
    assert_eq!(pkt, expected);
    let json = pkt.as_json(0);
    assert!(json.contains("\"Event Code\": [0xe, \"HCI_Command_Complete\", \"B(1, 1)\", \"\"]"));
    assert!(json.contains(
        "\"Opcode Group Field (OGF)\": [0x3, \"Controller & Baseband\", \"B(5, 1)\", \"\"]"
    ));
    assert!(json.contains("\"Opcode Command Field (OCF)\": [0x3, \"Reset\", \"B(4, 2)\", \"\"]"));
}

#[test]
fn unknown_event_code_reports_error() {
    let evt = HciEvt::new(&[0x7f, 0x00]).unwrap();
    assert_eq!(evt.param, Some(HciEvtParam::Undefined));
    let fields = evt.fields(0);
    assert_eq!(fields[1].key, "Event Code");
    assert_eq!(fields[1].symbolic, "");
    assert_eq!(fields[1].status, DecodeStatus::Error);
}

#[test]
fn truncation_is_marked_not_dropped() {
    let mut args = HostStack::new();
    // Command header cut short after the packet type byte: the shortfall
    // is reported as a zero-length Error field at the point it occurred.
    let pkt = HciPacket::new(&[0x01, 0x03, 0x0c], &mut args);
    assert_eq!(pkt, HciPacket::Cmd(None));
    let fields = pkt.fields(0);
    assert_eq!(fields.len(), 2);
    assert_eq!(fields[1].key, "Truncated");
    assert_eq!(fields[1].status, DecodeStatus::Error);
    assert_eq!(loc_bytes(&fields[1].loc), (1, 0));
    // An ACL packet whose payload is too short for an L2CAP header.
    let pkt = HciPacket::new(&[0x02, 0x80, 0x00, 0x03, 0x00, 0x08, 0x00, 0x01], &mut args);
    let json = pkt.as_json(0);
    assert!(json.contains("\"Truncated\": [\"\", \"\", \"B(5, 0)\", \"Error\"]"));
}

#[test]
fn location_ends_stay_inside_buffer() {
    // Decode a handful of packets and check every emitted location ends at
    // or before the end of its original buffer.
    let mut args = HostStack::new();
    let buffers = [
        "01 03 0c 00",
        "01 01 04 05 33 8b 9e 30 00",
        "04 0e 04 05 03 0c 00",
        "02 80 00 0c 00 08 00 01 00 02 02 04 00 01 00 40 00",
        "02 80 20 10 00 0c 00 01 00 03 02 08 00 69 00 40 00 00 00 00 00",
    ];
    for text in buffers {
        let data = str_to_array(text);
        let pkt = HciPacket::new(&data, &mut args);
        for f in pkt.fields(0) {
            let (start, len) = match f.loc {
                FieldLoc::Bytes(b) => (b.start_byte as usize, b.len_in_bytes as usize),
                FieldLoc::Bits(b) => (b.start_byte as usize, b.len_in_bytes as usize),
                FieldLoc::Absent => (0, 0),
            };
            assert!(start + len <= data.len(), "field {} escapes buffer", f.key);
        }
    }
}
