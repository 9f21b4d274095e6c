use hci_parser_rs::hci::{HciAcl, HciPacket};
use hci_parser_rs::l2cap::{
    Channel, ConfigOption, ConfigOptionData, ConfigOptionMTU, L2CAPSigData, L2CAPSignaling,
    SignalConnReq, SignalConnRsp, SignalInfoReq, L2CAP, L2CAPB, PSM,
};
use hci_parser_rs::sdp::SDP;
use hci_parser_rs::{str_to_array, HostStack, ParseNodeA, ParseNodeOpt, ParseNodeOptA};

fn feed(args: &mut HostStack, text: &str) -> HciPacket {
    let data = str_to_array(text);
    HciPacket::new(&data, args)
}

#[test]
fn connection_request_creates_record() {
    let mut args = HostStack::new();
    feed(&mut args, "02 80 00 0c 00 08 00 01 00 02 02 04 00 01 00 40 00");
    let chs = &args.l2cap_arg.channels;
    assert_eq!(chs.len(), 1);
    assert_eq!(chs[0].source_cid, 0x40);
    assert_eq!(chs[0].psm, 0x0001);
    assert_eq!(chs[0].identifier, 0x02);
    assert_eq!(chs[0].dest_cid, None);
    assert_eq!(chs[0].local_mtu, None);
    assert_eq!(chs[0].remote_mtu, None);
}

#[test]
fn repeated_connection_request_does_not_duplicate() {
    let mut args = HostStack::new();
    feed(&mut args, "02 80 00 0c 00 08 00 01 00 02 02 04 00 01 00 40 00");
    feed(&mut args, "02 80 00 0c 00 08 00 01 00 02 07 04 00 03 00 40 00");
    assert_eq!(args.l2cap_arg.channels.len(), 1);
    // The original record is kept untouched.
    assert_eq!(args.l2cap_arg.channels[0].psm, 0x0001);
    assert_eq!(args.l2cap_arg.channels[0].identifier, 0x02);
}

#[test]
fn connection_response_sets_dest_cid() {
    let mut args = HostStack::new();
    feed(&mut args, "02 80 00 0c 00 08 00 01 00 02 02 04 00 01 00 40 00");
    // Something unrelated happens in between: an echo request.
    feed(&mut args, "02 80 00 0c 00 08 00 01 00 08 03 04 00 aa bb cc dd");
    feed(&mut args, "02 80 20 10 00 0c 00 01 00 03 02 08 00 69 00 40 00 00 00 00 00");
    let chs = &args.l2cap_arg.channels;
    assert_eq!(chs.len(), 1);
    assert_eq!(chs[0].source_cid, 0x40);
    assert_eq!(chs[0].dest_cid, Some(0x69));
}

#[test]
fn configuration_request_sets_local_then_remote_mtu() {
    let mut args = HostStack::new();
    feed(&mut args, "02 80 00 0c 00 08 00 01 00 02 02 04 00 01 00 40 00");
    feed(&mut args, "02 80 20 10 00 0c 00 01 00 03 02 08 00 69 00 40 00 00 00 00 00");
    // ConfigurationReq whose destination CID matches the record's dest_cid:
    // seen from the opening side, so its local MTU is being negotiated.
    feed(&mut args, "02 80 00 10 00 0c 00 01 00 04 04 08 00 69 00 00 00 01 02 c0 00");
    assert_eq!(args.l2cap_arg.channels[0].local_mtu, Some(0x00c0));
    assert_eq!(args.l2cap_arg.channels[0].remote_mtu, None);
    // ConfigurationReq whose destination CID matches the record's
    // source_cid: the other endpoint, so the remote MTU.
    feed(&mut args, "02 80 20 10 00 0c 00 01 00 04 05 08 00 40 00 00 00 01 02 00 04");
    assert_eq!(args.l2cap_arg.channels[0].local_mtu, Some(0x00c0));
    assert_eq!(args.l2cap_arg.channels[0].remote_mtu, Some(0x0400));
}

#[test]
fn configuration_response_sets_remote_mtu() {
    let mut args = HostStack::new();
    feed(&mut args, "02 80 00 0c 00 08 00 01 00 02 02 04 00 01 00 40 00");
    feed(&mut args, "02 80 20 10 00 0c 00 01 00 03 02 08 00 69 00 40 00 00 00 00 00");
    // ConfigurationRsp whose source-CID field matches the record's dest_cid.
    feed(&mut args, "02 80 00 12 00 0e 00 01 00 05 05 0a 00 69 00 00 00 00 00 01 02 c0 00");
    assert_eq!(args.l2cap_arg.channels[0].remote_mtu, Some(0x00c0));
}

#[test]
fn non_signaling_packets_leave_records_unchanged() {
    let mut args = HostStack::new();
    feed(&mut args, "02 80 00 0c 00 08 00 01 00 02 02 04 00 01 00 40 00");
    feed(&mut args, "02 80 20 10 00 0c 00 01 00 03 02 08 00 69 00 40 00 00 00 00 00");
    let before = args.l2cap_arg.channels.clone();
    // An echo request, an information request, a disconnection request, a
    // command on another packet type, and an unknown signaling code.
    feed(&mut args, "02 80 00 0c 00 08 00 01 00 08 09 04 00 01 02 03 04");
    feed(&mut args, "02 80 00 0a 00 06 00 01 00 0a 0b 02 00 02 00");
    feed(&mut args, "02 80 00 0c 00 08 00 01 00 06 0c 04 00 69 00 40 00");
    feed(&mut args, "01 03 0c 00");
    feed(&mut args, "04 0e 04 05 03 0c 00");
    feed(&mut args, "02 80 00 0c 00 08 00 01 00 7f 0d 04 00 00 00 00 00");
    assert_eq!(args.l2cap_arg.channels, before);
}

#[test]
fn sdp_payload_resolved_after_establishment() {
    let mut args = HostStack::new();
    feed(&mut args, "02 80 00 0c 00 08 00 01 00 02 02 04 00 01 00 40 00");
    feed(&mut args, "02 80 20 10 00 0c 00 01 00 03 02 08 00 69 00 40 00 00 00 00 00");
    // ACL traffic on the dynamically allocated CID 0x69: the record's
    // dest_cid matches, its PSM says SDP, so the payload decodes as an SDP
    // header, not as Undefined.
    let pkt = feed(
        &mut args,
        "02 80 00 16 00 12 00 69 00 06 00 01 00 0d 35 03 19 11 0a 00 c0 35 03 09 00 04 00",
    );
    match pkt {
        HciPacket::Acl(Some(HciAcl {
            data: Some(L2CAP::L2CAPB(Some(L2CAPB { cid, payload, .. }))),
            ..
        })) => {
            assert_eq!(cid, 0x69);
            match payload {
                Channel::DynamicallyAllocated(PSM::SDP(Some(sdp))) => {
                    assert_eq!(sdp.pdu_id, 0x06);
                    assert_eq!(sdp.trans_id, 0x0100);
                    assert_eq!(sdp.param_len, 0x0d00);
                }
                other => panic!("payload not resolved to SDP: {:?}", other),
            }
        }
        other => panic!("unexpected decode: {:?}", other),
    }
}

#[test]
fn latest_matching_record_resolves_dynamic_cid() {
    let mut args = HostStack::new();
    // Two channels whose responses both assigned destination CID 0x69: the
    // record observed later decides the PSM, here SDP over RFCOMM.
    feed(&mut args, "02 80 00 0c 00 08 00 01 00 02 01 04 00 03 00 41 00");
    feed(&mut args, "02 80 00 10 00 0c 00 01 00 03 01 08 00 69 00 41 00 00 00 00 00");
    feed(&mut args, "02 80 00 0c 00 08 00 01 00 02 02 04 00 01 00 42 00");
    feed(&mut args, "02 80 00 10 00 0c 00 01 00 03 02 08 00 69 00 42 00 00 00 00 00");
    let pkt = feed(&mut args, "02 80 00 09 00 05 00 69 00 06 01 00 05 00");
    match pkt {
        HciPacket::Acl(Some(HciAcl {
            data: Some(L2CAP::L2CAPB(Some(L2CAPB { payload, .. }))),
            ..
        })) => {
            assert_eq!(
                payload,
                Channel::DynamicallyAllocated(PSM::SDP(Some(SDP {
                    pdu_id: 6,
                    trans_id: 1,
                    param_len: 5,
                })))
            );
        }
        other => panic!("unexpected decode: {:?}", other),
    }
}

#[test]
fn codes_without_payload_decode_to_bare_variants() {
    let mut args = HostStack::new();
    let cases: [(&str, L2CAPSigData); 6] = [
        ("01 01 04 00 00 00 00 00", L2CAPSigData::CommandRejectRspCode),
        ("06 02 04 00 69 00 40 00", L2CAPSigData::DisconnectionReqCode),
        ("07 02 04 00 69 00 40 00", L2CAPSigData::DisconnectionRspCode),
        ("08 03 04 00 aa bb cc dd", L2CAPSigData::EchoReqCode),
        ("09 03 04 00 aa bb cc dd", L2CAPSigData::EchoRspCode),
        ("0b 04 02 00 02 00", L2CAPSigData::InformationRspCode),
    ];
    for (text, expected) in cases {
        let data = str_to_array(text);
        let sig = L2CAPSigData::new(&data, &mut args, 1).unwrap();
        assert_eq!(sig, expected);
    }
    // An unknown code decodes to Undefined rather than failing.
    let data = str_to_array("7f 05 04 00 00 00 00 00");
    assert_eq!(
        L2CAPSigData::new(&data, &mut args, 1),
        Some(L2CAPSigData::Undefined)
    );
    assert!(args.l2cap_arg.channels.is_empty());
}

#[test]
fn unresolved_dynamic_cid_falls_back_to_undefined_psm() {
    let mut args = HostStack::new();
    // No connection was ever observed for CID 0x55.
    let pkt = feed(&mut args, "02 80 00 0a 00 06 00 55 00 06 00 01 00 0d 35");
    match pkt {
        HciPacket::Acl(Some(HciAcl {
            data: Some(L2CAP::L2CAPB(Some(L2CAPB { payload, .. }))),
            ..
        })) => {
            assert_eq!(payload, Channel::DynamicallyAllocated(PSM::Undefined));
        }
        other => panic!("unexpected decode: {:?}", other),
    }
}

#[test]
fn acl_header_bit_split() {
    let mut args = HostStack::new();
    // Handle word 0x2080: handle 0x080, PB 0b10, BC 0b00.
    let pkt = feed(&mut args, "02 80 20 04 00 01 00 01 00");
    match pkt {
        HciPacket::Acl(Some(acl)) => {
            assert_eq!(acl.handle, 0x080);
            assert_eq!(acl.pb_flag, 0x2);
            assert_eq!(acl.bc_flag, 0x0);
            assert_eq!(acl.data_len, 4);
        }
        other => panic!("unexpected decode: {:?}", other),
    }
}

#[test]
fn signaling_decode_structure() {
    let mut args = HostStack::new();
    let data = str_to_array("02 02 04 00 01 00 40 00");
    let sig = L2CAPSignaling::new(&data, &mut args).unwrap();
    assert_eq!(sig.code, 0x02);
    assert_eq!(sig.identifier, 0x02);
    assert_eq!(sig.data_length, 4);
    assert_eq!(
        sig.data,
        Some(L2CAPSigData::ConnectionReqCode(Some(SignalConnReq {
            psm: 0x0001,
            source_cid: 0x0040,
        })))
    );
}

#[test]
fn channel_id_and_code_symbols() {
    let mut args = HostStack::new();
    let data = str_to_array("08 00 01 00 02 02 04 00 01 00 40 00");
    let pdu = L2CAPB::new(&data, &mut args).unwrap();
    let json = pdu.as_json(0);
    assert!(json.contains("\"Channel ID\": [0x1, \"Signaling Channel\", \"B(2, 2)\", \"\"]"));
    assert!(json.contains("\"Code\": [0x2, \"ConnectionReq\", \"B(4, 1)\", \"\"]"));
    // A reserved CID and an unknown signaling code read as errors.
    let data2 = str_to_array("04 00 05 00 aa bb cc dd");
    let pdu2 = L2CAPB::new(&data2, &mut args).unwrap();
    let json2 = pdu2.as_json(0);
    assert!(json2.contains("\"Channel ID\": [0x5, \"\", \"B(2, 2)\", \"Error\"]"));
    let data3 = str_to_array("04 00 01 00 7e 01 00 00");
    let pdu3 = L2CAPB::new(&data3, &mut args).unwrap();
    let json3 = pdu3.as_json(0);
    assert!(json3.contains("\"Code\": [0x7e, \"\", \"B(4, 1)\", \"Error\"]"));
}

#[test]
fn connection_response_symbols() {
    let mut args = HostStack::new();
    let data = str_to_array("69 00 40 00 00 00 00 00");
    let rsp = SignalConnRsp::new(&data, &mut args, 3).unwrap();
    assert_eq!(
        rsp,
        SignalConnRsp { dest_cid: 0x69, source_cid: 0x40, result: 0, status: 0 }
    );
    let json = rsp.as_json(0);
    assert!(json.contains("\"Result\": [0x0, \"Connection Accepted\", \"B(4, 2)\", \"\"]"));
    assert!(json.contains(
        "\"Status\": [0x0, \"No further information available\", \"B(6, 2)\", \"\"]"
    ));
    // Unknown result and status codes surface as field-level errors.
    let data2 = str_to_array("69 00 40 00 05 00 09 00");
    let rsp2 = SignalConnRsp::new(&data2, &mut args, 3).unwrap();
    let json2 = rsp2.as_json(0);
    assert!(json2.contains("\"Result\": [0x5, \"\", \"B(4, 2)\", \"Error\"]"));
    assert!(json2.contains("\"Status\": [0x9, \"\", \"B(6, 2)\", \"Error\"]"));
}

#[test]
fn wrong_length_signals_are_refused() {
    let mut args = HostStack::new();
    assert_eq!(SignalConnReq::new(&[1, 0, 0x40], &mut args, 1), None);
    assert_eq!(SignalConnReq::new(&[1, 0, 0x40, 0, 9], &mut args, 1), None);
    assert_eq!(SignalConnRsp::new(&[0x69, 0, 0x40, 0], &mut args, 1), None);
    assert_eq!(SignalInfoReq::new(&[2], 1), None);
    assert!(args.l2cap_arg.channels.is_empty());
}

#[test]
fn config_option_decoding() {
    // A well-formed MTU option.
    let opt = ConfigOption::new(&[0x01, 0x02, 0xc0, 0x00]).unwrap();
    assert_eq!(opt.opt_type, 1);
    assert_eq!(opt.opt_len, 2);
    assert_eq!(
        opt.data,
        Some(ConfigOptionData::MTU(ConfigOptionMTU { mtu: 0x00c0 }))
    );
    // A truncated MTU option keeps the header but no body.
    let trunc = ConfigOption::new(&[0x01, 0x02]).unwrap();
    assert_eq!(trunc.data, None);
    // Another known option type is acknowledged by name only.
    let flush = ConfigOption::new(&[0x02, 0x02, 0x10, 0x00]).unwrap();
    assert_eq!(flush.data, Some(ConfigOptionData::FlushTimeout));
    // An unknown option type falls to Undefined.
    let unknown = ConfigOption::new(&[0x7f, 0x00]).unwrap();
    assert_eq!(unknown.data, Some(ConfigOptionData::Undefined));
}

#[test]
fn psm_names_and_values() {
    let sdp = PSM::new(&[], 0x0001);
    assert_eq!(sdp, PSM::SDP(None));
    assert_eq!(sdp.get_psm_name(), "SDP");
    assert_eq!(sdp.get_psm_value(), 0x0001);
    let rfcomm = PSM::new(&[], 0x0003);
    assert_eq!(rfcomm.get_psm_name(), "RFCOMM");
    assert_eq!(rfcomm.get_psm_value(), 0x0003);
    let eatt = PSM::new(&[], 0x0027);
    assert_eq!(eatt.get_psm_name(), "EATT");
    assert_eq!(eatt.get_psm_value(), 0x0027);
    let unknown = PSM::new(&[], 0x4242);
    assert_eq!(unknown, PSM::Undefined);
    assert_eq!(unknown.get_psm_name(), "Undefined");
}

#[test]
fn sdp_header_decoding() {
    let sdp = SDP::new(&[0x06, 0x01, 0x00, 0x0d, 0x35]).unwrap();
    assert_eq!(
        sdp,
        SDP { pdu_id: 6, trans_id: 0x0001, param_len: 0x350d }
    );
    assert_eq!(SDP::new(&[0x06, 0x01, 0x00, 0x0d]), None);
    let json = sdp.as_json(9);
    let expected = "\"SDP\": {\"PDU ID\": [0x6, \"\", \"B(9, 1)\", \"\"], \"Transaction ID\": [0x1, \"\", \"B(10, 2)\", \"\"], \"Parameter Length\": [0x350d, \"\", \"B(12, 2)\", \"\"]}";
    assert_eq!(json, expected);
}

#[test]
fn unknown_psm_in_connection_request_is_error() {
    let mut args = HostStack::new();
    let data = str_to_array("99 00 41 00");
    let req = SignalConnReq::new(&data, &mut args, 1).unwrap();
    assert_eq!(req.psm, 0x0099);
    let json = req.as_json(0);
    assert!(json.contains("\"PSM\": [0x99, \"\", \"B(0, 2)\", \"Error\"]"));
    // The record is still created: unknown PSMs are tolerated.
    assert_eq!(args.l2cap_arg.channels.len(), 1);
    assert_eq!(args.l2cap_arg.channels[0].psm, 0x0099);
}
