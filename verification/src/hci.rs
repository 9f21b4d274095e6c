//! HCI layer: packet-type dispatch, command opcode (OGF/OCF) decoding,
//! event decoding, and the ACL header that hands its payload to L2CAP.

use vstd::prelude::*;

use crate::l2cap::L2CAP;
use crate::l2cap::L2CAPChannel;

use crate::DecodeField;
use crate::DecodeStatus;
use crate::FieldLoc;
use crate::HostStack;
use crate::ParseBitsNode;
use crate::ParseBytesNode;
use crate::ParseNodeA;
use crate::ParseNodeOpt;
use crate::ParseNodeOptA;
use crate::SpecField;
use crate::SpecLoc;
use crate::le16_at;
use crate::num_field;
use crate::render_fields;
use crate::spec_le16;
use crate::spec_num_field;
use crate::spec_quoted;
use crate::spec_render_fields;
use crate::spec_subtree_end;
use crate::spec_subtree_start;
use crate::subtree_end;
use crate::subtree_start;
use crate::text_field;
use crate::views_of;

verus! {

/// Opcode Group Field: the upper 6 bits of a command opcode.
pub fn opcode_to_ogf(opcode: u16) -> (r: u8)
    ensures
        r == opcode >> 10,
{
    proof {
        assert(opcode >> 10 < 256) by (bit_vector);
    }
    (opcode >> 10) as u8
}

/// Opcode Command Field: the lower 10 bits of a command opcode.
pub fn opcode_to_ocf(opcode: u16) -> (r: u16)
    ensures
        r == opcode & 0x3ff,
{
    opcode & 0x3ff
}

// ---------------------------------------------------------------------------
// Opcode symbol tables
// ---------------------------------------------------------------------------

/// The name of an Opcode Group Field value; empty when the group is not in
/// the table.
pub open spec fn spec_ogf_name(ogf: u8) -> Seq<char> {
    if ogf == 1 {
        "Link Control"@
    } else if ogf == 2 {
        "Link Policy"@
    } else if ogf == 3 {
        "Controller & Baseband"@
    } else if ogf == 4 {
        "Informational Parameters"@
    } else if ogf == 5 {
        "Status Parameters"@
    } else if ogf == 6 {
        "Testing"@
    } else if ogf == 8 {
        "LE Controller"@
    } else {
        ""@
    }
}

/// Looks an OGF value up in the name table, usable without decoding a full
/// command buffer.
pub fn ogf_name_of(ogf: u8) -> (r: &'static str)
    ensures
        r@ == spec_ogf_name(ogf),
{
    match ogf {
        1 => "Link Control",
        2 => "Link Policy",
        3 => "Controller & Baseband",
        4 => "Informational Parameters",
        5 => "Status Parameters",
        6 => "Testing",
        8 => "LE Controller",
        _ => "",
    }
}

/// The name of a command within its group; empty when not enumerated.
pub open spec fn spec_ocf_name(ogf: u8, ocf: u16) -> Seq<char> {
    if ogf == 1 && ocf == 1 {
        "Inquiry"@
    } else if ogf == 3 && ocf == 3 {
        "Reset"@
    } else {
        ""@
    }
}

/// Looks an (OGF, OCF) pair up in the command name table.
pub fn ocf_name_of(ogf: u8, ocf: u16) -> (r: &'static str)
    ensures
        r@ == spec_ocf_name(ogf, ocf),
{
    if ogf == 1 && ocf == 1 {
        "Inquiry"
    } else if ogf == 3 && ocf == 3 {
        "Reset"
    } else {
        ""
    }
}

// ---------------------------------------------------------------------------
// Concrete commands
// ---------------------------------------------------------------------------

/// The Reset command: no parameters.
#[derive(Debug, PartialEq, Eq, Structural)]
pub struct OcfReset {}

impl ParseNodeOpt for OcfReset {
    open spec fn spec_new(data: Seq<u8>) -> Option<OcfReset> {
        Some(OcfReset {})
    }

    open spec fn spec_fields(self, start: int) -> Seq<SpecField> {
        seq![
            SpecField {
                key: "Reset"@,
                value: spec_quoted(""@),
                symbolic: ""@,
                loc: SpecLoc::Bytes { start, len: 0 },
                status: DecodeStatus::Valid,
            },
        ]
    }

    open spec fn spec_extent(self) -> int {
        0
    }

    fn new(data: &[u8]) -> (r: Option<OcfReset>) {
        Some(OcfReset {})
    }

    fn fields(&self, start_byte: u8) -> (r: Vec<DecodeField>) {
        let mut out: Vec<DecodeField> = Vec::new();
        out.push(
            text_field(
                "Reset",
                "",
                "",
                FieldLoc::Bytes(ParseBytesNode { start_byte, len_in_bytes: 0 }),
                DecodeStatus::Valid,
            ),
        );
        proof {
            assert(views_of(out@) =~~= self.spec_fields(start_byte as int));
        }
        out
    }
}

/// The lower bound of the General/Limited Inquiry Access Code band.
pub open spec fn spec_lap_valid(lap: u32) -> bool {
    0x9E8B00 <= lap <= 0x9E8B3F
}

/// Inquiry length must be a positive number of 1.28 s units up to 0x30.
pub open spec fn spec_inquiry_len_valid(len: u8) -> bool {
    1 <= len <= 0x30
}

/// The Inquiry command parameters: 3-byte LAP, inquiry length, number of
/// responses.  Out-of-range values are reported as field-level errors, the
/// raw bytes are still echoed.
#[derive(Debug, PartialEq, Eq, Structural)]
pub struct OcfInquiry {
    pub lap: u32,
    pub inquiry_len: u8,
    pub num_resp: u8,
}

impl ParseNodeOpt for OcfInquiry {
    open spec fn spec_new(data: Seq<u8>) -> Option<OcfInquiry> {
        if data.len() < 5 {
            None
        } else {
            Some(
                OcfInquiry {
                    lap: (data[0] + data[1] * 0x100 + data[2] * 0x10000) as u32,
                    inquiry_len: data[3],
                    num_resp: data[4],
                },
            )
        }
    }

    open spec fn spec_fields(self, start: int) -> Seq<SpecField> {
        seq![
            spec_num_field(
                "LAP"@,
                self.lap as int,
                ""@,
                SpecLoc::Bytes { start, len: 3 },
                if spec_lap_valid(self.lap) {
                    DecodeStatus::Valid
                } else {
                    DecodeStatus::Error
                },
            ),
            spec_num_field(
                "Inquiry Length"@,
                self.inquiry_len as int,
                ""@,
                SpecLoc::Bytes { start: start + 3, len: 1 },
                if spec_inquiry_len_valid(self.inquiry_len) {
                    DecodeStatus::Valid
                } else {
                    DecodeStatus::Error
                },
            ),
            spec_num_field(
                "Number of Responses"@,
                self.num_resp as int,
                ""@,
                SpecLoc::Bytes { start: start + 4, len: 1 },
                DecodeStatus::Valid,
            ),
        ]
    }

    open spec fn spec_extent(self) -> int {
        5
    }

    fn new(data: &[u8]) -> (r: Option<OcfInquiry>) {
        if data.len() < 5 {
            return None;
        }
        let lap = data[0] as u32 + data[1] as u32 * 0x100 + data[2] as u32 * 0x10000;
        Some(OcfInquiry { lap, inquiry_len: data[3], num_resp: data[4] })
    }

    fn fields(&self, start_byte: u8) -> (r: Vec<DecodeField>) {
        let mut out: Vec<DecodeField> = Vec::new();
        let lap_status = if 0x9E8B00 <= self.lap && self.lap <= 0x9E8B3F {
            DecodeStatus::Valid
        } else {
            DecodeStatus::Error
        };
        out.push(
            num_field(
                "LAP",
                self.lap as u64,
                "",
                FieldLoc::Bytes(ParseBytesNode { start_byte, len_in_bytes: 3 }),
                lap_status,
            ),
        );
        let len_status = if 1 <= self.inquiry_len && self.inquiry_len <= 0x30 {
            DecodeStatus::Valid
        } else {
            DecodeStatus::Error
        };
        out.push(
            num_field(
                "Inquiry Length",
                self.inquiry_len as u64,
                "",
                FieldLoc::Bytes(ParseBytesNode { start_byte: start_byte + 3, len_in_bytes: 1 }),
                len_status,
            ),
        );
        out.push(
            num_field(
                "Number of Responses",
                self.num_resp as u64,
                "",
                FieldLoc::Bytes(ParseBytesNode { start_byte: start_byte + 4, len_in_bytes: 1 }),
                DecodeStatus::Valid,
            ),
        );
        proof {
            assert(views_of(out@) =~~= self.spec_fields(start_byte as int));
        }
        out
    }
}

// ---------------------------------------------------------------------------
// Opcode groups
// ---------------------------------------------------------------------------

/// Commands of the Link Control group (OGF 1).
#[derive(Debug, PartialEq, Eq, Structural)]
pub enum OgfLinkControl {
    Undefined,
    Inquiry(Option<OcfInquiry>),
}

impl OgfLinkControl {
    /// The enumerated name of this command, empty when unknown.
    pub open spec fn spec_ocf_variant_name(self) -> Seq<char> {
        match self {
            OgfLinkControl::Inquiry(_) => "Inquiry"@,
            _ => ""@,
        }
    }

    pub fn get_ocf_name(&self) -> (r: &'static str)
        ensures
            r@ == self.spec_ocf_variant_name(),
    {
        match self {
            OgfLinkControl::Inquiry(_) => "Inquiry",
            _ => "",
        }
    }
}

impl ParseNodeA<u16> for OgfLinkControl {
    open spec fn spec_req(data: Seq<u8>, opcode: u16) -> bool {
        true
    }

    open spec fn spec_new(data: Seq<u8>, opcode: u16) -> OgfLinkControl {
        if opcode & 0x3ff == 1 {
            OgfLinkControl::Inquiry(OcfInquiry::spec_new(data))
        } else {
            OgfLinkControl::Undefined
        }
    }

    open spec fn spec_fields(self, start: int) -> Seq<SpecField> {
        match self {
            OgfLinkControl::Inquiry(Some(i)) => i.spec_fields(start),
            OgfLinkControl::Inquiry(None) => seq![crate::spec_truncated_field(start)],
            _ => Seq::empty(),
        }
    }

    open spec fn spec_extent(self) -> int {
        match self {
            OgfLinkControl::Inquiry(Some(i)) => i.spec_extent(),
            _ => 0,
        }
    }

    fn new(data: &[u8], opcode: u16) -> (r: OgfLinkControl) {
        let ocf = opcode_to_ocf(opcode);
        if ocf == 1 {
            OgfLinkControl::Inquiry(<OcfInquiry as ParseNodeOpt>::new(data))
        } else {
            OgfLinkControl::Undefined
        }
    }

    fn fields(&self, start_byte: u8) -> (r: Vec<DecodeField>) {
        let r = match self {
            OgfLinkControl::Inquiry(Some(i)) => i.fields(start_byte),
            OgfLinkControl::Inquiry(None) => {
                let mut out: Vec<DecodeField> = Vec::new();
                out.push(crate::truncated_field(start_byte));
                out
            },
            _ => Vec::new(),
        };
        proof {
            assert(views_of(r@) =~~= self.spec_fields(start_byte as int));
        }
        r
    }
}

/// Commands of the Controller & Baseband group (OGF 3).
#[derive(Debug, PartialEq, Eq, Structural)]
pub enum OgfControllerAndBaseband {
    Undefined,
    Reset(Option<OcfReset>),
}

impl OgfControllerAndBaseband {
    /// The enumerated name of this command, empty when unknown.
    pub open spec fn spec_ocf_variant_name(self) -> Seq<char> {
        match self {
            OgfControllerAndBaseband::Reset(_) => "Reset"@,
            _ => ""@,
        }
    }

    pub fn get_ocf_name(&self) -> (r: &'static str)
        ensures
            r@ == self.spec_ocf_variant_name(),
    {
        match self {
            OgfControllerAndBaseband::Reset(_) => "Reset",
            _ => "",
        }
    }
}

impl ParseNodeA<u16> for OgfControllerAndBaseband {
    open spec fn spec_req(data: Seq<u8>, opcode: u16) -> bool {
        true
    }

    open spec fn spec_new(data: Seq<u8>, opcode: u16) -> OgfControllerAndBaseband {
        if opcode & 0x3ff == 3 {
            OgfControllerAndBaseband::Reset(OcfReset::spec_new(data))
        } else {
            OgfControllerAndBaseband::Undefined
        }
    }

    open spec fn spec_fields(self, start: int) -> Seq<SpecField> {
        match self {
            OgfControllerAndBaseband::Reset(Some(c)) => c.spec_fields(start),
            _ => Seq::empty(),
        }
    }

    open spec fn spec_extent(self) -> int {
        match self {
            OgfControllerAndBaseband::Reset(Some(c)) => c.spec_extent(),
            _ => 0,
        }
    }

    fn new(data: &[u8], opcode: u16) -> (r: OgfControllerAndBaseband) {
        let ocf = opcode_to_ocf(opcode);
        if ocf == 3 {
            OgfControllerAndBaseband::Reset(<OcfReset as ParseNodeOpt>::new(data))
        } else {
            OgfControllerAndBaseband::Undefined
        }
    }

    fn fields(&self, start_byte: u8) -> (r: Vec<DecodeField>) {
        let r = match self {
            OgfControllerAndBaseband::Reset(Some(c)) => c.fields(start_byte),
            _ => Vec::new(),
        };
        proof {
            assert(views_of(r@) =~~= self.spec_fields(start_byte as int));
        }
        r
    }
}

/// A command's parameters, grouped by OGF.
#[derive(Debug, PartialEq, Eq, Structural)]
pub enum HciCmdParam {
    Undefined,
    LinkControl(OgfLinkControl),
    LinkPolicy,
    ControllerAndBaseband(OgfControllerAndBaseband),
    InformationalParameters,
    StatusParameters,
    Testing,
    LeController,
}

impl HciCmdParam {
    /// The name of the group this value was routed to; `Undefined` reads as
    /// such in the channel dump, the annotation uses the empty symbol.
    pub open spec fn spec_ogf_variant_name(self) -> Seq<char> {
        match self {
            HciCmdParam::LinkControl(_) => "Link Control"@,
            HciCmdParam::LinkPolicy => "Link Policy"@,
            HciCmdParam::ControllerAndBaseband(_) => "Controller & Baseband"@,
            HciCmdParam::InformationalParameters => "Informational Parameters"@,
            HciCmdParam::StatusParameters => "Status Parameters"@,
            HciCmdParam::Testing => "Testing"@,
            HciCmdParam::LeController => "LE Controller"@,
            HciCmdParam::Undefined => "Undefined"@,
        }
    }

    pub fn get_ogf_name(&self) -> (r: &'static str)
        ensures
            r@ == self.spec_ogf_variant_name(),
    {
        match self {
            HciCmdParam::LinkControl(_) => "Link Control",
            HciCmdParam::LinkPolicy => "Link Policy",
            HciCmdParam::ControllerAndBaseband(_) => "Controller & Baseband",
            HciCmdParam::InformationalParameters => "Informational Parameters",
            HciCmdParam::StatusParameters => "Status Parameters",
            HciCmdParam::Testing => "Testing",
            HciCmdParam::LeController => "LE Controller",
            HciCmdParam::Undefined => "Undefined",
        }
    }

    /// The enumerated command name below this group, empty when unknown.
    pub open spec fn spec_ocf_variant_name(self) -> Seq<char> {
        match self {
            HciCmdParam::LinkControl(cmd) => cmd.spec_ocf_variant_name(),
            HciCmdParam::ControllerAndBaseband(cmd) => cmd.spec_ocf_variant_name(),
            _ => ""@,
        }
    }

    pub fn get_ocf_name(&self) -> (r: &'static str)
        ensures
            r@ == self.spec_ocf_variant_name(),
    {
        match self {
            HciCmdParam::LinkControl(cmd) => cmd.get_ocf_name(),
            HciCmdParam::ControllerAndBaseband(cmd) => cmd.get_ocf_name(),
            _ => "",
        }
    }
}

impl ParseNodeA<u16> for HciCmdParam {
    open spec fn spec_req(data: Seq<u8>, opcode: u16) -> bool {
        true
    }

    open spec fn spec_new(data: Seq<u8>, opcode: u16) -> HciCmdParam {
        let ogf = opcode >> 10;
        if ogf == 1 {
            HciCmdParam::LinkControl(OgfLinkControl::spec_new(data, opcode))
        } else if ogf == 2 {
            HciCmdParam::LinkPolicy
        } else if ogf == 3 {
            HciCmdParam::ControllerAndBaseband(OgfControllerAndBaseband::spec_new(data, opcode))
        } else if ogf == 4 {
            HciCmdParam::InformationalParameters
        } else if ogf == 5 {
            HciCmdParam::StatusParameters
        } else if ogf == 6 {
            HciCmdParam::Testing
        } else if ogf == 8 {
            HciCmdParam::LeController
        } else {
            HciCmdParam::Undefined
        }
    }

    open spec fn spec_fields(self, start: int) -> Seq<SpecField> {
        match self {
            HciCmdParam::LinkControl(cmd) => cmd.spec_fields(start),
            HciCmdParam::ControllerAndBaseband(cmd) => cmd.spec_fields(start),
            _ => Seq::empty(),
        }
    }

    open spec fn spec_extent(self) -> int {
        match self {
            HciCmdParam::LinkControl(cmd) => cmd.spec_extent(),
            HciCmdParam::ControllerAndBaseband(cmd) => cmd.spec_extent(),
            _ => 0,
        }
    }

    fn new(data: &[u8], opcode: u16) -> (r: HciCmdParam) {
        let ogf = opcode_to_ogf(opcode);
        match ogf {
            1 => HciCmdParam::LinkControl(<OgfLinkControl as ParseNodeA<u16>>::new(data, opcode)),
            2 => HciCmdParam::LinkPolicy,
            3 => HciCmdParam::ControllerAndBaseband(
                <OgfControllerAndBaseband as ParseNodeA<u16>>::new(data, opcode),
            ),
            4 => HciCmdParam::InformationalParameters,
            5 => HciCmdParam::StatusParameters,
            6 => HciCmdParam::Testing,
            8 => HciCmdParam::LeController,
            _ => HciCmdParam::Undefined,
        }
    }

    fn fields(&self, start_byte: u8) -> (r: Vec<DecodeField>) {
        let r = match self {
            HciCmdParam::LinkControl(cmd) => cmd.fields(start_byte),
            HciCmdParam::ControllerAndBaseband(cmd) => cmd.fields(start_byte),
            _ => Vec::new(),
        };
        proof {
            assert(views_of(r@) =~~= self.spec_fields(start_byte as int));
        }
        r
    }
}

/// An HCI command: 2-byte opcode, parameter length, parameters.
#[derive(Debug, PartialEq, Eq, Structural)]
pub struct HciCmd {
    pub opcode: u16,
    pub param_len: u8,
    pub param: HciCmdParam,
}

impl ParseNodeOpt for HciCmd {
    open spec fn spec_new(data: Seq<u8>) -> Option<HciCmd> {
        if data.len() < 3 {
            None
        } else {
            Some(
                HciCmd {
                    opcode: spec_le16(data, 0),
                    param_len: data[2],
                    param: HciCmdParam::spec_new(data.skip(3), spec_le16(data, 0)),
                },
            )
        }
    }

    open spec fn spec_fields(self, start: int) -> Seq<SpecField> {
        seq![
            SpecField {
                key: "Opcode"@,
                value: crate::spec_hex0x(self.opcode as int),
                symbolic: ""@,
                loc: SpecLoc::Bytes { start, len: 2 },
                status: DecodeStatus::SubtreeStart,
            },
            spec_num_field(
                "Opcode Command Field (OCF)"@,
                (self.opcode & 0x3ff) as int,
                self.param.spec_ocf_variant_name(),
                SpecLoc::Bits { start, len: 2, bit_start: 0, bit_len: 10 },
                if self.param.spec_ocf_variant_name().len() == 0 {
                    DecodeStatus::Error
                } else {
                    DecodeStatus::Valid
                },
            ),
            spec_num_field(
                "Opcode Group Field (OGF)"@,
                (self.opcode >> 10) as int,
                if self.param is Undefined {
                    ""@
                } else {
                    self.param.spec_ogf_variant_name()
                },
                SpecLoc::Bits { start: start + 1, len: 1, bit_start: 10, bit_len: 6 },
                if self.param is Undefined {
                    DecodeStatus::Error
                } else {
                    DecodeStatus::Valid
                },
            ),
            spec_subtree_end(),
            spec_num_field(
                "Parameter Total Length"@,
                self.param_len as int,
                ""@,
                SpecLoc::Bytes { start: start + 2, len: 1 },
                DecodeStatus::Valid,
            ),
        ] + self.param.spec_fields(start + 3)
    }

    open spec fn spec_extent(self) -> int {
        3 + self.param.spec_extent()
    }

    fn new(data: &[u8]) -> (r: Option<HciCmd>) {
        if data.len() < 3 {
            return None;
        }
        let opcode = le16_at(data, 0);
        let param_len = data[2];
        let rest = &data[3..data.len()];
        proof {
            assert(rest@ =~= data@.skip(3));
        }
        let param = <HciCmdParam as ParseNodeA<u16>>::new(rest, opcode);
        Some(HciCmd { opcode, param_len, param })
    }

    fn fields(&self, start_byte: u8) -> (r: Vec<DecodeField>) {
        let mut out: Vec<DecodeField> = Vec::new();
        out.push(
            DecodeField {
                key: String::from_str("Opcode"),
                value: crate::FieldValue::Num(self.opcode as u64),
                symbolic: String::new(),
                loc: FieldLoc::Bytes(ParseBytesNode { start_byte, len_in_bytes: 2 }),
                status: DecodeStatus::SubtreeStart,
            },
        );
        let ocf_name = self.param.get_ocf_name();
        let ocf_status = if ocf_name.unicode_len() == 0 {
            DecodeStatus::Error
        } else {
            DecodeStatus::Valid
        };
        out.push(
            num_field(
                "Opcode Command Field (OCF)",
                opcode_to_ocf(self.opcode) as u64,
                ocf_name,
                FieldLoc::Bits(
                    ParseBitsNode { start_byte, len_in_bytes: 2, start_bit: 0, len_in_bits: 10 },
                ),
                ocf_status,
            ),
        );
        let undefined_group = match self.param {
            HciCmdParam::Undefined => true,
            _ => false,
        };
        let ogf_name = if undefined_group {
            ""
        } else {
            self.param.get_ogf_name()
        };
        let ogf_status = if undefined_group {
            DecodeStatus::Error
        } else {
            DecodeStatus::Valid
        };
        out.push(
            num_field(
                "Opcode Group Field (OGF)",
                opcode_to_ogf(self.opcode) as u64,
                ogf_name,
                FieldLoc::Bits(
                    ParseBitsNode {
                        start_byte: start_byte + 1,
                        len_in_bytes: 1,
                        start_bit: 10,
                        len_in_bits: 6,
                    },
                ),
                ogf_status,
            ),
        );
        out.push(subtree_end());
        out.push(
            num_field(
                "Parameter Total Length",
                self.param_len as u64,
                "",
                FieldLoc::Bytes(ParseBytesNode { start_byte: start_byte + 2, len_in_bytes: 1 }),
                DecodeStatus::Valid,
            ),
        );
        let mut inner = self.param.fields(start_byte + 3);
        out.append(&mut inner);
        proof {
            reveal_strlit("");
            assert(views_of(out@) =~~= self.spec_fields(start_byte as int));
        }
        out
    }
}

// ---------------------------------------------------------------------------
// Events
// ---------------------------------------------------------------------------

/// The Command Complete event body: how many command packets the
/// controller will accept, and the opcode of the completed command.  The
/// opcode's group and command names come from the standalone lookup tables
/// rather than a synthetic re-decode.
#[derive(Debug, PartialEq, Eq, Structural)]
pub struct EvtCommandComplete {
    pub num_hci_command_packets: u8,
    pub command_opcode: u16,
}

impl ParseNodeOpt for EvtCommandComplete {
    open spec fn spec_new(data: Seq<u8>) -> Option<EvtCommandComplete> {
        if data.len() < 3 {
            None
        } else {
            Some(
                EvtCommandComplete {
                    num_hci_command_packets: data[0],
                    command_opcode: spec_le16(data, 1),
                },
            )
        }
    }

    open spec fn spec_fields(self, start: int) -> Seq<SpecField> {
        seq![
            spec_num_field(
                "Num_HCI_Command_Packets"@,
                self.num_hci_command_packets as int,
                ""@,
                SpecLoc::Bytes { start, len: 1 },
                DecodeStatus::Valid,
            ),
            spec_subtree_start("Command_Opcode"@),
            spec_num_field(
                "Opcode"@,
                self.command_opcode as int,
                ""@,
                SpecLoc::Bytes { start: start + 1, len: 2 },
                DecodeStatus::Valid,
            ),
            spec_num_field(
                "Opcode Group Field (OGF)"@,
                (self.command_opcode >> 10) as int,
                spec_ogf_name((self.command_opcode >> 10) as u8),
                SpecLoc::Bytes { start: start + 2, len: 1 },
                if spec_ogf_name((self.command_opcode >> 10) as u8).len() == 0 {
                    DecodeStatus::Error
                } else {
                    DecodeStatus::Valid
                },
            ),
            spec_num_field(
                "Opcode Command Field (OCF)"@,
                (self.command_opcode & 0x3ff) as int,
                spec_ocf_name((self.command_opcode >> 10) as u8, self.command_opcode & 0x3ff),
                SpecLoc::Bytes { start: start + 1, len: 2 },
                if spec_ocf_name(
                    (self.command_opcode >> 10) as u8,
                    self.command_opcode & 0x3ff,
                ).len() == 0 {
                    DecodeStatus::Error
                } else {
                    DecodeStatus::Valid
                },
            ),
            spec_subtree_end(),
        ]
    }

    open spec fn spec_extent(self) -> int {
        3
    }

    fn new(data: &[u8]) -> (r: Option<EvtCommandComplete>) {
        if data.len() < 3 {
            return None;
        }
        Some(
            EvtCommandComplete { num_hci_command_packets: data[0], command_opcode: le16_at(data, 1) },
        )
    }

    fn fields(&self, start_byte: u8) -> (r: Vec<DecodeField>) {
        let mut out: Vec<DecodeField> = Vec::new();
        out.push(
            num_field(
                "Num_HCI_Command_Packets",
                self.num_hci_command_packets as u64,
                "",
                FieldLoc::Bytes(ParseBytesNode { start_byte, len_in_bytes: 1 }),
                DecodeStatus::Valid,
            ),
        );
        out.push(subtree_start("Command_Opcode"));
        out.push(
            num_field(
                "Opcode",
                self.command_opcode as u64,
                "",
                FieldLoc::Bytes(ParseBytesNode { start_byte: start_byte + 1, len_in_bytes: 2 }),
                DecodeStatus::Valid,
            ),
        );
        let ogf = opcode_to_ogf(self.command_opcode);
        let ocf = opcode_to_ocf(self.command_opcode);
        let ogf_name = ogf_name_of(ogf);
        let ogf_status = if ogf_name.unicode_len() == 0 {
            DecodeStatus::Error
        } else {
            DecodeStatus::Valid
        };
        out.push(
            num_field(
                "Opcode Group Field (OGF)",
                ogf as u64,
                ogf_name,
                FieldLoc::Bytes(ParseBytesNode { start_byte: start_byte + 2, len_in_bytes: 1 }),
                ogf_status,
            ),
        );
        let ocf_name = ocf_name_of(ogf, ocf);
        let ocf_status = if ocf_name.unicode_len() == 0 {
            DecodeStatus::Error
        } else {
            DecodeStatus::Valid
        };
        out.push(
            num_field(
                "Opcode Command Field (OCF)",
                ocf as u64,
                ocf_name,
                FieldLoc::Bytes(ParseBytesNode { start_byte: start_byte + 1, len_in_bytes: 2 }),
                ocf_status,
            ),
        );
        out.push(subtree_end());
        proof {
            assert(views_of(out@) =~~= self.spec_fields(start_byte as int));
        }
        out
    }
}

/// An event's parameters, selected by event code; only Command Complete is
/// modeled in depth.
#[derive(Debug, PartialEq, Eq, Structural)]
pub enum HciEvtParam {
    Undefined,
    CommandComplete(Option<EvtCommandComplete>),
}

impl ParseNodeOptA<u8> for HciEvtParam {
    open spec fn spec_new(data: Seq<u8>, code: u8) -> Option<HciEvtParam> {
        if code == 0x0e {
            Some(HciEvtParam::CommandComplete(EvtCommandComplete::spec_new(data)))
        } else {
            Some(HciEvtParam::Undefined)
        }
    }

    open spec fn spec_fields(self, start: int) -> Seq<SpecField> {
        match self {
            HciEvtParam::CommandComplete(Some(e)) => e.spec_fields(start),
            HciEvtParam::CommandComplete(None) => seq![crate::spec_truncated_field(start)],
            _ => Seq::empty(),
        }
    }

    open spec fn spec_extent(self) -> int {
        match self {
            HciEvtParam::CommandComplete(Some(e)) => e.spec_extent(),
            _ => 0,
        }
    }

    fn new(data: &[u8], code: u8) -> (r: Option<HciEvtParam>) {
        let ret = match code {
            0x0e => HciEvtParam::CommandComplete(<EvtCommandComplete as ParseNodeOpt>::new(data)),
            _ => HciEvtParam::Undefined,
        };
        Some(ret)
    }

    fn fields(&self, start_byte: u8) -> (r: Vec<DecodeField>) {
        let r = match self {
            HciEvtParam::CommandComplete(Some(e)) => e.fields(start_byte),
            HciEvtParam::CommandComplete(None) => {
                let mut out: Vec<DecodeField> = Vec::new();
                out.push(crate::truncated_field(start_byte));
                out
            },
            _ => Vec::new(),
        };
        proof {
            assert(views_of(r@) =~~= self.spec_fields(start_byte as int));
        }
        r
    }
}

/// The name of a known event code; empty when the code is not enumerated.
pub open spec fn spec_event_name(code: u8) -> Seq<char> {
    if code == 0x0e {
        "HCI_Command_Complete"@
    } else {
        ""@
    }
}

fn event_name_of(code: u8) -> (r: &'static str)
    ensures
        r@ == spec_event_name(code),
{
    match code {
        0x0e => "HCI_Command_Complete",
        _ => "",
    }
}

/// An HCI event: code, parameter length, parameters.
#[derive(Debug, PartialEq, Eq, Structural)]
pub struct HciEvt {
    pub code: u8,
    pub len: u8,
    pub param: Option<HciEvtParam>,
}

impl ParseNodeOpt for HciEvt {
    open spec fn spec_new(data: Seq<u8>) -> Option<HciEvt> {
        if data.len() < 2 {
            None
        } else {
            Some(
                HciEvt {
                    code: data[0],
                    len: data[1],
                    param: HciEvtParam::spec_new(data.skip(2), data[0]),
                },
            )
        }
    }

    open spec fn spec_fields(self, start: int) -> Seq<SpecField> {
        seq![
            spec_subtree_start("EVT"@),
            spec_num_field(
                "Event Code"@,
                self.code as int,
                spec_event_name(self.code),
                SpecLoc::Bytes { start, len: 1 },
                if spec_event_name(self.code).len() == 0 {
                    DecodeStatus::Error
                } else {
                    DecodeStatus::Valid
                },
            ),
            spec_num_field(
                "Parameter Total Length"@,
                self.len as int,
                ""@,
                SpecLoc::Bytes { start: start + 1, len: 1 },
                DecodeStatus::Valid,
            ),
        ] + (match self.param {
            Some(p) => p.spec_fields(start + 2),
            None => Seq::empty(),
        }) + seq![spec_subtree_end()]
    }

    open spec fn spec_extent(self) -> int {
        2 + (match self.param {
            Some(p) => p.spec_extent(),
            None => 0,
        })
    }

    fn new(data: &[u8]) -> (r: Option<HciEvt>) {
        if data.len() < 2 {
            return None;
        }
        let code = data[0];
        let len = data[1];
        let rest = &data[2..data.len()];
        proof {
            assert(rest@ =~= data@.skip(2));
        }
        let param = <HciEvtParam as ParseNodeOptA<u8>>::new(rest, code);
        Some(HciEvt { code, len, param })
    }

    fn fields(&self, start_byte: u8) -> (r: Vec<DecodeField>) {
        let mut out: Vec<DecodeField> = Vec::new();
        out.push(subtree_start("EVT"));
        let name = event_name_of(self.code);
        let status = if name.unicode_len() == 0 {
            DecodeStatus::Error
        } else {
            DecodeStatus::Valid
        };
        out.push(
            num_field(
                "Event Code",
                self.code as u64,
                name,
                FieldLoc::Bytes(ParseBytesNode { start_byte, len_in_bytes: 1 }),
                status,
            ),
        );
        out.push(
            num_field(
                "Parameter Total Length",
                self.len as u64,
                "",
                FieldLoc::Bytes(ParseBytesNode { start_byte: start_byte + 1, len_in_bytes: 1 }),
                DecodeStatus::Valid,
            ),
        );
        match &self.param {
            Some(p) => {
                let mut inner = p.fields(start_byte + 2);
                out.append(&mut inner);
            },
            None => {},
        }
        out.push(subtree_end());
        proof {
            assert(views_of(out@) =~~= self.spec_fields(start_byte as int));
        }
        out
    }
}

// ---------------------------------------------------------------------------
// ACL data
// ---------------------------------------------------------------------------

/// An ACL data packet: 12-bit connection handle, 2-bit packet-boundary and
/// broadcast flags, 2-byte length, and an L2CAP payload decoded against
/// the session.
#[derive(Debug, PartialEq, Eq, Structural)]
pub struct HciAcl {
    pub handle: u16,
    pub pb_flag: u8,
    pub bc_flag: u8,
    pub data_len: u16,
    pub data: Option<L2CAP>,
}

impl HciAcl {
    pub open spec fn spec_new(data: Seq<u8>, chs: Seq<L2CAPChannel>) -> Option<HciAcl> {
        if data.len() < 4 {
            None
        } else {
            let word = spec_le16(data, 0);
            Some(
                HciAcl {
                    handle: word & 0xfff,
                    pb_flag: ((word >> 12) & 0x3) as u8,
                    bc_flag: (word >> 14) as u8,
                    data_len: spec_le16(data, 2),
                    data: L2CAP::spec_new(data.skip(4), chs),
                },
            )
        }
    }

    pub open spec fn spec_trans(chs: Seq<L2CAPChannel>, data: Seq<u8>) -> Seq<L2CAPChannel> {
        if data.len() < 4 {
            chs
        } else {
            L2CAP::spec_trans(chs, data.skip(4))
        }
    }

    /// Strips the ACL header and hands the remainder to L2CAP together
    /// with the session.
    pub fn new(data: &[u8], stack: &mut HostStack) -> (r: Option<HciAcl>)
        ensures
            r == Self::spec_new(data@, old(stack).l2cap_arg.channels@),
            final(stack).l2cap_arg.channels@ == Self::spec_trans(
                old(stack).l2cap_arg.channels@,
                data@,
            ),
            final(stack).sdp_arg == old(stack).sdp_arg,
    {
        if data.len() < 4 {
            return None;
        }
        let word = le16_at(data, 0);
        proof {
            assert(word & 0xfff < 0x1000) by (bit_vector);
            assert((word >> 12) & 0x3 < 4) by (bit_vector);
            assert(word >> 14 < 4) by (bit_vector);
        }
        let data_len = le16_at(data, 2);
        let rest = &data[4..data.len()];
        proof {
            assert(rest@ =~= data@.skip(4));
        }
        let payload = L2CAP::new(rest, stack);
        Some(
            HciAcl {
                handle: word & 0xfff,
                pb_flag: ((word >> 12) & 0x3) as u8,
                bc_flag: (word >> 14) as u8,
                data_len,
                data: payload,
            },
        )
    }

    pub open spec fn spec_fields(self, start: int) -> Seq<SpecField> {
        seq![
            spec_subtree_start("ACL"@),
            spec_num_field(
                "Handle"@,
                self.handle as int,
                ""@,
                SpecLoc::Bits { start, len: 2, bit_start: 0, bit_len: 12 },
                DecodeStatus::Valid,
            ),
            spec_num_field(
                "PB Flag"@,
                self.pb_flag as int,
                ""@,
                SpecLoc::Bits { start: start + 1, len: 1, bit_start: 12, bit_len: 2 },
                DecodeStatus::Valid,
            ),
            spec_num_field(
                "BC Flag"@,
                self.bc_flag as int,
                ""@,
                SpecLoc::Bits { start: start + 1, len: 1, bit_start: 14, bit_len: 2 },
                DecodeStatus::Valid,
            ),
            spec_num_field(
                "Data Total Length"@,
                self.data_len as int,
                ""@,
                SpecLoc::Bytes { start: start + 2, len: 2 },
                DecodeStatus::Valid,
            ),
        ] + (match self.data {
            Some(d) => d.spec_fields(start + 4),
            None => Seq::empty(),
        }) + seq![spec_subtree_end()]
    }

    pub open spec fn spec_extent(self) -> int {
        4 + (match self.data {
            Some(d) => d.spec_extent(),
            None => 0,
        })
    }

    pub fn fields(&self, start_byte: u8) -> (r: Vec<DecodeField>)
        requires
            start_byte as int + self.spec_extent() <= 255,
        ensures
            views_of(r@) == self.spec_fields(start_byte as int),
    {
        let mut out: Vec<DecodeField> = Vec::new();
        out.push(subtree_start("ACL"));
        out.push(
            num_field(
                "Handle",
                self.handle as u64,
                "",
                FieldLoc::Bits(
                    ParseBitsNode { start_byte, len_in_bytes: 2, start_bit: 0, len_in_bits: 12 },
                ),
                DecodeStatus::Valid,
            ),
        );
        out.push(
            num_field(
                "PB Flag",
                self.pb_flag as u64,
                "",
                FieldLoc::Bits(
                    ParseBitsNode {
                        start_byte: start_byte + 1,
                        len_in_bytes: 1,
                        start_bit: 12,
                        len_in_bits: 2,
                    },
                ),
                DecodeStatus::Valid,
            ),
        );
        out.push(
            num_field(
                "BC Flag",
                self.bc_flag as u64,
                "",
                FieldLoc::Bits(
                    ParseBitsNode {
                        start_byte: start_byte + 1,
                        len_in_bytes: 1,
                        start_bit: 14,
                        len_in_bits: 2,
                    },
                ),
                DecodeStatus::Valid,
            ),
        );
        out.push(
            num_field(
                "Data Total Length",
                self.data_len as u64,
                "",
                FieldLoc::Bytes(ParseBytesNode { start_byte: start_byte + 2, len_in_bytes: 2 }),
                DecodeStatus::Valid,
            ),
        );
        match &self.data {
            Some(d) => {
                let mut inner = d.fields(start_byte + 4);
                out.append(&mut inner);
            },
            None => {},
        }
        out.push(subtree_end());
        proof {
            assert(views_of(out@) =~~= self.spec_fields(start_byte as int));
        }
        out
    }

    pub fn as_json(&self, start_byte: u8) -> (r: String)
        requires
            start_byte as int + self.spec_extent() <= 255,
        ensures
            r@ == spec_render_fields(self.spec_fields(start_byte as int), true),
    {
        render_fields(&self.fields(start_byte))
    }
}

// ---------------------------------------------------------------------------
// Packet-type dispatch
// ---------------------------------------------------------------------------

/// The name of a transport packet type; empty when the type byte is not
/// enumerated.
pub open spec fn spec_packet_type_name(t: u8) -> Seq<char> {
    if t == 1 {
        "Cmd"@
    } else if t == 2 {
        "ACL"@
    } else if t == 3 {
        "SCO"@
    } else if t == 4 {
        "EVT"@
    } else if t == 5 {
        "ISO"@
    } else {
        ""@
    }
}

fn packet_type_name_of(t: u8) -> (r: &'static str)
    ensures
        r@ == spec_packet_type_name(t),
{
    match t {
        1 => "Cmd",
        2 => "ACL",
        3 => "SCO",
        4 => "EVT",
        5 => "ISO",
        _ => "",
    }
}

/// An HCI transport packet: the first byte of the buffer selects the
/// layer, unknown type bytes decode to `Undefined` without failing.
#[derive(Debug, PartialEq, Eq, Structural)]
pub enum HciPacket {
    Undefined,
    Cmd(Option<HciCmd>),
    Acl(Option<HciAcl>),
    Sco,
    Evt(Option<HciEvt>),
    Iso,
}

impl HciPacket {
    /// The packet decoded from `data`, given the channel table as it stood
    /// when the packet arrived.
    pub open spec fn spec_new(data: Seq<u8>, chs: Seq<L2CAPChannel>) -> HciPacket {
        let t = data[0];
        if t == 1 {
            HciPacket::Cmd(HciCmd::spec_new(data.skip(1)))
        } else if t == 2 {
            HciPacket::Acl(HciAcl::spec_new(data.skip(1), chs))
        } else if t == 3 {
            HciPacket::Sco
        } else if t == 4 {
            HciPacket::Evt(HciEvt::spec_new(data.skip(1)))
        } else if t == 5 {
            HciPacket::Iso
        } else {
            HciPacket::Undefined
        }
    }

    /// Only ACL packets carry L2CAP traffic, so only they can change the
    /// channel table.
    pub open spec fn spec_trans(chs: Seq<L2CAPChannel>, data: Seq<u8>) -> Seq<L2CAPChannel> {
        if data[0] == 2 {
            HciAcl::spec_trans(chs, data.skip(1))
        } else {
            chs
        }
    }

    /// Decodes one packet against the session: dispatch by the transport
    /// type byte, then by each layer's own discriminants.
    pub fn new(data: &[u8], stack: &mut HostStack) -> (r: HciPacket)
        requires
            data@.len() >= 1,
        ensures
            r == Self::spec_new(data@, old(stack).l2cap_arg.channels@),
            final(stack).l2cap_arg.channels@ == Self::spec_trans(
                old(stack).l2cap_arg.channels@,
                data@,
            ),
            final(stack).sdp_arg == old(stack).sdp_arg,
    {
        let packet_type = data[0];
        let rest = &data[1..data.len()];
        proof {
            assert(rest@ =~= data@.skip(1));
        }
        match packet_type {
            1 => HciPacket::Cmd(<HciCmd as ParseNodeOpt>::new(rest)),
            2 => HciPacket::Acl(HciAcl::new(rest, stack)),
            3 => HciPacket::Sco,
            4 => HciPacket::Evt(<HciEvt as ParseNodeOpt>::new(rest)),
            5 => HciPacket::Iso,
            _ => HciPacket::Undefined,
        }
    }

    /// The numeric transport type this variant stands for; meaningless for
    /// `Undefined`.
    pub open spec fn spec_type_byte(self) -> u8 {
        match self {
            HciPacket::Cmd(_) => 1,
            HciPacket::Acl(_) => 2,
            HciPacket::Sco => 3,
            HciPacket::Evt(_) => 4,
            HciPacket::Iso => 5,
            HciPacket::Undefined => 0,
        }
    }

    pub open spec fn spec_fields(self, start: int) -> Seq<SpecField> {
        seq![
            spec_num_field(
                "Packet Type"@,
                self.spec_type_byte() as int,
                spec_packet_type_name(self.spec_type_byte()),
                SpecLoc::Bytes { start, len: 1 },
                if self is Undefined {
                    DecodeStatus::Error
                } else {
                    DecodeStatus::Valid
                },
            ),
        ] + (match self {
            HciPacket::Cmd(Some(c)) => c.spec_fields(start + 1),
            HciPacket::Acl(Some(a)) => a.spec_fields(start + 1),
            HciPacket::Evt(Some(e)) => e.spec_fields(start + 1),
            HciPacket::Cmd(None) | HciPacket::Acl(None) | HciPacket::Evt(None) => seq![
                crate::spec_truncated_field(start + 1),
            ],
            _ => Seq::empty(),
        })
    }

    pub open spec fn spec_extent(self) -> int {
        1 + (match self {
            HciPacket::Cmd(Some(c)) => c.spec_extent(),
            HciPacket::Acl(Some(a)) => a.spec_extent(),
            HciPacket::Evt(Some(e)) => e.spec_extent(),
            _ => 0,
        })
    }

    pub fn fields(&self, start_byte: u8) -> (r: Vec<DecodeField>)
        requires
            start_byte as int + self.spec_extent() <= 255,
        ensures
            views_of(r@) == self.spec_fields(start_byte as int),
    {
        let mut out: Vec<DecodeField> = Vec::new();
        let type_byte: u8 = match self {
            HciPacket::Cmd(_) => 1,
            HciPacket::Acl(_) => 2,
            HciPacket::Sco => 3,
            HciPacket::Evt(_) => 4,
            HciPacket::Iso => 5,
            HciPacket::Undefined => 0,
        };
        let undefined = match self {
            HciPacket::Undefined => true,
            _ => false,
        };
        let status = if undefined {
            DecodeStatus::Error
        } else {
            DecodeStatus::Valid
        };
        out.push(
            num_field(
                "Packet Type",
                type_byte as u64,
                packet_type_name_of(type_byte),
                FieldLoc::Bytes(ParseBytesNode { start_byte, len_in_bytes: 1 }),
                status,
            ),
        );
        match self {
            HciPacket::Cmd(Some(c)) => {
                let mut inner = c.fields(start_byte + 1);
                out.append(&mut inner);
            },
            HciPacket::Acl(Some(a)) => {
                let mut inner = a.fields(start_byte + 1);
                out.append(&mut inner);
            },
            HciPacket::Evt(Some(e)) => {
                let mut inner = e.fields(start_byte + 1);
                out.append(&mut inner);
            },
            HciPacket::Cmd(None) | HciPacket::Acl(None) | HciPacket::Evt(None) => {
                out.push(crate::truncated_field(start_byte + 1));
            },
            _ => {},
        }
        proof {
            assert(views_of(out@) =~~= self.spec_fields(start_byte as int));
        }
        out
    }

    pub fn as_json(&self, start_byte: u8) -> (r: String)
        requires
            start_byte as int + self.spec_extent() <= 255,
        ensures
            r@ == spec_render_fields(self.spec_fields(start_byte as int), true),
    {
        render_fields(&self.fields(start_byte))
    }
}

// ---------------------------------------------------------------------------
// Extent bounds
// ---------------------------------------------------------------------------

impl HciCmdParam {
    pub proof fn lemma_extent_bounded(self)
        ensures
            0 <= self.spec_extent() <= 5,
    {
    }
}

impl HciCmd {
    pub proof fn lemma_extent_bounded(self)
        ensures
            0 <= self.spec_extent() <= 8,
    {
        self.param.lemma_extent_bounded();
    }
}

impl HciEvt {
    pub proof fn lemma_extent_bounded(self)
        ensures
            0 <= self.spec_extent() <= 5,
    {
    }
}

impl HciAcl {
    pub proof fn lemma_extent_bounded(self)
        ensures
            0 <= self.spec_extent() <= 24,
    {
        match self.data {
            Some(d) => d.lemma_extent_bounded(),
            None => {},
        }
    }
}

impl HciPacket {
    /// A decoded packet's annotations span at most a small constant prefix
    /// of the buffer, whatever the input was.
    pub proof fn lemma_extent_bounded(self)
        ensures
            0 <= self.spec_extent() <= 25,
    {
        match self {
            HciPacket::Cmd(Some(c)) => c.lemma_extent_bounded(),
            HciPacket::Acl(Some(a)) => a.lemma_extent_bounded(),
            HciPacket::Evt(Some(e)) => e.lemma_extent_bounded(),
            _ => {},
        }
    }
}

// ---------------------------------------------------------------------------
// Laws of the HCI decoders
// ---------------------------------------------------------------------------

/// Any buffer whose opcode reads 0x0C03 with parameter length 0 decodes as
/// the Reset command: OGF 3, OCF 3, symbolic name `Reset` on the command
/// field, and the opcode pinned to the first two bytes of the command.
pub proof fn lemma_reset_command_decode(data: Seq<u8>)
    requires
        data.len() >= 3,
        spec_le16(data, 0) == 0x0c03,
        data[2] == 0,
    ensures
        HciCmd::spec_new(data) is Some,
        ({
            let c = HciCmd::spec_new(data)->Some_0;
            let fs = c.spec_fields(0);
            &&& c.opcode == 0x0c03
            &&& c.param_len == 0
            &&& c.opcode >> 10 == 3
            &&& c.opcode & 0x3ff == 3
            &&& c.param matches HciCmdParam::ControllerAndBaseband(
                OgfControllerAndBaseband::Reset(Some(OcfReset {})),
            )
            &&& fs[0].key == "Opcode"@
            &&& fs[0].loc == (SpecLoc::Bytes { start: 0, len: 2 })
            &&& fs[1].symbolic == "Reset"@
            &&& fs[1].status == DecodeStatus::Valid
            &&& fs[2].symbolic == "Controller & Baseband"@
            &&& fs[2].status == DecodeStatus::Valid
        }),
{
    assert(0x0c03u16 >> 10 == 3) by (bit_vector);
    assert(0x0c03u16 & 0x3ff == 3) by (bit_vector);
    reveal_strlit("Reset");
    reveal_strlit("Controller & Baseband");
    let c = HciCmd::spec_new(data)->Some_0;
    assert(c.spec_fields(0)[1].symbolic == "Reset"@);
    assert("Reset"@.len() == 5);
    assert("Controller & Baseband"@.len() == 21);
}

/// Inquiry parameters always decode from 5 bytes; the LAP and inquiry
/// length fields carry `Valid` exactly when their values sit in the
/// documented bands, and the raw values are echoed either way.
pub proof fn lemma_inquiry_field_validation(data: Seq<u8>, start: int)
    requires
        data.len() >= 5,
    ensures
        OcfInquiry::spec_new(data) is Some,
        ({
            let i = OcfInquiry::spec_new(data)->Some_0;
            let fs = i.spec_fields(start);
            &&& i.lap == data[0] + data[1] * 0x100 + data[2] * 0x10000
            &&& i.inquiry_len == data[3]
            &&& i.num_resp == data[4]
            &&& fs[0].status == if spec_lap_valid(i.lap) {
                DecodeStatus::Valid
            } else {
                DecodeStatus::Error
            }
            &&& fs[0].value == crate::spec_hex0x(i.lap as int)
            &&& fs[1].status == if spec_inquiry_len_valid(i.inquiry_len) {
                DecodeStatus::Valid
            } else {
                DecodeStatus::Error
            }
            &&& fs[1].value == crate::spec_hex0x(i.inquiry_len as int)
        }),
{
}

/// No packet removes a channel record or changes which source CIDs the
/// session knows: once a Connection Request has been observed for a source
/// CID, the record keyed by it survives whatever traffic follows, until
/// the matching Connection Response finds it.
pub proof fn lemma_packet_trans_preserves_sources(
    chs: Seq<L2CAPChannel>,
    data: Seq<u8>,
    s: u16,
)
    requires
        data.len() >= 1,
        crate::l2cap::spec_has_source(chs, s),
    ensures
        crate::l2cap::spec_has_source(HciPacket::spec_trans(chs, data), s),
{
    if data[0] == 2 {
        let acl = data.skip(1);
        if acl.len() >= 4 {
            let l2cap = acl.skip(4);
            if l2cap.len() >= 4 && spec_le16(l2cap, 2) == 1 {
                let sig = l2cap.skip(4);
                if sig.len() >= 4 {
                    crate::l2cap::lemma_trans_preserves_sources(chs, sig, sig[1], s);
                }
            }
        }
    }
}

/// The channel table after decoding a run of packets in capture order.
pub open spec fn spec_replay(chs: Seq<L2CAPChannel>, packets: Seq<Seq<u8>>) -> Seq<L2CAPChannel>
    decreases packets.len(),
{
    if packets.len() == 0 {
        chs
    } else {
        spec_replay(HciPacket::spec_trans(chs, packets[0]), packets.drop_first())
    }
}

/// A record keyed by a source CID survives any run of packets.
pub proof fn lemma_replay_preserves_sources(
    chs: Seq<L2CAPChannel>,
    packets: Seq<Seq<u8>>,
    s: u16,
)
    requires
        crate::l2cap::spec_has_source(chs, s),
        forall|i: int| 0 <= i < packets.len() ==> #[trigger] packets[i].len() >= 1,
    ensures
        crate::l2cap::spec_has_source(spec_replay(chs, packets), s),
    decreases packets.len(),
{
    if packets.len() > 0 {
        lemma_packet_trans_preserves_sources(chs, packets[0], s);
        let rest = packets.drop_first();
        assert(forall|i: int| 0 <= i < rest.len() ==> #[trigger] rest[i].len() >= 1);
        lemma_replay_preserves_sources(HciPacket::spec_trans(chs, packets[0]), rest, s);
    }
}

/// Connection establishment across packets, with arbitrary traffic in
/// between: after a `ConnectionReq(psm, source_cid)`, then any run of
/// packets, then a `ConnectionRsp(dest_cid, source_cid)`, the session
/// holds a record keyed by `source_cid` whose `dest_cid` is the
/// response's destination CID.
pub proof fn lemma_connection_establishment_any_traffic(
    chs: Seq<L2CAPChannel>,
    id1: u8,
    id2: u8,
    psm: u16,
    source_cid: u16,
    dest_cid: u16,
    between: Seq<Seq<u8>>,
)
    requires
        forall|i: int| 0 <= i < between.len() ==> #[trigger] between[i].len() >= 1,
    ensures
        ({
            let after_req = crate::l2cap::spec_conn_req_trans(chs, id1, psm, source_cid);
            let after_mid = spec_replay(after_req, between);
            let after_rsp = crate::l2cap::spec_conn_rsp_trans(
                after_mid,
                id2,
                dest_cid,
                source_cid,
            );
            exists|i: int|
                0 <= i < after_rsp.len() && after_rsp[i].source_cid == source_cid
                    && after_rsp[i].dest_cid == Some(dest_cid)
        }),
{
    let after_req = crate::l2cap::spec_conn_req_trans(chs, id1, psm, source_cid);
    crate::l2cap::lemma_conn_req_creates_record(chs, id1, psm, source_cid);
    lemma_replay_preserves_sources(after_req, between, source_cid);
    let after_mid = spec_replay(after_req, between);
    crate::l2cap::lemma_conn_rsp_sets_dest(after_mid, id2, dest_cid, source_cid);
    let i = choose|i: int| 0 <= i < after_mid.len() && after_mid[i].source_cid == source_cid;
    let after_rsp = crate::l2cap::spec_conn_rsp_trans(after_mid, id2, dest_cid, source_cid);
    assert(after_rsp[i].source_cid == source_cid && after_rsp[i].dest_cid == Some(dest_cid));
}

/// Packets other than ACL data never touch the session's channel table.
pub proof fn lemma_non_acl_packet_is_noop(chs: Seq<L2CAPChannel>, data: Seq<u8>)
    requires
        data.len() >= 1,
        data[0] != 2,
    ensures
        HciPacket::spec_trans(chs, data) == chs,
{
}

// ---------------------------------------------------------------------------
// Location integrity
// ---------------------------------------------------------------------------

use crate::lemma_fields_within_widen;
use crate::spec_fields_within;
use crate::spec_loc_within;

impl OcfReset {
    pub proof fn lemma_fields_in_extent(self, start: int)
        ensures
            spec_fields_within(self.spec_fields(start), start, start + self.spec_extent()),
    {
    }
}

impl OcfInquiry {
    pub proof fn lemma_fields_in_extent(self, start: int)
        ensures
            spec_fields_within(self.spec_fields(start), start, start + self.spec_extent()),
    {
    }

    pub proof fn lemma_extent_le_input(data: Seq<u8>)
        ensures
            Self::spec_new(data) matches Some(i) ==> i.spec_extent() <= data.len(),
    {
    }
}

impl OgfLinkControl {
    pub proof fn lemma_fields_in_extent(self, start: int)
        ensures
            spec_fields_within(self.spec_fields(start), start, start + self.spec_extent()),
    {
        match self {
            OgfLinkControl::Inquiry(Some(i)) => i.lemma_fields_in_extent(start),
            _ => {},
        }
    }

    pub proof fn lemma_extent_le_input(data: Seq<u8>, opcode: u16)
        ensures
            Self::spec_new(data, opcode).spec_extent() <= data.len(),
    {
        OcfInquiry::lemma_extent_le_input(data);
    }
}

impl OgfControllerAndBaseband {
    pub proof fn lemma_fields_in_extent(self, start: int)
        ensures
            spec_fields_within(self.spec_fields(start), start, start + self.spec_extent()),
    {
        match self {
            OgfControllerAndBaseband::Reset(Some(c)) => c.lemma_fields_in_extent(start),
            _ => {},
        }
    }

    pub proof fn lemma_extent_le_input(data: Seq<u8>, opcode: u16)
        ensures
            Self::spec_new(data, opcode).spec_extent() <= data.len(),
    {
    }
}

impl HciCmdParam {
    pub proof fn lemma_fields_in_extent(self, start: int)
        ensures
            spec_fields_within(self.spec_fields(start), start, start + self.spec_extent()),
    {
        match self {
            HciCmdParam::LinkControl(cmd) => cmd.lemma_fields_in_extent(start),
            HciCmdParam::ControllerAndBaseband(cmd) => cmd.lemma_fields_in_extent(start),
            _ => {},
        }
    }

    pub proof fn lemma_extent_le_input(data: Seq<u8>, opcode: u16)
        ensures
            Self::spec_new(data, opcode).spec_extent() <= data.len(),
    {
        OgfLinkControl::lemma_extent_le_input(data, opcode);
        OgfControllerAndBaseband::lemma_extent_le_input(data, opcode);
    }
}

impl HciCmd {
    pub proof fn lemma_fields_in_extent(self, start: int)
        ensures
            spec_fields_within(self.spec_fields(start), start, start + self.spec_extent()),
    {
        self.param.lemma_extent_bounded();
        self.param.lemma_fields_in_extent(start + 3);
        let fs = self.spec_fields(start);
        let hi = start + self.spec_extent();
        lemma_fields_within_widen(
            self.param.spec_fields(start + 3),
            start + 3,
            start + 3 + self.param.spec_extent(),
            start,
            hi,
        );
        assert forall|i: int| 0 <= i < fs.len() implies spec_loc_within(
            #[trigger] fs[i].loc,
            start,
            hi,
        ) by {
            if 5 <= i < 5 + self.param.spec_fields(start + 3).len() {
                assert(fs[i] == self.param.spec_fields(start + 3)[i - 5]);
                assert(spec_loc_within(self.param.spec_fields(start + 3)[i - 5].loc, start, hi));
            }
        }
    }

    pub proof fn lemma_extent_le_input(data: Seq<u8>)
        ensures
            Self::spec_new(data) matches Some(c) ==> c.spec_extent() <= data.len(),
    {
        if data.len() >= 3 {
            HciCmdParam::lemma_extent_le_input(data.skip(3), spec_le16(data, 0));
        }
    }
}

impl EvtCommandComplete {
    pub proof fn lemma_fields_in_extent(self, start: int)
        ensures
            spec_fields_within(self.spec_fields(start), start, start + self.spec_extent()),
    {
    }

    pub proof fn lemma_extent_le_input(data: Seq<u8>)
        ensures
            Self::spec_new(data) matches Some(e) ==> e.spec_extent() <= data.len(),
    {
    }
}

impl HciEvtParam {
    pub proof fn lemma_fields_in_extent(self, start: int)
        ensures
            spec_fields_within(self.spec_fields(start), start, start + self.spec_extent()),
    {
        match self {
            HciEvtParam::CommandComplete(Some(e)) => e.lemma_fields_in_extent(start),
            _ => {},
        }
    }

    pub proof fn lemma_extent_le_input(data: Seq<u8>, code: u8)
        ensures
            Self::spec_new(data, code) matches Some(p) ==> p.spec_extent() <= data.len(),
    {
        EvtCommandComplete::lemma_extent_le_input(data);
    }
}

impl HciEvt {
    pub proof fn lemma_fields_in_extent(self, start: int)
        ensures
            spec_fields_within(self.spec_fields(start), start, start + self.spec_extent()),
    {
        let fs = self.spec_fields(start);
        let hi = start + self.spec_extent();
        match self.param {
            Some(p) => {
                p.lemma_fields_in_extent(start + 2);
                lemma_fields_within_widen(
                    p.spec_fields(start + 2),
                    start + 2,
                    start + 2 + p.spec_extent(),
                    start,
                    hi,
                );
            },
            None => {},
        }
        assert forall|i: int| 0 <= i < fs.len() implies spec_loc_within(
            #[trigger] fs[i].loc,
            start,
            hi,
        ) by {
            match self.param {
                Some(p) => {
                    if 3 <= i < 3 + p.spec_fields(start + 2).len() {
                        assert(fs[i] == p.spec_fields(start + 2)[i - 3]);
                        assert(spec_loc_within(p.spec_fields(start + 2)[i - 3].loc, start, hi));
                    }
                },
                None => {},
            }
        }
    }

    pub proof fn lemma_extent_le_input(data: Seq<u8>)
        ensures
            Self::spec_new(data) matches Some(e) ==> e.spec_extent() <= data.len(),
    {
        if data.len() >= 2 {
            HciEvtParam::lemma_extent_le_input(data.skip(2), data[0]);
        }
    }
}

impl HciAcl {
    pub proof fn lemma_fields_in_extent(self, start: int)
        ensures
            spec_fields_within(self.spec_fields(start), start, start + self.spec_extent()),
    {
        let fs = self.spec_fields(start);
        let hi = start + self.spec_extent();
        match self.data {
            Some(d) => {
                d.lemma_extent_bounded();
                d.lemma_fields_in_extent(start + 4);
                lemma_fields_within_widen(
                    d.spec_fields(start + 4),
                    start + 4,
                    start + 4 + d.spec_extent(),
                    start,
                    hi,
                );
            },
            None => {},
        }
        assert forall|i: int| 0 <= i < fs.len() implies spec_loc_within(
            #[trigger] fs[i].loc,
            start,
            hi,
        ) by {
            match self.data {
                Some(d) => {
                    if 5 <= i < 5 + d.spec_fields(start + 4).len() {
                        assert(fs[i] == d.spec_fields(start + 4)[i - 5]);
                        assert(spec_loc_within(d.spec_fields(start + 4)[i - 5].loc, start, hi));
                    }
                },
                None => {},
            }
        }
    }

    pub proof fn lemma_extent_le_input(data: Seq<u8>, chs: Seq<L2CAPChannel>)
        ensures
            Self::spec_new(data, chs) matches Some(a) ==> a.spec_extent() <= data.len(),
    {
        if data.len() >= 4 {
            L2CAP::lemma_extent_le_input(data.skip(4), chs);
        }
    }
}

impl HciPacket {
    pub proof fn lemma_fields_in_extent(self, start: int)
        ensures
            spec_fields_within(self.spec_fields(start), start, start + self.spec_extent()),
    {
        let fs = self.spec_fields(start);
        let hi = start + self.spec_extent();
        match self {
            HciPacket::Cmd(Some(c)) => {
                c.lemma_extent_bounded();
                c.lemma_fields_in_extent(start + 1);
                lemma_fields_within_widen(
                    c.spec_fields(start + 1),
                    start + 1,
                    start + 1 + c.spec_extent(),
                    start,
                    hi,
                );
            },
            HciPacket::Acl(Some(a)) => {
                a.lemma_extent_bounded();
                a.lemma_fields_in_extent(start + 1);
                lemma_fields_within_widen(
                    a.spec_fields(start + 1),
                    start + 1,
                    start + 1 + a.spec_extent(),
                    start,
                    hi,
                );
            },
            HciPacket::Evt(Some(e)) => {
                e.lemma_extent_bounded();
                e.lemma_fields_in_extent(start + 1);
                lemma_fields_within_widen(
                    e.spec_fields(start + 1),
                    start + 1,
                    start + 1 + e.spec_extent(),
                    start,
                    hi,
                );
            },
            _ => {},
        }
        assert forall|i: int| 0 <= i < fs.len() implies spec_loc_within(
            #[trigger] fs[i].loc,
            start,
            hi,
        ) by {
            match self {
                HciPacket::Cmd(Some(c)) => {
                    if 1 <= i {
                        assert(fs[i] == c.spec_fields(start + 1)[i - 1]);
                        assert(spec_loc_within(c.spec_fields(start + 1)[i - 1].loc, start, hi));
                    }
                },
                HciPacket::Acl(Some(a)) => {
                    if 1 <= i {
                        assert(fs[i] == a.spec_fields(start + 1)[i - 1]);
                        assert(spec_loc_within(a.spec_fields(start + 1)[i - 1].loc, start, hi));
                    }
                },
                HciPacket::Evt(Some(e)) => {
                    if 1 <= i {
                        assert(fs[i] == e.spec_fields(start + 1)[i - 1]);
                        assert(spec_loc_within(e.spec_fields(start + 1)[i - 1].loc, start, hi));
                    }
                },
                _ => {},
            }
        }
    }

    pub proof fn lemma_extent_le_input(data: Seq<u8>, chs: Seq<L2CAPChannel>)
        requires
            data.len() >= 1,
        ensures
            Self::spec_new(data, chs).spec_extent() <= data.len(),
    {
        HciCmd::lemma_extent_le_input(data.skip(1));
        HciAcl::lemma_extent_le_input(data.skip(1), chs);
        HciEvt::lemma_extent_le_input(data.skip(1));
    }
}

/// Round-trip location integrity: every location in the annotation tree of
/// a decoded packet, rendered from cursor 0, ends at or before the end of
/// the original buffer.
pub proof fn lemma_location_integrity(data: Seq<u8>, chs: Seq<L2CAPChannel>)
    requires
        data.len() >= 1,
    ensures
        spec_fields_within(HciPacket::spec_new(data, chs).spec_fields(0), 0, data.len() as int),
{
    let p = HciPacket::spec_new(data, chs);
    p.lemma_fields_in_extent(0);
    HciPacket::lemma_extent_le_input(data, chs);
    lemma_fields_within_widen(p.spec_fields(0), 0, p.spec_extent(), 0, data.len() as int);
}

/// Decodes one packet and renders its annotations; the session is updated
/// by the decode.
pub fn parse(data: &[u8], args: &mut HostStack) -> (r: String)
    requires
        data@.len() >= 1,
    ensures
        r@ == spec_render_fields(
            HciPacket::spec_new(data@, old(args).l2cap_arg.channels@).spec_fields(0),
            true,
        ),
        final(args).l2cap_arg.channels@ == HciPacket::spec_trans(
            old(args).l2cap_arg.channels@,
            data@,
        ),
        final(args).sdp_arg == old(args).sdp_arg,
{
    let ret = HciPacket::new(data, args);
    proof {
        ret.lemma_extent_bounded();
    }
    ret.as_json(0)
}

} // verus!
