//! L2CAP layer: channel-id routing, signaling commands, and the
//! session-scoped channel table that correlates connection establishment and
//! configuration across packets.

use vstd::prelude::*;

use crate::sdp::SDP;

use crate::DecodeField;
use crate::DecodeStatus;
use crate::FieldLoc;
use crate::subtree_end;
use crate::subtree_start;
use crate::HostStack;
use crate::ParseBytesNode;
use crate::ParseNode;
use crate::ParseNodeA;
use crate::ParseNodeOpt;
use crate::ParseNodeOptA;
use crate::SpecField;
use crate::SpecLoc;
use crate::le16_at;
use crate::num_field;
use crate::render_fields;
use crate::spec_le16;
use crate::spec_num_field;
use crate::spec_render_fields;
use crate::views_of;

verus! {

/// One L2CAP channel observed by the session: created by a Connection
/// Request, completed by the matching Connection Response, and annotated
/// with negotiated parameters by Configuration exchanges.  Records are never
/// removed within a session.
#[derive(Clone, Copy, Debug, PartialEq, Eq, Structural)]
pub struct L2CAPChannel {
    /// Identifier byte of the signaling command that last touched the record.
    pub identifier: u8,
    /// CID chosen by the side that sent the Connection Request.
    pub source_cid: u16,
    /// CID assigned by the responder; unknown until the Connection Response.
    pub dest_cid: Option<u16>,
    /// Protocol/Service Multiplexer requested for the channel.
    pub psm: u16,
    /// MTU negotiated for traffic toward the request sender.
    pub local_mtu: Option<u16>,
    /// MTU negotiated for traffic away from the request sender.
    pub remote_mtu: Option<u16>,
    /// Flush timeout, when a configuration option carried one.
    pub flush_timeout: Option<u16>,
}

/// Per-session L2CAP decoder state: the table of observed channels.
#[derive(Debug)]
pub struct L2CAPArg {
    pub channels: Vec<L2CAPChannel>,
}

impl L2CAPArg {
    pub fn new() -> (r: L2CAPArg)
        ensures
            r.channels@ == Seq::<L2CAPChannel>::empty(),
    {
        L2CAPArg { channels: Vec::new() }
    }
}

// ---------------------------------------------------------------------------
// Channel table transitions
// ---------------------------------------------------------------------------

/// Whether the table already has a record created for `source_cid`.
pub open spec fn spec_has_source(chs: Seq<L2CAPChannel>, source_cid: u16) -> bool {
    exists|i: int| 0 <= i < chs.len() && chs[i].source_cid == source_cid
}

/// The record a Connection Request creates: CIDs and MTUs still unknown.
pub open spec fn spec_new_channel(id: u8, psm: u16, source_cid: u16) -> L2CAPChannel {
    L2CAPChannel {
        identifier: id,
        source_cid,
        dest_cid: None,
        psm,
        local_mtu: None,
        remote_mtu: None,
        flush_timeout: None,
    }
}

/// Observing `ConnectionReq(psm, source_cid)`: a record is created on the
/// first sight of `source_cid`; a repeated request changes nothing.
pub open spec fn spec_conn_req_trans(
    chs: Seq<L2CAPChannel>,
    id: u8,
    psm: u16,
    source_cid: u16,
) -> Seq<L2CAPChannel> {
    if spec_has_source(chs, source_cid) {
        chs
    } else {
        chs.push(spec_new_channel(id, psm, source_cid))
    }
}

/// Observing `ConnectionRsp(dest_cid, source_cid)`: every record keyed by
/// `source_cid` learns the responder's `dest_cid`.
pub open spec fn spec_conn_rsp_trans(
    chs: Seq<L2CAPChannel>,
    id: u8,
    dest_cid: u16,
    source_cid: u16,
) -> Seq<L2CAPChannel> {
    chs.map_values(
        |c: L2CAPChannel|
            if c.source_cid == source_cid {
                L2CAPChannel { identifier: id, dest_cid: Some(dest_cid), ..c }
            } else {
                c
            },
    )
}

/// Observing `ConfigurationReq(dest_cid_field, mtu)`: a record whose
/// `dest_cid` equals the wire field is seen from the side that opened the
/// channel, so its `local_mtu` is being negotiated; a record whose
/// `source_cid` equals it is seen from the other side, so its `remote_mtu`
/// is.  Without an MTU option nothing changes.
pub open spec fn spec_conf_req_trans(
    chs: Seq<L2CAPChannel>,
    id: u8,
    dest_cid_field: u16,
    mtu: Option<u16>,
) -> Seq<L2CAPChannel> {
    match mtu {
        Option::None => chs,
        Option::Some(m) => chs.map_values(
            |c: L2CAPChannel|
                if c.dest_cid == Some(dest_cid_field) {
                    L2CAPChannel { identifier: id, local_mtu: Some(m), ..c }
                } else if c.source_cid == dest_cid_field {
                    L2CAPChannel { identifier: id, remote_mtu: Some(m), ..c }
                } else {
                    c
                },
        ),
    }
}

/// Observing `ConfigurationRsp(source_cid_field, mtu)`: a record whose
/// `dest_cid` equals the wire field has its `remote_mtu` confirmed.
pub open spec fn spec_conf_rsp_trans(
    chs: Seq<L2CAPChannel>,
    id: u8,
    source_cid_field: u16,
    mtu: Option<u16>,
) -> Seq<L2CAPChannel> {
    match mtu {
        Option::None => chs,
        Option::Some(m) => chs.map_values(
            |c: L2CAPChannel|
                if c.dest_cid == Some(source_cid_field) {
                    L2CAPChannel { identifier: id, remote_mtu: Some(m), ..c }
                } else {
                    c
                },
        ),
    }
}

/// The PSM of the latest record whose `dest_cid` matches an observed
/// dynamically-allocated CID, or `0` when no record matches.
pub open spec fn spec_lookup_psm(chs: Seq<L2CAPChannel>, cid: u16) -> u16
    decreases chs.len(),
{
    if chs.len() == 0 {
        0
    } else if chs.last().dest_cid == Some(cid) {
        chs.last().psm
    } else {
        spec_lookup_psm(chs.drop_last(), cid)
    }
}

// ---------------------------------------------------------------------------
// Signaling commands
// ---------------------------------------------------------------------------

/// Connection Request (signaling code 0x02).
#[derive(Debug, PartialEq, Eq, Structural)]
pub struct SignalConnReq {
    pub psm: u16,
    pub source_cid: u16,
}

impl SignalConnReq {
    pub open spec fn spec_new(data: Seq<u8>) -> Option<SignalConnReq> {
        if data.len() != 4 {
            None
        } else {
            Some(
                SignalConnReq { psm: spec_le16(data, 0), source_cid: spec_le16(data, 2) },
            )
        }
    }

    /// What this signal does to the channel table.
    pub open spec fn spec_trans(chs: Seq<L2CAPChannel>, data: Seq<u8>, id: u8) -> Seq<
        L2CAPChannel,
    > {
        match Self::spec_new(data) {
            Some(s) => spec_conn_req_trans(chs, id, s.psm, s.source_cid),
            None => chs,
        }
    }

    /// Decodes the signal and applies its channel-table transition in the
    /// same step.
    pub fn new(data: &[u8], stack: &mut HostStack, id: u8) -> (r: Option<SignalConnReq>)
        ensures
            r == Self::spec_new(data@),
            final(stack).l2cap_arg.channels@ == Self::spec_trans(
                old(stack).l2cap_arg.channels@,
                data@,
                id,
            ),
            final(stack).sdp_arg == old(stack).sdp_arg,
    {
        if data.len() != 4 {
            return None;
        }
        let psm = le16_at(data, 0);
        let source_cid = le16_at(data, 2);
        let ghost chs0 = stack.l2cap_arg.channels@;
        let n = stack.l2cap_arg.channels.len();
        let mut found: bool = false;
        let mut i: usize = 0;
        while i < n
            invariant
                n == stack.l2cap_arg.channels@.len(),
                stack.l2cap_arg.channels@ == chs0,
                stack.sdp_arg == old(stack).sdp_arg,
                0 <= i <= n,
                found <==> exists|j: int| 0 <= j < i && chs0[j].source_cid == source_cid,
            decreases n - i,
        {
            if stack.l2cap_arg.channels[i].source_cid == source_cid {
                found = true;
            }
            i = i + 1;
        }
        if !found {
            let c = L2CAPChannel {
                identifier: id,
                source_cid,
                dest_cid: None,
                psm,
                local_mtu: None,
                remote_mtu: None,
                flush_timeout: None,
            };
            stack.l2cap_arg.channels.push(c);
        }
        proof {
            assert(found <==> spec_has_source(chs0, source_cid));
        }
        Some(SignalConnReq { psm, source_cid })
    }
}

/// Connection Response (signaling code 0x03).
#[derive(Debug, PartialEq, Eq, Structural)]
pub struct SignalConnRsp {
    pub dest_cid: u16,
    pub source_cid: u16,
    pub result: u16,
    pub status: u16,
}

impl SignalConnRsp {
    pub open spec fn spec_new(data: Seq<u8>) -> Option<SignalConnRsp> {
        if data.len() != 8 {
            None
        } else {
            Some(
                SignalConnRsp {
                    dest_cid: spec_le16(data, 0),
                    source_cid: spec_le16(data, 2),
                    result: spec_le16(data, 4),
                    status: spec_le16(data, 6),
                },
            )
        }
    }

    pub open spec fn spec_trans(chs: Seq<L2CAPChannel>, data: Seq<u8>, id: u8) -> Seq<
        L2CAPChannel,
    > {
        match Self::spec_new(data) {
            Some(s) => spec_conn_rsp_trans(chs, id, s.dest_cid, s.source_cid),
            None => chs,
        }
    }

    /// Decodes the signal and applies its channel-table transition in the
    /// same step.
    pub fn new(data: &[u8], stack: &mut HostStack, id: u8) -> (r: Option<SignalConnRsp>)
        ensures
            r == Self::spec_new(data@),
            final(stack).l2cap_arg.channels@ == Self::spec_trans(
                old(stack).l2cap_arg.channels@,
                data@,
                id,
            ),
            final(stack).sdp_arg == old(stack).sdp_arg,
    {
        if data.len() != 8 {
            return None;
        }
        let dest_cid = le16_at(data, 0);
        let source_cid = le16_at(data, 2);
        let ghost chs0 = stack.l2cap_arg.channels@;
        let ghost updated = spec_conn_rsp_trans(chs0, id, dest_cid, source_cid);
        let n = stack.l2cap_arg.channels.len();
        let mut i: usize = 0;
        while i < n
            invariant
                n == chs0.len(),
                stack.l2cap_arg.channels@.len() == n,
                stack.sdp_arg == old(stack).sdp_arg,
                0 <= i <= n,
                updated == spec_conn_rsp_trans(chs0, id, dest_cid, source_cid),
                forall|j: int| 0 <= j < i ==> stack.l2cap_arg.channels@[j] == updated[j],
                forall|j: int| i <= j < n ==> stack.l2cap_arg.channels@[j] == chs0[j],
            decreases n - i,
        {
            let c = stack.l2cap_arg.channels[i];
            if c.source_cid == source_cid {
                stack.l2cap_arg.channels[i] = L2CAPChannel {
                    identifier: id,
                    dest_cid: Some(dest_cid),
                    ..c
                };
            }
            i = i + 1;
        }
        proof {
            assert(stack.l2cap_arg.channels@ =~= updated);
        }
        Some(
            SignalConnRsp { dest_cid, source_cid, result: le16_at(data, 4), status: le16_at(data, 6) },
        )
    }
}

// ---------------------------------------------------------------------------
// Configuration options
// ---------------------------------------------------------------------------

/// The 2-byte MTU configuration option value.
#[derive(Debug, PartialEq, Eq, Structural, Clone, Copy)]
pub struct ConfigOptionMTU {
    pub mtu: u16,
}

impl ParseNode for ConfigOptionMTU {
    open spec fn spec_req(data: Seq<u8>) -> bool {
        data.len() >= 2
    }

    open spec fn spec_new(data: Seq<u8>) -> ConfigOptionMTU {
        ConfigOptionMTU { mtu: spec_le16(data, 0) }
    }

    open spec fn spec_fields(self, start: int) -> Seq<SpecField> {
        seq![
            spec_num_field(
                "MTU"@,
                self.mtu as int,
                ""@,
                SpecLoc::Bytes { start, len: 2 },
                DecodeStatus::Valid,
            ),
        ]
    }

    open spec fn spec_extent(self) -> int {
        2
    }

    fn new(data: &[u8]) -> (r: ConfigOptionMTU) {
        ConfigOptionMTU { mtu: le16_at(data, 0) }
    }

    fn fields(&self, start_byte: u8) -> (r: Vec<DecodeField>) {
        let mut out: Vec<DecodeField> = Vec::new();
        out.push(
            num_field(
                "MTU",
                self.mtu as u64,
                "",
                FieldLoc::Bytes(ParseBytesNode { start_byte, len_in_bytes: 2 }),
                DecodeStatus::Valid,
            ),
        );
        proof {
            assert(views_of(out@) =~~= self.spec_fields(start_byte as int));
        }
        out
    }
}

/// The body of one configuration option, selected by its type byte.  Only
/// the MTU option is decoded in depth; other known types are acknowledged
/// by name, unknown types fall to `Undefined`.
#[derive(Debug, PartialEq, Eq, Structural, Clone, Copy)]
pub enum ConfigOptionData {
    Undefined,
    MTU(ConfigOptionMTU),
    FlushTimeout,
    QOS,
    RetransmissionAndFlowControl,
    FCS,
    ExtendedFlowSpecification,
    ExtendedWindowSize,
}

impl ParseNodeOpt for ConfigOptionData {
    open spec fn spec_new(data: Seq<u8>) -> Option<ConfigOptionData> {
        if data.len() < 2 {
            None
        } else {
            let opt_type = data[0];
            if opt_type == 1 {
                if data.len() >= 4 {
                    Some(ConfigOptionData::MTU(ConfigOptionMTU::spec_new(data.skip(2))))
                } else {
                    None
                }
            } else if opt_type == 2 {
                Some(ConfigOptionData::FlushTimeout)
            } else if opt_type == 3 {
                Some(ConfigOptionData::QOS)
            } else if opt_type == 4 {
                Some(ConfigOptionData::RetransmissionAndFlowControl)
            } else if opt_type == 5 {
                Some(ConfigOptionData::FCS)
            } else if opt_type == 6 {
                Some(ConfigOptionData::ExtendedFlowSpecification)
            } else if opt_type == 7 {
                Some(ConfigOptionData::ExtendedWindowSize)
            } else {
                Some(ConfigOptionData::Undefined)
            }
        }
    }

    open spec fn spec_fields(self, start: int) -> Seq<SpecField> {
        match self {
            ConfigOptionData::MTU(m) => m.spec_fields(start),
            _ => Seq::empty(),
        }
    }

    open spec fn spec_extent(self) -> int {
        match self {
            ConfigOptionData::MTU(m) => m.spec_extent(),
            _ => 0,
        }
    }

    fn new(data: &[u8]) -> (r: Option<ConfigOptionData>) {
        if data.len() < 2 {
            return None;
        }
        let opt_type = data[0];
        let r = match opt_type {
            1 => {
                if data.len() >= 4 {
                    let rest = &data[2..data.len()];
                    ConfigOptionData::MTU(ConfigOptionMTU::new(rest))
                } else {
                    return None;
                }
            },
            2 => ConfigOptionData::FlushTimeout,
            3 => ConfigOptionData::QOS,
            4 => ConfigOptionData::RetransmissionAndFlowControl,
            5 => ConfigOptionData::FCS,
            6 => ConfigOptionData::ExtendedFlowSpecification,
            7 => ConfigOptionData::ExtendedWindowSize,
            _ => ConfigOptionData::Undefined,
        };
        Some(r)
    }

    fn fields(&self, start_byte: u8) -> (r: Vec<DecodeField>) {
        match self {
            ConfigOptionData::MTU(m) => m.fields(start_byte),
            _ => {
                let out: Vec<DecodeField> = Vec::new();
                proof {
                    assert(views_of(out@) =~~= self.spec_fields(start_byte as int));
                }
                out
            },
        }
    }
}

/// One configuration option: type, length, and the decoded body when the
/// type is modeled and the bytes suffice.
#[derive(Debug, PartialEq, Eq, Structural, Clone, Copy)]
pub struct ConfigOption {
    pub opt_type: u8,
    pub opt_len: u8,
    pub data: Option<ConfigOptionData>,
}

impl ParseNodeOpt for ConfigOption {
    open spec fn spec_new(data: Seq<u8>) -> Option<ConfigOption> {
        if data.len() < 2 {
            None
        } else {
            Some(
                ConfigOption {
                    opt_type: data[0],
                    opt_len: data[1],
                    data: ConfigOptionData::spec_new(data),
                },
            )
        }
    }

    open spec fn spec_fields(self, start: int) -> Seq<SpecField> {
        seq![
            crate::spec_subtree_start("Configuration Options"@),
            spec_num_field(
                "Option Type"@,
                self.opt_type as int,
                ""@,
                SpecLoc::Bytes { start, len: 1 },
                DecodeStatus::Valid,
            ),
            spec_num_field(
                "Option Length"@,
                self.opt_len as int,
                ""@,
                SpecLoc::Bytes { start: start + 1, len: 1 },
                DecodeStatus::Valid,
            ),
        ] + (match self.data {
            Some(d) => d.spec_fields(start + 2),
            None => seq![crate::spec_truncated_field(start + 2)],
        }) + seq![crate::spec_subtree_end()]
    }

    open spec fn spec_extent(self) -> int {
        2 + (match self.data {
            Some(d) => d.spec_extent(),
            None => 0,
        })
    }

    fn new(data: &[u8]) -> (r: Option<ConfigOption>) {
        if data.len() < 2 {
            return None;
        }
        let opt_type = data[0];
        let opt_len = data[1];
        let inner = ConfigOptionData::new(data);
        Some(ConfigOption { opt_type, opt_len, data: inner })
    }

    fn fields(&self, start_byte: u8) -> (r: Vec<DecodeField>) {
        let mut out: Vec<DecodeField> = Vec::new();
        out.push(subtree_start("Configuration Options"));
        out.push(
            num_field(
                "Option Type",
                self.opt_type as u64,
                "",
                FieldLoc::Bytes(ParseBytesNode { start_byte, len_in_bytes: 1 }),
                DecodeStatus::Valid,
            ),
        );
        out.push(
            num_field(
                "Option Length",
                self.opt_len as u64,
                "",
                FieldLoc::Bytes(ParseBytesNode { start_byte: start_byte + 1, len_in_bytes: 1 }),
                DecodeStatus::Valid,
            ),
        );
        match &self.data {
            Some(d) => {
                let mut inner = d.fields(start_byte + 2);
                out.append(&mut inner);
            },
            None => {
                out.push(crate::truncated_field(start_byte + 2));
            },
        }
        out.push(subtree_end());
        proof {
            assert(views_of(out@) =~~= self.spec_fields(start_byte as int));
        }
        out
    }
}

/// The MTU an option list carries, when it carries one.
pub open spec fn spec_opt_mtu(o: Option<ConfigOption>) -> Option<u16> {
    match o {
        Some(opt) => match opt.data {
            Some(ConfigOptionData::MTU(m)) => Some(m.mtu),
            _ => None,
        },
        None => None,
    }
}

/// Configuration Request (signaling code 0x04).
#[derive(Debug, PartialEq, Eq, Structural, Clone, Copy)]
pub struct SignalConfReq {
    pub dest_cid: u16,
    pub flags: u16,
    pub option: Option<ConfigOption>,
}

impl SignalConfReq {
    pub open spec fn spec_new(data: Seq<u8>) -> Option<SignalConfReq> {
        if data.len() < 4 {
            None
        } else {
            Some(
                SignalConfReq {
                    dest_cid: spec_le16(data, 0),
                    flags: spec_le16(data, 2),
                    option: ConfigOption::spec_new(data.skip(4)),
                },
            )
        }
    }

    pub open spec fn spec_trans(chs: Seq<L2CAPChannel>, data: Seq<u8>, id: u8) -> Seq<
        L2CAPChannel,
    > {
        match Self::spec_new(data) {
            Some(s) => spec_conf_req_trans(chs, id, s.dest_cid, spec_opt_mtu(s.option)),
            None => chs,
        }
    }

    /// Decodes the signal and applies its channel-table transition in the
    /// same step.
    pub fn new(data: &[u8], stack: &mut HostStack, id: u8) -> (r: Option<SignalConfReq>)
        ensures
            r == Self::spec_new(data@),
            final(stack).l2cap_arg.channels@ == Self::spec_trans(
                old(stack).l2cap_arg.channels@,
                data@,
                id,
            ),
            final(stack).sdp_arg == old(stack).sdp_arg,
    {
        if data.len() < 4 {
            return None;
        }
        let dest_cid = le16_at(data, 0);
        let flags = le16_at(data, 2);
        let rest = &data[4..data.len()];
        proof {
            assert(rest@ =~= data@.skip(4));
        }
        let option = ConfigOption::new(rest);
        let mtu: Option<u16> = match &option {
            Some(o) => match &o.data {
                Some(ConfigOptionData::MTU(m)) => Some(m.mtu),
                _ => None,
            },
            None => None,
        };
        let ghost chs0 = stack.l2cap_arg.channels@;
        let ghost updated = spec_conf_req_trans(chs0, id, dest_cid, mtu);
        if let Some(m) = mtu {
            let n = stack.l2cap_arg.channels.len();
            let mut i: usize = 0;
            while i < n
                invariant
                    n == chs0.len(),
                    stack.l2cap_arg.channels@.len() == n,
                    stack.sdp_arg == old(stack).sdp_arg,
                    0 <= i <= n,
                    updated == spec_conf_req_trans(chs0, id, dest_cid, Some(m)),
                    forall|j: int| 0 <= j < i ==> stack.l2cap_arg.channels@[j] == updated[j],
                    forall|j: int| i <= j < n ==> stack.l2cap_arg.channels@[j] == chs0[j],
                decreases n - i,
            {
                let c = stack.l2cap_arg.channels[i];
                let dest_matches = match c.dest_cid {
                    Some(d) => d == dest_cid,
                    None => false,
                };
                if dest_matches {
                    stack.l2cap_arg.channels[i] = L2CAPChannel {
                        identifier: id,
                        local_mtu: Some(m),
                        ..c
                    };
                } else if c.source_cid == dest_cid {
                    stack.l2cap_arg.channels[i] = L2CAPChannel {
                        identifier: id,
                        remote_mtu: Some(m),
                        ..c
                    };
                }
                i = i + 1;
            }
            proof {
                assert(stack.l2cap_arg.channels@ =~= updated);
            }
        }
        Some(SignalConfReq { dest_cid, flags, option })
    }
}

/// Configuration Response (signaling code 0x05).
#[derive(Debug, PartialEq, Eq, Structural, Clone, Copy)]
pub struct SignalConfRsp {
    pub source_cid: u16,
    pub flags: u16,
    pub result: u16,
    pub option: Option<ConfigOption>,
}

impl SignalConfRsp {
    pub open spec fn spec_new(data: Seq<u8>) -> Option<SignalConfRsp> {
        if data.len() < 6 {
            None
        } else {
            Some(
                SignalConfRsp {
                    source_cid: spec_le16(data, 0),
                    flags: spec_le16(data, 2),
                    result: spec_le16(data, 4),
                    option: ConfigOption::spec_new(data.skip(6)),
                },
            )
        }
    }

    pub open spec fn spec_trans(chs: Seq<L2CAPChannel>, data: Seq<u8>, id: u8) -> Seq<
        L2CAPChannel,
    > {
        match Self::spec_new(data) {
            Some(s) => spec_conf_rsp_trans(chs, id, s.source_cid, spec_opt_mtu(s.option)),
            None => chs,
        }
    }

    /// Decodes the signal and applies its channel-table transition in the
    /// same step.
    pub fn new(data: &[u8], stack: &mut HostStack, id: u8) -> (r: Option<SignalConfRsp>)
        ensures
            r == Self::spec_new(data@),
            final(stack).l2cap_arg.channels@ == Self::spec_trans(
                old(stack).l2cap_arg.channels@,
                data@,
                id,
            ),
            final(stack).sdp_arg == old(stack).sdp_arg,
    {
        if data.len() < 6 {
            return None;
        }
        let source_cid = le16_at(data, 0);
        let flags = le16_at(data, 2);
        let result = le16_at(data, 4);
        let rest = &data[6..data.len()];
        proof {
            assert(rest@ =~= data@.skip(6));
        }
        let option = ConfigOption::new(rest);
        let mtu: Option<u16> = match &option {
            Some(o) => match &o.data {
                Some(ConfigOptionData::MTU(m)) => Some(m.mtu),
                _ => None,
            },
            None => None,
        };
        let ghost chs0 = stack.l2cap_arg.channels@;
        let ghost updated = spec_conf_rsp_trans(chs0, id, source_cid, mtu);
        if let Some(m) = mtu {
            let n = stack.l2cap_arg.channels.len();
            let mut i: usize = 0;
            while i < n
                invariant
                    n == chs0.len(),
                    stack.l2cap_arg.channels@.len() == n,
                    stack.sdp_arg == old(stack).sdp_arg,
                    0 <= i <= n,
                    updated == spec_conf_rsp_trans(chs0, id, source_cid, Some(m)),
                    forall|j: int| 0 <= j < i ==> stack.l2cap_arg.channels@[j] == updated[j],
                    forall|j: int| i <= j < n ==> stack.l2cap_arg.channels@[j] == chs0[j],
                decreases n - i,
            {
                let c = stack.l2cap_arg.channels[i];
                let dest_matches = match c.dest_cid {
                    Some(d) => d == source_cid,
                    None => false,
                };
                if dest_matches {
                    stack.l2cap_arg.channels[i] = L2CAPChannel {
                        identifier: id,
                        remote_mtu: Some(m),
                        ..c
                    };
                }
                i = i + 1;
            }
            proof {
                assert(stack.l2cap_arg.channels@ =~= updated);
            }
        }
        Some(SignalConfRsp { source_cid, flags, result, option })
    }
}

// ---------------------------------------------------------------------------
// Symbol tables
// ---------------------------------------------------------------------------

/// The name of a known Protocol/Service Multiplexer value; empty when the
/// value is not in the table.
pub open spec fn spec_psm_name(psm: u16) -> Seq<char> {
    if psm == 0x0001 {
        "SDP"@
    } else if psm == 0x0003 {
        "RFCOMM"@
    } else if psm == 0x0005 {
        "TCS-BIN"@
    } else if psm == 0x0007 {
        "TCS-BIN-CORDLESS"@
    } else if psm == 0x000F {
        "BNEP"@
    } else if psm == 0x0011 {
        "HID-Control"@
    } else if psm == 0x0013 {
        "HID-Interrupt"@
    } else if psm == 0x0015 {
        "UPnP"@
    } else if psm == 0x0017 {
        "AVCTP"@
    } else if psm == 0x0019 {
        "AVDTP"@
    } else if psm == 0x001B {
        "AVCTP-Browsing"@
    } else if psm == 0x001D {
        "UDIC-Plane"@
    } else if psm == 0x001F {
        "ATT"@
    } else if psm == 0x0021 {
        "3DSP"@
    } else if psm == 0x0023 {
        "LE-PSM-IPSP"@
    } else if psm == 0x0025 {
        "OTS"@
    } else if psm == 0x0027 {
        "EATT"@
    } else {
        ""@
    }
}

/// Looks a PSM value up in the name table; empty for unknown values.
pub fn psm_name_of(psm: u16) -> (r: &'static str)
    ensures
        r@ == spec_psm_name(psm),
{
    match psm {
        0x0001 => "SDP",
        0x0003 => "RFCOMM",
        0x0005 => "TCS-BIN",
        0x0007 => "TCS-BIN-CORDLESS",
        0x000F => "BNEP",
        0x0011 => "HID-Control",
        0x0013 => "HID-Interrupt",
        0x0015 => "UPnP",
        0x0017 => "AVCTP",
        0x0019 => "AVDTP",
        0x001B => "AVCTP-Browsing",
        0x001D => "UDIC-Plane",
        0x001F => "ATT",
        0x0021 => "3DSP",
        0x0023 => "LE-PSM-IPSP",
        0x0025 => "OTS",
        0x0027 => "EATT",
        _ => "",
    }
}

/// The name of a Connection Response result code; empty when unknown.
pub open spec fn spec_conn_result_name(result: u16) -> Seq<char> {
    if result == 0x0000 {
        "Connection Accepted"@
    } else if result == 0x0001 {
        "Connection pending"@
    } else if result == 0x0002 {
        "Connection refused - PSM not supported"@
    } else if result == 0x0003 {
        "Connection refused - security block"@
    } else if result == 0x0004 {
        "Connection refused - no resources available"@
    } else if result == 0x0006 {
        "Connection refused - invalid Source CID"@
    } else if result == 0x0007 {
        "Connection refused - Source CID already allocated"@
    } else {
        ""@
    }
}

fn conn_result_name(result: u16) -> (r: &'static str)
    ensures
        r@ == spec_conn_result_name(result),
{
    match result {
        0x0000 => "Connection Accepted",
        0x0001 => "Connection pending",
        0x0002 => "Connection refused - PSM not supported",
        0x0003 => "Connection refused - security block",
        0x0004 => "Connection refused - no resources available",
        0x0006 => "Connection refused - invalid Source CID",
        0x0007 => "Connection refused - Source CID already allocated",
        _ => "",
    }
}

/// The name of a Connection Response status code; empty when unknown.
pub open spec fn spec_conn_status_name(status: u16) -> Seq<char> {
    if status == 0x0000 {
        "No further information available"@
    } else if status == 0x0001 {
        "Authentication pending"@
    } else if status == 0x0002 {
        "Authorization pending"@
    } else {
        ""@
    }
}

fn conn_status_name(status: u16) -> (r: &'static str)
    ensures
        r@ == spec_conn_status_name(status),
{
    match status {
        0x0000 => "No further information available",
        0x0001 => "Authentication pending",
        0x0002 => "Authorization pending",
        _ => "",
    }
}

/// The name of a Configuration Response result code; every value has one,
/// values outside the table read as reserved.
pub open spec fn spec_conf_result_name(result: u16) -> Seq<char> {
    if result == 0x0000 {
        "Success"@
    } else if result == 0x0001 {
        "Failure - unacceptable parameters"@
    } else if result == 0x0002 {
        "Failure - rejected (no reason provided)"@
    } else if result == 0x0003 {
        "Failure - unknown options"@
    } else if result == 0x0004 {
        "Pending"@
    } else if result == 0x0005 {
        "Failure - flow spec rejected"@
    } else {
        "Reserved for future use"@
    }
}

fn conf_result_name(result: u16) -> (r: &'static str)
    ensures
        r@ == spec_conf_result_name(result),
{
    match result {
        0x0000 => "Success",
        0x0001 => "Failure - unacceptable parameters",
        0x0002 => "Failure - rejected (no reason provided)",
        0x0003 => "Failure - unknown options",
        0x0004 => "Pending",
        0x0005 => "Failure - flow spec rejected",
        _ => "Reserved for future use",
    }
}

// ---------------------------------------------------------------------------
// Signal annotations
// ---------------------------------------------------------------------------

impl SignalConnReq {
    pub open spec fn spec_fields(self, start: int) -> Seq<SpecField> {
        seq![
            spec_num_field(
                "PSM"@,
                self.psm as int,
                spec_psm_name(self.psm),
                SpecLoc::Bytes { start, len: 2 },
                if spec_psm_name(self.psm).len() == 0 {
                    DecodeStatus::Error
                } else {
                    DecodeStatus::Valid
                },
            ),
            spec_num_field(
                "Source CID"@,
                self.source_cid as int,
                ""@,
                SpecLoc::Bytes { start: start + 2, len: 2 },
                DecodeStatus::Valid,
            ),
        ]
    }

    pub open spec fn spec_extent(self) -> int {
        4
    }

    pub fn fields(&self, start_byte: u8) -> (r: Vec<DecodeField>)
        requires
            start_byte as int + self.spec_extent() <= 255,
        ensures
            views_of(r@) == self.spec_fields(start_byte as int),
    {
        let mut out: Vec<DecodeField> = Vec::new();
        let name = psm_name_of(self.psm);
        let status = if name.unicode_len() == 0 {
            DecodeStatus::Error
        } else {
            DecodeStatus::Valid
        };
        out.push(
            num_field(
                "PSM",
                self.psm as u64,
                name,
                FieldLoc::Bytes(ParseBytesNode { start_byte, len_in_bytes: 2 }),
                status,
            ),
        );
        out.push(
            num_field(
                "Source CID",
                self.source_cid as u64,
                "",
                FieldLoc::Bytes(ParseBytesNode { start_byte: start_byte + 2, len_in_bytes: 2 }),
                DecodeStatus::Valid,
            ),
        );
        proof {
            assert(views_of(out@) =~~= self.spec_fields(start_byte as int));
        }
        out
    }

    pub fn as_json(&self, start_byte: u8) -> (r: String)
        requires
            start_byte as int + self.spec_extent() <= 255,
        ensures
            r@ == spec_render_fields(self.spec_fields(start_byte as int), true),
    {
        render_fields(&self.fields(start_byte))
    }
}

impl SignalConnRsp {
    pub open spec fn spec_fields(self, start: int) -> Seq<SpecField> {
        seq![
            spec_num_field(
                "Destination CID"@,
                self.dest_cid as int,
                ""@,
                SpecLoc::Bytes { start, len: 2 },
                DecodeStatus::Valid,
            ),
            spec_num_field(
                "Source CID"@,
                self.source_cid as int,
                ""@,
                SpecLoc::Bytes { start: start + 2, len: 2 },
                DecodeStatus::Valid,
            ),
            spec_num_field(
                "Result"@,
                self.result as int,
                spec_conn_result_name(self.result),
                SpecLoc::Bytes { start: start + 4, len: 2 },
                if spec_conn_result_name(self.result).len() == 0 {
                    DecodeStatus::Error
                } else {
                    DecodeStatus::Valid
                },
            ),
            spec_num_field(
                "Status"@,
                self.status as int,
                spec_conn_status_name(self.status),
                SpecLoc::Bytes { start: start + 6, len: 2 },
                if spec_conn_status_name(self.status).len() == 0 {
                    DecodeStatus::Error
                } else {
                    DecodeStatus::Valid
                },
            ),
        ]
    }

    pub open spec fn spec_extent(self) -> int {
        8
    }

    pub fn fields(&self, start_byte: u8) -> (r: Vec<DecodeField>)
        requires
            start_byte as int + self.spec_extent() <= 255,
        ensures
            views_of(r@) == self.spec_fields(start_byte as int),
    {
        let mut out: Vec<DecodeField> = Vec::new();
        out.push(
            num_field(
                "Destination CID",
                self.dest_cid as u64,
                "",
                FieldLoc::Bytes(ParseBytesNode { start_byte, len_in_bytes: 2 }),
                DecodeStatus::Valid,
            ),
        );
        out.push(
            num_field(
                "Source CID",
                self.source_cid as u64,
                "",
                FieldLoc::Bytes(ParseBytesNode { start_byte: start_byte + 2, len_in_bytes: 2 }),
                DecodeStatus::Valid,
            ),
        );
        let result_name = conn_result_name(self.result);
        let result_status = if result_name.unicode_len() == 0 {
            DecodeStatus::Error
        } else {
            DecodeStatus::Valid
        };
        out.push(
            num_field(
                "Result",
                self.result as u64,
                result_name,
                FieldLoc::Bytes(ParseBytesNode { start_byte: start_byte + 4, len_in_bytes: 2 }),
                result_status,
            ),
        );
        let status_name = conn_status_name(self.status);
        let status_status = if status_name.unicode_len() == 0 {
            DecodeStatus::Error
        } else {
            DecodeStatus::Valid
        };
        out.push(
            num_field(
                "Status",
                self.status as u64,
                status_name,
                FieldLoc::Bytes(ParseBytesNode { start_byte: start_byte + 6, len_in_bytes: 2 }),
                status_status,
            ),
        );
        proof {
            assert(views_of(out@) =~~= self.spec_fields(start_byte as int));
        }
        out
    }

    pub fn as_json(&self, start_byte: u8) -> (r: String)
        requires
            start_byte as int + self.spec_extent() <= 255,
        ensures
            r@ == spec_render_fields(self.spec_fields(start_byte as int), true),
    {
        render_fields(&self.fields(start_byte))
    }
}

impl SignalConfReq {
    pub open spec fn spec_fields(self, start: int) -> Seq<SpecField> {
        seq![
            spec_num_field(
                "Destination CID"@,
                self.dest_cid as int,
                ""@,
                SpecLoc::Bytes { start, len: 2 },
                DecodeStatus::Valid,
            ),
            spec_num_field(
                "Flags"@,
                self.flags as int,
                ""@,
                SpecLoc::Bytes { start: start + 2, len: 2 },
                DecodeStatus::Valid,
            ),
        ] + (match self.option {
            Some(o) => o.spec_fields(start + 4),
            None => Seq::empty(),
        })
    }

    pub open spec fn spec_extent(self) -> int {
        4 + (match self.option {
            Some(o) => o.spec_extent(),
            None => 0,
        })
    }

    pub fn fields(&self, start_byte: u8) -> (r: Vec<DecodeField>)
        requires
            start_byte as int + self.spec_extent() <= 255,
        ensures
            views_of(r@) == self.spec_fields(start_byte as int),
    {
        let mut out: Vec<DecodeField> = Vec::new();
        out.push(
            num_field(
                "Destination CID",
                self.dest_cid as u64,
                "",
                FieldLoc::Bytes(ParseBytesNode { start_byte, len_in_bytes: 2 }),
                DecodeStatus::Valid,
            ),
        );
        out.push(
            num_field(
                "Flags",
                self.flags as u64,
                "",
                FieldLoc::Bytes(ParseBytesNode { start_byte: start_byte + 2, len_in_bytes: 2 }),
                DecodeStatus::Valid,
            ),
        );
        match &self.option {
            Some(o) => {
                let mut inner = o.fields(start_byte + 4);
                out.append(&mut inner);
            },
            None => {},
        }
        proof {
            assert(views_of(out@) =~~= self.spec_fields(start_byte as int));
        }
        out
    }

    pub fn as_json(&self, start_byte: u8) -> (r: String)
        requires
            start_byte as int + self.spec_extent() <= 255,
        ensures
            r@ == spec_render_fields(self.spec_fields(start_byte as int), true),
    {
        render_fields(&self.fields(start_byte))
    }
}

impl SignalConfRsp {
    pub open spec fn spec_fields(self, start: int) -> Seq<SpecField> {
        seq![
            spec_num_field(
                "Source CID"@,
                self.source_cid as int,
                ""@,
                SpecLoc::Bytes { start, len: 2 },
                DecodeStatus::Valid,
            ),
            spec_num_field(
                "Flags"@,
                self.flags as int,
                ""@,
                SpecLoc::Bytes { start: start + 2, len: 2 },
                DecodeStatus::Valid,
            ),
            spec_num_field(
                "Result"@,
                self.result as int,
                spec_conf_result_name(self.result),
                SpecLoc::Bytes { start: start + 4, len: 2 },
                DecodeStatus::Valid,
            ),
        ] + (match self.option {
            Some(o) => o.spec_fields(start + 6),
            None => Seq::empty(),
        })
    }

    pub open spec fn spec_extent(self) -> int {
        6 + (match self.option {
            Some(o) => o.spec_extent(),
            None => 0,
        })
    }

    pub fn fields(&self, start_byte: u8) -> (r: Vec<DecodeField>)
        requires
            start_byte as int + self.spec_extent() <= 255,
        ensures
            views_of(r@) == self.spec_fields(start_byte as int),
    {
        let mut out: Vec<DecodeField> = Vec::new();
        out.push(
            num_field(
                "Source CID",
                self.source_cid as u64,
                "",
                FieldLoc::Bytes(ParseBytesNode { start_byte, len_in_bytes: 2 }),
                DecodeStatus::Valid,
            ),
        );
        out.push(
            num_field(
                "Flags",
                self.flags as u64,
                "",
                FieldLoc::Bytes(ParseBytesNode { start_byte: start_byte + 2, len_in_bytes: 2 }),
                DecodeStatus::Valid,
            ),
        );
        out.push(
            num_field(
                "Result",
                self.result as u64,
                conf_result_name(self.result),
                FieldLoc::Bytes(ParseBytesNode { start_byte: start_byte + 4, len_in_bytes: 2 }),
                DecodeStatus::Valid,
            ),
        );
        match &self.option {
            Some(o) => {
                let mut inner = o.fields(start_byte + 6);
                out.append(&mut inner);
            },
            None => {},
        }
        proof {
            assert(views_of(out@) =~~= self.spec_fields(start_byte as int));
        }
        out
    }

    pub fn as_json(&self, start_byte: u8) -> (r: String)
        requires
            start_byte as int + self.spec_extent() <= 255,
        ensures
            r@ == spec_render_fields(self.spec_fields(start_byte as int), true),
    {
        render_fields(&self.fields(start_byte))
    }
}

/// Information Request (signaling code 0x0A).
#[derive(Debug, PartialEq, Eq, Structural, Clone, Copy)]
pub struct SignalInfoReq {
    pub info_type: u16,
}

impl ParseNodeOptA<u8> for SignalInfoReq {
    open spec fn spec_new(data: Seq<u8>, id: u8) -> Option<SignalInfoReq> {
        if data.len() != 2 {
            None
        } else {
            Some(SignalInfoReq { info_type: spec_le16(data, 0) })
        }
    }

    open spec fn spec_fields(self, start: int) -> Seq<SpecField> {
        seq![
            spec_num_field(
                "Info Type"@,
                self.info_type as int,
                ""@,
                SpecLoc::Bytes { start, len: 2 },
                DecodeStatus::Valid,
            ),
        ]
    }

    open spec fn spec_extent(self) -> int {
        2
    }

    fn new(data: &[u8], id: u8) -> (r: Option<SignalInfoReq>) {
        if data.len() != 2 {
            return None;
        }
        Some(SignalInfoReq { info_type: le16_at(data, 0) })
    }

    fn fields(&self, start_byte: u8) -> (r: Vec<DecodeField>) {
        let mut out: Vec<DecodeField> = Vec::new();
        out.push(
            num_field(
                "Info Type",
                self.info_type as u64,
                "",
                FieldLoc::Bytes(ParseBytesNode { start_byte, len_in_bytes: 2 }),
                DecodeStatus::Valid,
            ),
        );
        proof {
            assert(views_of(out@) =~~= self.spec_fields(start_byte as int));
        }
        out
    }
}

/// The name of an L2CAP channel id in the routing table; empty when the
/// value is in no band the table knows.
pub open spec fn spec_cid_name(cid: u16) -> Seq<char> {
    if cid == 0x0000 {
        "Null"@
    } else if cid == 0x0001 {
        "Signaling Channel"@
    } else if cid == 0x0002 {
        "Connectionless Channel"@
    } else if cid == 0x0003 || cid == 0x003F {
        "Reserved"@
    } else if cid == 0x0007 {
        "BR/EDR Security Manager"@
    } else if cid >= 0x0040 {
        "Dynamically Allocated"@
    } else {
        ""@
    }
}

/// Looks a channel id up in the routing table.
pub fn cid_name_of(cid: u16) -> (r: &'static str)
    ensures
        r@ == spec_cid_name(cid),
{
    if cid == 0x0000 {
        "Null"
    } else if cid == 0x0001 {
        "Signaling Channel"
    } else if cid == 0x0002 {
        "Connectionless Channel"
    } else if cid == 0x0003 || cid == 0x003F {
        "Reserved"
    } else if cid == 0x0007 {
        "BR/EDR Security Manager"
    } else if cid >= 0x0040 {
        "Dynamically Allocated"
    } else {
        ""
    }
}

/// The name of a signaling command code; empty for codes outside the set.
pub open spec fn spec_sig_code_name(code: u8) -> Seq<char> {
    if code == 0x01 {
        "CommandRejectRsp"@
    } else if code == 0x02 {
        "ConnectionReq"@
    } else if code == 0x03 {
        "ConnectionRsp"@
    } else if code == 0x04 {
        "ConfigurationReq"@
    } else if code == 0x05 {
        "ConfigurationRsp"@
    } else if code == 0x06 {
        "DisconnectionReq"@
    } else if code == 0x07 {
        "DisconnectionRsp"@
    } else if code == 0x08 {
        "EchoReq"@
    } else if code == 0x09 {
        "EchoRsp"@
    } else if code == 0x0a {
        "InformationReq"@
    } else if code == 0x0b {
        "InformationRsp"@
    } else {
        ""@
    }
}

/// Looks a signaling code up in the command name table.
pub fn sig_code_name_of(code: u8) -> (r: &'static str)
    ensures
        r@ == spec_sig_code_name(code),
{
    match code {
        0x01 => "CommandRejectRsp",
        0x02 => "ConnectionReq",
        0x03 => "ConnectionRsp",
        0x04 => "ConfigurationReq",
        0x05 => "ConfigurationRsp",
        0x06 => "DisconnectionReq",
        0x07 => "DisconnectionRsp",
        0x08 => "EchoReq",
        0x09 => "EchoRsp",
        0x0a => "InformationReq",
        0x0b => "InformationRsp",
        _ => "",
    }
}

// ---------------------------------------------------------------------------
// PSM routing
// ---------------------------------------------------------------------------

/// The upper-layer protocol occupying a dynamically allocated channel,
/// selected by the PSM its Connection Request carried.  Only SDP's payload
/// is decoded further.
#[derive(Debug, PartialEq, Eq, Structural)]
pub enum PSM {
    Undefined,
    SDP(Option<SDP>),
    RFCOMM,
    TCSBin,
    TCSBinCordless,
    BNEP,
    HIDControl,
    HIDInterrupt,
    UPnP,
    AVCTP,
    AVDTP,
    AVCTPBrowsing,
    UDICPlane,
    ATT,
    ThreeDSP,
    LEPsmIpsp,
    OTS,
    EATT,
}

impl ParseNodeA<u16> for PSM {
    open spec fn spec_req(data: Seq<u8>, psm: u16) -> bool {
        true
    }

    open spec fn spec_new(data: Seq<u8>, psm: u16) -> PSM {
        if psm == 0x0001 {
            PSM::SDP(SDP::spec_new(data))
        } else if psm == 0x0003 {
            PSM::RFCOMM
        } else if psm == 0x0005 {
            PSM::TCSBin
        } else if psm == 0x0007 {
            PSM::TCSBinCordless
        } else if psm == 0x000F {
            PSM::BNEP
        } else if psm == 0x0011 {
            PSM::HIDControl
        } else if psm == 0x0013 {
            PSM::HIDInterrupt
        } else if psm == 0x0015 {
            PSM::UPnP
        } else if psm == 0x0017 {
            PSM::AVCTP
        } else if psm == 0x0019 {
            PSM::AVDTP
        } else if psm == 0x001B {
            PSM::AVCTPBrowsing
        } else if psm == 0x001D {
            PSM::UDICPlane
        } else if psm == 0x001F {
            PSM::ATT
        } else if psm == 0x0021 {
            PSM::ThreeDSP
        } else if psm == 0x0023 {
            PSM::LEPsmIpsp
        } else if psm == 0x0025 {
            PSM::OTS
        } else if psm == 0x0027 {
            PSM::EATT
        } else {
            PSM::Undefined
        }
    }

    open spec fn spec_fields(self, start: int) -> Seq<SpecField> {
        match self {
            PSM::SDP(Some(s)) => s.spec_fields(start),
            PSM::SDP(None) => seq![crate::spec_truncated_field(start)],
            _ => Seq::empty(),
        }
    }

    open spec fn spec_extent(self) -> int {
        match self {
            PSM::SDP(Some(s)) => s.spec_extent(),
            _ => 0,
        }
    }

    fn new(data: &[u8], psm: u16) -> (r: PSM) {
        match psm {
            0x0001 => PSM::SDP(<SDP as ParseNodeOpt>::new(data)),
            0x0003 => PSM::RFCOMM,
            0x0005 => PSM::TCSBin,
            0x0007 => PSM::TCSBinCordless,
            0x000F => PSM::BNEP,
            0x0011 => PSM::HIDControl,
            0x0013 => PSM::HIDInterrupt,
            0x0015 => PSM::UPnP,
            0x0017 => PSM::AVCTP,
            0x0019 => PSM::AVDTP,
            0x001B => PSM::AVCTPBrowsing,
            0x001D => PSM::UDICPlane,
            0x001F => PSM::ATT,
            0x0021 => PSM::ThreeDSP,
            0x0023 => PSM::LEPsmIpsp,
            0x0025 => PSM::OTS,
            0x0027 => PSM::EATT,
            _ => PSM::Undefined,
        }
    }

    fn fields(&self, start_byte: u8) -> (r: Vec<DecodeField>) {
        let r = match self {
            PSM::SDP(Some(s)) => s.fields(start_byte),
            PSM::SDP(None) => {
                let mut out: Vec<DecodeField> = Vec::new();
                out.push(crate::truncated_field(start_byte));
                out
            },
            _ => Vec::new(),
        };
        proof {
            assert(views_of(r@) =~~= self.spec_fields(start_byte as int));
        }
        r
    }
}

impl PSM {
    /// The name of the variant, as the channel table prints it.
    pub open spec fn spec_variant_name(self) -> Seq<char> {
        match self {
            PSM::SDP(_) => "SDP"@,
            PSM::RFCOMM => "RFCOMM"@,
            PSM::TCSBin => "TCS-BIN"@,
            PSM::TCSBinCordless => "TCS-BIN-CORDLESS"@,
            PSM::BNEP => "BNEP"@,
            PSM::HIDControl => "HID-Control"@,
            PSM::HIDInterrupt => "HID-Interrupt"@,
            PSM::UPnP => "UPnP"@,
            PSM::AVCTP => "AVCTP"@,
            PSM::AVDTP => "AVDTP"@,
            PSM::AVCTPBrowsing => "AVCTP-Browsing"@,
            PSM::UDICPlane => "UDIC-Plane"@,
            PSM::ATT => "ATT"@,
            PSM::ThreeDSP => "3DSP"@,
            PSM::LEPsmIpsp => "LE-PSM-IPSP"@,
            PSM::OTS => "OTS"@,
            PSM::EATT => "EATT"@,
            PSM::Undefined => "Undefined"@,
        }
    }

    pub fn get_psm_name(&self) -> (r: String)
        ensures
            r@ == self.spec_variant_name(),
    {
        let name = match self {
            PSM::SDP(_) => "SDP",
            PSM::RFCOMM => "RFCOMM",
            PSM::TCSBin => "TCS-BIN",
            PSM::TCSBinCordless => "TCS-BIN-CORDLESS",
            PSM::BNEP => "BNEP",
            PSM::HIDControl => "HID-Control",
            PSM::HIDInterrupt => "HID-Interrupt",
            PSM::UPnP => "UPnP",
            PSM::AVCTP => "AVCTP",
            PSM::AVDTP => "AVDTP",
            PSM::AVCTPBrowsing => "AVCTP-Browsing",
            PSM::UDICPlane => "UDIC-Plane",
            PSM::ATT => "ATT",
            PSM::ThreeDSP => "3DSP",
            PSM::LEPsmIpsp => "LE-PSM-IPSP",
            PSM::OTS => "OTS",
            PSM::EATT => "EATT",
            PSM::Undefined => "Undefined",
        };
        String::from_str(name)
    }

    /// The numeric PSM of the variant; meaningless for `Undefined`.
    pub open spec fn spec_variant_value(self) -> u16 {
        match self {
            PSM::SDP(_) => 0x0001,
            PSM::RFCOMM => 0x0003,
            PSM::TCSBin => 0x0005,
            PSM::TCSBinCordless => 0x0007,
            PSM::BNEP => 0x000F,
            PSM::HIDControl => 0x0011,
            PSM::HIDInterrupt => 0x0013,
            PSM::UPnP => 0x0015,
            PSM::AVCTP => 0x0017,
            PSM::AVDTP => 0x0019,
            PSM::AVCTPBrowsing => 0x001B,
            PSM::UDICPlane => 0x001D,
            PSM::ATT => 0x001F,
            PSM::ThreeDSP => 0x0021,
            PSM::LEPsmIpsp => 0x0023,
            PSM::OTS => 0x0025,
            PSM::EATT => 0x0027,
            PSM::Undefined => 0,
        }
    }

    pub fn get_psm_value(&self) -> (r: u16)
        requires
            !(self is Undefined),
        ensures
            r == self.spec_variant_value(),
    {
        match self {
            PSM::SDP(_) => 0x0001,
            PSM::RFCOMM => 0x0003,
            PSM::TCSBin => 0x0005,
            PSM::TCSBinCordless => 0x0007,
            PSM::BNEP => 0x000F,
            PSM::HIDControl => 0x0011,
            PSM::HIDInterrupt => 0x0013,
            PSM::UPnP => 0x0015,
            PSM::AVCTP => 0x0017,
            PSM::AVDTP => 0x0019,
            PSM::AVCTPBrowsing => 0x001B,
            PSM::UDICPlane => 0x001D,
            PSM::ATT => 0x001F,
            PSM::ThreeDSP => 0x0021,
            PSM::LEPsmIpsp => 0x0023,
            PSM::OTS => 0x0025,
            PSM::EATT => 0x0027,
            PSM::Undefined => 0,
        }
    }
}

// ---------------------------------------------------------------------------
// Signaling dispatch
// ---------------------------------------------------------------------------

/// The body of one signaling command, selected by the code byte at the
/// front of the signaling header.  Codes outside the table decode to
/// `Undefined`, consuming nothing further.
#[derive(Debug, PartialEq, Eq, Structural)]
pub enum L2CAPSigData {
    Undefined,
    CommandRejectRspCode,
    ConnectionReqCode(Option<SignalConnReq>),
    ConnectionRspCode(Option<SignalConnRsp>),
    ConfigurationReqCode(Option<SignalConfReq>),
    ConfigurationRspCode(Option<SignalConfRsp>),
    DisconnectionReqCode,
    DisconnectionRspCode,
    EchoReqCode,
    EchoRspCode,
    InformationReqCode(Option<SignalInfoReq>),
    InformationRspCode,
}

impl L2CAPSigData {
    /// The decoded command: `data` still holds the 4-byte signaling header,
    /// the command's own bytes follow it.
    pub open spec fn spec_new(data: Seq<u8>, id: u8) -> Option<L2CAPSigData> {
        if data.len() < 4 {
            None
        } else {
            let code = data[0];
            let rest = data.skip(4);
            if code == 0x01 {
                Some(L2CAPSigData::CommandRejectRspCode)
            } else if code == 0x02 {
                Some(L2CAPSigData::ConnectionReqCode(SignalConnReq::spec_new(rest)))
            } else if code == 0x03 {
                Some(L2CAPSigData::ConnectionRspCode(SignalConnRsp::spec_new(rest)))
            } else if code == 0x04 {
                Some(L2CAPSigData::ConfigurationReqCode(SignalConfReq::spec_new(rest)))
            } else if code == 0x05 {
                Some(L2CAPSigData::ConfigurationRspCode(SignalConfRsp::spec_new(rest)))
            } else if code == 0x06 {
                Some(L2CAPSigData::DisconnectionReqCode)
            } else if code == 0x07 {
                Some(L2CAPSigData::DisconnectionRspCode)
            } else if code == 0x08 {
                Some(L2CAPSigData::EchoReqCode)
            } else if code == 0x09 {
                Some(L2CAPSigData::EchoRspCode)
            } else if code == 0x0a {
                Some(L2CAPSigData::InformationReqCode(SignalInfoReq::spec_new(rest, id)))
            } else if code == 0x0b {
                Some(L2CAPSigData::InformationRspCode)
            } else {
                Some(L2CAPSigData::Undefined)
            }
        }
    }

    /// What observing this command does to the channel table: only the
    /// connection and configuration commands touch it.
    pub open spec fn spec_trans(chs: Seq<L2CAPChannel>, data: Seq<u8>, id: u8) -> Seq<
        L2CAPChannel,
    > {
        if data.len() < 4 {
            chs
        } else {
            let code = data[0];
            let rest = data.skip(4);
            if code == 0x02 {
                SignalConnReq::spec_trans(chs, rest, id)
            } else if code == 0x03 {
                SignalConnRsp::spec_trans(chs, rest, id)
            } else if code == 0x04 {
                SignalConfReq::spec_trans(chs, rest, id)
            } else if code == 0x05 {
                SignalConfRsp::spec_trans(chs, rest, id)
            } else {
                chs
            }
        }
    }

    /// Decodes the command and applies its channel-table transition.
    pub fn new(data: &[u8], stack: &mut HostStack, id: u8) -> (r: Option<L2CAPSigData>)
        ensures
            r == Self::spec_new(data@, id),
            final(stack).l2cap_arg.channels@ == Self::spec_trans(
                old(stack).l2cap_arg.channels@,
                data@,
                id,
            ),
            final(stack).sdp_arg == old(stack).sdp_arg,
    {
        if data.len() < 4 {
            return None;
        }
        let code = data[0];
        let rest = &data[4..data.len()];
        proof {
            assert(rest@ =~= data@.skip(4));
        }
        let sig = match code {
            0x01 => L2CAPSigData::CommandRejectRspCode,
            0x02 => L2CAPSigData::ConnectionReqCode(SignalConnReq::new(rest, stack, id)),
            0x03 => L2CAPSigData::ConnectionRspCode(SignalConnRsp::new(rest, stack, id)),
            0x04 => L2CAPSigData::ConfigurationReqCode(SignalConfReq::new(rest, stack, id)),
            0x05 => L2CAPSigData::ConfigurationRspCode(SignalConfRsp::new(rest, stack, id)),
            0x06 => L2CAPSigData::DisconnectionReqCode,
            0x07 => L2CAPSigData::DisconnectionRspCode,
            0x08 => L2CAPSigData::EchoReqCode,
            0x09 => L2CAPSigData::EchoRspCode,
            0x0a => L2CAPSigData::InformationReqCode(
                <SignalInfoReq as ParseNodeOptA<u8>>::new(rest, id),
            ),
            0x0b => L2CAPSigData::InformationRspCode,
            _ => L2CAPSigData::Undefined,
        };
        Some(sig)
    }

    /// The command's own annotations sit after the 4-byte signaling header.
    pub open spec fn spec_fields(self, start: int) -> Seq<SpecField> {
        match self {
            L2CAPSigData::ConnectionReqCode(Some(s)) => s.spec_fields(start + 4),
            L2CAPSigData::ConnectionRspCode(Some(s)) => s.spec_fields(start + 4),
            L2CAPSigData::ConfigurationReqCode(Some(s)) => s.spec_fields(start + 4),
            L2CAPSigData::ConfigurationRspCode(Some(s)) => s.spec_fields(start + 4),
            L2CAPSigData::InformationReqCode(Some(s)) => s.spec_fields(start + 4),
            L2CAPSigData::ConnectionReqCode(None) | L2CAPSigData::ConnectionRspCode(None)
                | L2CAPSigData::ConfigurationReqCode(None)
                | L2CAPSigData::ConfigurationRspCode(None)
                | L2CAPSigData::InformationReqCode(None) => seq![
                crate::spec_truncated_field(start + 4),
            ],
            _ => Seq::empty(),
        }
    }

    pub open spec fn spec_extent(self) -> int {
        4 + (match self {
            L2CAPSigData::ConnectionReqCode(Some(s)) => s.spec_extent(),
            L2CAPSigData::ConnectionRspCode(Some(s)) => s.spec_extent(),
            L2CAPSigData::ConfigurationReqCode(Some(s)) => s.spec_extent(),
            L2CAPSigData::ConfigurationRspCode(Some(s)) => s.spec_extent(),
            L2CAPSigData::InformationReqCode(Some(s)) => s.spec_extent(),
            _ => 0,
        })
    }

    pub fn fields(&self, start_byte: u8) -> (r: Vec<DecodeField>)
        requires
            start_byte as int + self.spec_extent() <= 255,
        ensures
            views_of(r@) == self.spec_fields(start_byte as int),
    {
        let r = match self {
            L2CAPSigData::ConnectionReqCode(Some(s)) => s.fields(start_byte + 4),
            L2CAPSigData::ConnectionRspCode(Some(s)) => s.fields(start_byte + 4),
            L2CAPSigData::ConfigurationReqCode(Some(s)) => s.fields(start_byte + 4),
            L2CAPSigData::ConfigurationRspCode(Some(s)) => s.fields(start_byte + 4),
            L2CAPSigData::InformationReqCode(Some(s)) => s.fields(start_byte + 4),
            L2CAPSigData::ConnectionReqCode(None) | L2CAPSigData::ConnectionRspCode(None)
                | L2CAPSigData::ConfigurationReqCode(None)
                | L2CAPSigData::ConfigurationRspCode(None)
                | L2CAPSigData::InformationReqCode(None) => {
                let mut out: Vec<DecodeField> = Vec::new();
                out.push(crate::truncated_field(start_byte + 4));
                out
            },
            _ => Vec::new(),
        };
        proof {
            assert(views_of(r@) =~~= self.spec_fields(start_byte as int));
        }
        r
    }

    pub fn as_json(&self, start_byte: u8) -> (r: String)
        requires
            start_byte as int + self.spec_extent() <= 255,
        ensures
            r@ == spec_render_fields(self.spec_fields(start_byte as int), true),
    {
        render_fields(&self.fields(start_byte))
    }
}

/// The 4-byte signaling header (code, identifier, length) and the command
/// it introduces.
#[derive(Debug, PartialEq, Eq, Structural)]
pub struct L2CAPSignaling {
    pub code: u8,
    pub identifier: u8,
    pub data_length: u16,
    pub data: Option<L2CAPSigData>,
}

impl L2CAPSignaling {
    pub open spec fn spec_new(data: Seq<u8>) -> Option<L2CAPSignaling> {
        if data.len() < 4 {
            None
        } else {
            Some(
                L2CAPSignaling {
                    code: data[0],
                    identifier: data[1],
                    data_length: spec_le16(data, 2),
                    data: L2CAPSigData::spec_new(data, data[1]),
                },
            )
        }
    }

    pub open spec fn spec_trans(chs: Seq<L2CAPChannel>, data: Seq<u8>) -> Seq<L2CAPChannel> {
        if data.len() < 4 {
            chs
        } else {
            L2CAPSigData::spec_trans(chs, data, data[1])
        }
    }

    /// Decodes the header and command, applying the command's
    /// channel-table transition.
    pub fn new(data: &[u8], stack: &mut HostStack) -> (r: Option<L2CAPSignaling>)
        ensures
            r == Self::spec_new(data@),
            final(stack).l2cap_arg.channels@ == Self::spec_trans(
                old(stack).l2cap_arg.channels@,
                data@,
            ),
            final(stack).sdp_arg == old(stack).sdp_arg,
    {
        if data.len() < 4 {
            return None;
        }
        let code = data[0];
        let identifier = data[1];
        let data_length = le16_at(data, 2);
        let sig = L2CAPSigData::new(data, stack, identifier);
        Some(L2CAPSignaling { code, identifier, data_length, data: sig })
    }

    pub open spec fn spec_fields(self, start: int) -> Seq<SpecField> {
        seq![
            spec_num_field(
                "Code"@,
                self.code as int,
                spec_sig_code_name(self.code),
                SpecLoc::Bytes { start, len: 1 },
                if spec_sig_code_name(self.code).len() == 0 {
                    DecodeStatus::Error
                } else {
                    DecodeStatus::Valid
                },
            ),
            spec_num_field(
                "Identifier"@,
                self.identifier as int,
                ""@,
                SpecLoc::Bytes { start: start + 1, len: 1 },
                DecodeStatus::Valid,
            ),
            spec_num_field(
                "Data Length"@,
                self.data_length as int,
                ""@,
                SpecLoc::Bytes { start: start + 2, len: 2 },
                DecodeStatus::Valid,
            ),
        ] + (match self.data {
            Some(d) => d.spec_fields(start),
            None => Seq::empty(),
        })
    }

    pub open spec fn spec_extent(self) -> int {
        match self.data {
            Some(d) => d.spec_extent(),
            None => 4,
        }
    }

    pub fn fields(&self, start_byte: u8) -> (r: Vec<DecodeField>)
        requires
            start_byte as int + self.spec_extent() <= 255,
        ensures
            views_of(r@) == self.spec_fields(start_byte as int),
    {
        let mut out: Vec<DecodeField> = Vec::new();
        let code_name = sig_code_name_of(self.code);
        let code_status = if code_name.unicode_len() == 0 {
            DecodeStatus::Error
        } else {
            DecodeStatus::Valid
        };
        out.push(
            num_field(
                "Code",
                self.code as u64,
                code_name,
                FieldLoc::Bytes(ParseBytesNode { start_byte, len_in_bytes: 1 }),
                code_status,
            ),
        );
        out.push(
            num_field(
                "Identifier",
                self.identifier as u64,
                "",
                FieldLoc::Bytes(ParseBytesNode { start_byte: start_byte + 1, len_in_bytes: 1 }),
                DecodeStatus::Valid,
            ),
        );
        out.push(
            num_field(
                "Data Length",
                self.data_length as u64,
                "",
                FieldLoc::Bytes(ParseBytesNode { start_byte: start_byte + 2, len_in_bytes: 2 }),
                DecodeStatus::Valid,
            ),
        );
        match &self.data {
            Some(d) => {
                let mut inner = d.fields(start_byte);
                out.append(&mut inner);
            },
            None => {},
        }
        proof {
            assert(views_of(out@) =~~= self.spec_fields(start_byte as int));
        }
        out
    }

    pub fn as_json(&self, start_byte: u8) -> (r: String)
        requires
            start_byte as int + self.spec_extent() <= 255,
        ensures
            r@ == spec_render_fields(self.spec_fields(start_byte as int), true),
    {
        render_fields(&self.fields(start_byte))
    }
}

// ---------------------------------------------------------------------------
// Channel routing
// ---------------------------------------------------------------------------

/// What occupies an L2CAP channel id: the signaling channel, a fixed
/// channel, or a dynamically allocated one resolved through the session's
/// channel table.
#[derive(Debug, PartialEq, Eq, Structural)]
pub enum Channel {
    Undefined,
    L2CAPSignalingChannel(Option<L2CAPSignaling>),
    ConnetionlessChannel,
    BrEdrSecurityManager,
    DynamicallyAllocated(PSM),
}

impl Channel {
    /// The payload decoded for channel `cid`, given the channel table as it
    /// stood when the packet arrived.
    pub open spec fn spec_new(data: Seq<u8>, chs: Seq<L2CAPChannel>, cid: u16) -> Channel {
        if cid == 1 {
            Channel::L2CAPSignalingChannel(L2CAPSignaling::spec_new(data))
        } else if cid == 2 {
            Channel::ConnetionlessChannel
        } else if cid == 7 {
            Channel::BrEdrSecurityManager
        } else if cid >= 0x40 {
            Channel::DynamicallyAllocated(PSM::spec_new(data, spec_lookup_psm(chs, cid)))
        } else {
            Channel::Undefined
        }
    }

    /// Only signaling traffic touches the channel table.
    pub open spec fn spec_trans(chs: Seq<L2CAPChannel>, data: Seq<u8>, cid: u16) -> Seq<
        L2CAPChannel,
    > {
        if cid == 1 {
            L2CAPSignaling::spec_trans(chs, data)
        } else {
            chs
        }
    }

    /// Routes the payload by channel id, consulting the session's channel
    /// table for dynamically allocated channels and mutating it for
    /// signaling.
    pub fn new(data: &[u8], stack: &mut HostStack, cid: u16) -> (r: Channel)
        ensures
            r == Self::spec_new(data@, old(stack).l2cap_arg.channels@, cid),
            final(stack).l2cap_arg.channels@ == Self::spec_trans(
                old(stack).l2cap_arg.channels@,
                data@,
                cid,
            ),
            final(stack).sdp_arg == old(stack).sdp_arg,
    {
        if cid == 1 {
            Channel::L2CAPSignalingChannel(L2CAPSignaling::new(data, stack))
        } else if cid == 2 {
            Channel::ConnetionlessChannel
        } else if cid == 7 {
            Channel::BrEdrSecurityManager
        } else if cid >= 0x40 {
            let ghost chs0 = stack.l2cap_arg.channels@;
            let n = stack.l2cap_arg.channels.len();
            let mut psm: u16 = 0;
            let mut i: usize = 0;
            while i < n
                invariant
                    n == chs0.len(),
                    stack.l2cap_arg.channels@ == chs0,
                    stack.sdp_arg == old(stack).sdp_arg,
                    0 <= i <= n,
                    psm == spec_lookup_psm(chs0.take(i as int), cid),
                decreases n - i,
            {
                let c = stack.l2cap_arg.channels[i];
                let dest_matches = match c.dest_cid {
                    Some(d) => d == cid,
                    None => false,
                };
                if dest_matches {
                    psm = c.psm;
                }
                i = i + 1;
                proof {
                    assert(chs0.take(i as int).drop_last() =~= chs0.take(i as int - 1));
                    assert(chs0.take(i as int).last() == chs0[i as int - 1]);
                }
            }
            proof {
                assert(chs0.take(n as int) =~= chs0);
            }
            Channel::DynamicallyAllocated(<PSM as ParseNodeA<u16>>::new(data, psm))
        } else {
            Channel::Undefined
        }
    }

    pub open spec fn spec_fields(self, start: int) -> Seq<SpecField> {
        match self {
            Channel::L2CAPSignalingChannel(Some(s)) => s.spec_fields(start),
            Channel::L2CAPSignalingChannel(None) => seq![crate::spec_truncated_field(start)],
            Channel::DynamicallyAllocated(p) => p.spec_fields(start),
            _ => Seq::empty(),
        }
    }

    pub open spec fn spec_extent(self) -> int {
        match self {
            Channel::L2CAPSignalingChannel(Some(s)) => s.spec_extent(),
            Channel::DynamicallyAllocated(p) => p.spec_extent(),
            _ => 0,
        }
    }

    pub fn fields(&self, start_byte: u8) -> (r: Vec<DecodeField>)
        requires
            start_byte as int + self.spec_extent() <= 255,
        ensures
            views_of(r@) == self.spec_fields(start_byte as int),
    {
        let r = match self {
            Channel::L2CAPSignalingChannel(Some(s)) => s.fields(start_byte),
            Channel::L2CAPSignalingChannel(None) => {
                let mut out: Vec<DecodeField> = Vec::new();
                out.push(crate::truncated_field(start_byte));
                out
            },
            Channel::DynamicallyAllocated(p) => p.fields(start_byte),
            _ => Vec::new(),
        };
        proof {
            assert(views_of(r@) =~~= self.spec_fields(start_byte as int));
        }
        r
    }

    pub fn as_json(&self, start_byte: u8) -> (r: String)
        requires
            start_byte as int + self.spec_extent() <= 255,
        ensures
            r@ == spec_render_fields(self.spec_fields(start_byte as int), true),
    {
        render_fields(&self.fields(start_byte))
    }
}

/// An L2CAP basic-mode PDU: 2-byte length, 2-byte channel id, payload.
#[derive(Debug, PartialEq, Eq, Structural)]
pub struct L2CAPB {
    pub pdu_len: u16,
    pub cid: u16,
    pub payload: Channel,
}

impl L2CAPB {
    pub open spec fn spec_new(data: Seq<u8>, chs: Seq<L2CAPChannel>) -> Option<L2CAPB> {
        if data.len() < 4 {
            None
        } else {
            Some(
                L2CAPB {
                    pdu_len: spec_le16(data, 0),
                    cid: spec_le16(data, 2),
                    payload: Channel::spec_new(data.skip(4), chs, spec_le16(data, 2)),
                },
            )
        }
    }

    pub open spec fn spec_trans(chs: Seq<L2CAPChannel>, data: Seq<u8>) -> Seq<L2CAPChannel> {
        if data.len() < 4 {
            chs
        } else {
            Channel::spec_trans(chs, data.skip(4), spec_le16(data, 2))
        }
    }

    /// Strips the L2CAP header and routes the remainder by channel id.
    pub fn new(data: &[u8], stack: &mut HostStack) -> (r: Option<L2CAPB>)
        ensures
            r == Self::spec_new(data@, old(stack).l2cap_arg.channels@),
            final(stack).l2cap_arg.channels@ == Self::spec_trans(
                old(stack).l2cap_arg.channels@,
                data@,
            ),
            final(stack).sdp_arg == old(stack).sdp_arg,
    {
        if data.len() < 4 {
            return None;
        }
        let pdu_len = le16_at(data, 0);
        let cid = le16_at(data, 2);
        let rest = &data[4..data.len()];
        proof {
            assert(rest@ =~= data@.skip(4));
        }
        let payload = Channel::new(rest, stack, cid);
        Some(L2CAPB { pdu_len, cid, payload })
    }

    pub open spec fn spec_fields(self, start: int) -> Seq<SpecField> {
        seq![
            spec_num_field(
                "PDU Length"@,
                self.pdu_len as int,
                ""@,
                SpecLoc::Bytes { start, len: 2 },
                DecodeStatus::Valid,
            ),
            spec_num_field(
                "Channel ID"@,
                self.cid as int,
                spec_cid_name(self.cid),
                SpecLoc::Bytes { start: start + 2, len: 2 },
                if spec_cid_name(self.cid).len() == 0 {
                    DecodeStatus::Error
                } else {
                    DecodeStatus::Valid
                },
            ),
        ] + self.payload.spec_fields(start + 4)
    }

    pub open spec fn spec_extent(self) -> int {
        4 + self.payload.spec_extent()
    }

    pub fn fields(&self, start_byte: u8) -> (r: Vec<DecodeField>)
        requires
            start_byte as int + self.spec_extent() <= 255,
        ensures
            views_of(r@) == self.spec_fields(start_byte as int),
    {
        let mut out: Vec<DecodeField> = Vec::new();
        out.push(
            num_field(
                "PDU Length",
                self.pdu_len as u64,
                "",
                FieldLoc::Bytes(ParseBytesNode { start_byte, len_in_bytes: 2 }),
                DecodeStatus::Valid,
            ),
        );
        let cid_name = cid_name_of(self.cid);
        let cid_status = if cid_name.unicode_len() == 0 {
            DecodeStatus::Error
        } else {
            DecodeStatus::Valid
        };
        out.push(
            num_field(
                "Channel ID",
                self.cid as u64,
                cid_name,
                FieldLoc::Bytes(ParseBytesNode { start_byte: start_byte + 2, len_in_bytes: 2 }),
                cid_status,
            ),
        );
        let mut inner = self.payload.fields(start_byte + 4);
        out.append(&mut inner);
        proof {
            assert(views_of(out@) =~~= self.spec_fields(start_byte as int));
        }
        out
    }

    pub fn as_json(&self, start_byte: u8) -> (r: String)
        requires
            start_byte as int + self.spec_extent() <= 255,
        ensures
            r@ == spec_render_fields(self.spec_fields(start_byte as int), true),
    {
        render_fields(&self.fields(start_byte))
    }
}

/// The L2CAP layer as seen from ACL: basic mode only.
#[derive(Debug, PartialEq, Eq, Structural)]
pub enum L2CAP {
    L2CAPB(Option<L2CAPB>),
}

impl L2CAP {
    pub open spec fn spec_new(data: Seq<u8>, chs: Seq<L2CAPChannel>) -> Option<L2CAP> {
        Some(L2CAP::L2CAPB(L2CAPB::spec_new(data, chs)))
    }

    pub open spec fn spec_trans(chs: Seq<L2CAPChannel>, data: Seq<u8>) -> Seq<L2CAPChannel> {
        L2CAPB::spec_trans(chs, data)
    }

    /// Decodes an L2CAP PDU against the session.
    pub fn new(data: &[u8], stack: &mut HostStack) -> (r: Option<L2CAP>)
        ensures
            r == Self::spec_new(data@, old(stack).l2cap_arg.channels@),
            final(stack).l2cap_arg.channels@ == Self::spec_trans(
                old(stack).l2cap_arg.channels@,
                data@,
            ),
            final(stack).sdp_arg == old(stack).sdp_arg,
    {
        Some(L2CAP::L2CAPB(L2CAPB::new(data, stack)))
    }

    pub open spec fn spec_fields(self, start: int) -> Seq<SpecField> {
        match self {
            L2CAP::L2CAPB(Some(b)) => b.spec_fields(start),
            L2CAP::L2CAPB(None) => seq![crate::spec_truncated_field(start)],
        }
    }

    pub open spec fn spec_extent(self) -> int {
        match self {
            L2CAP::L2CAPB(Some(b)) => b.spec_extent(),
            L2CAP::L2CAPB(None) => 0,
        }
    }

    pub fn fields(&self, start_byte: u8) -> (r: Vec<DecodeField>)
        requires
            start_byte as int + self.spec_extent() <= 255,
        ensures
            views_of(r@) == self.spec_fields(start_byte as int),
    {
        let r = match self {
            L2CAP::L2CAPB(Some(b)) => b.fields(start_byte),
            L2CAP::L2CAPB(None) => {
                let mut out: Vec<DecodeField> = Vec::new();
                out.push(crate::truncated_field(start_byte));
                out
            },
        };
        proof {
            assert(views_of(r@) =~~= self.spec_fields(start_byte as int));
        }
        r
    }

    pub fn as_json(&self, start_byte: u8) -> (r: String)
        requires
            start_byte as int + self.spec_extent() <= 255,
        ensures
            r@ == spec_render_fields(self.spec_fields(start_byte as int), true),
    {
        render_fields(&self.fields(start_byte))
    }
}

// ---------------------------------------------------------------------------
// Laws of the channel state machine
// ---------------------------------------------------------------------------

/// A Connection Request leaves a record keyed by its source CID in the
/// table, whether or not one was already there.
pub proof fn lemma_conn_req_creates_record(
    chs: Seq<L2CAPChannel>,
    id: u8,
    psm: u16,
    source_cid: u16,
)
    ensures
        spec_has_source(spec_conn_req_trans(chs, id, psm, source_cid), source_cid),
{
    if !spec_has_source(chs, source_cid) {
        let pushed = spec_conn_req_trans(chs, id, psm, source_cid);
        assert(pushed[chs.len() as int].source_cid == source_cid);
    }
}

/// On the first sight of a source CID, the Connection Request records the
/// requested PSM with it, and no other record changes.
pub proof fn lemma_conn_req_records_psm(
    chs: Seq<L2CAPChannel>,
    id: u8,
    psm: u16,
    source_cid: u16,
)
    requires
        !spec_has_source(chs, source_cid),
    ensures
        spec_conn_req_trans(chs, id, psm, source_cid).len() == chs.len() + 1,
        spec_conn_req_trans(chs, id, psm, source_cid).last() == spec_new_channel(
            id,
            psm,
            source_cid,
        ),
        forall|i: int|
            0 <= i < chs.len() ==> spec_conn_req_trans(chs, id, psm, source_cid)[i] == chs[i],
{
}

/// No signaling command removes a record or changes which source CIDs the
/// table knows: every transition maps record `i` to a record with the same
/// `source_cid`, `psm` and `dest_cid` unless that very command set them.
/// In particular a record keyed by a source CID survives any packet that
/// arrives between the request and its response.
pub proof fn lemma_trans_preserves_sources(chs: Seq<L2CAPChannel>, data: Seq<u8>, id: u8, s: u16)
    requires
        spec_has_source(chs, s),
    ensures
        spec_has_source(L2CAPSigData::spec_trans(chs, data, id), s),
{
    let chs2 = L2CAPSigData::spec_trans(chs, data, id);
    let i = choose|i: int| 0 <= i < chs.len() && chs[i].source_cid == s;
    assert(chs2[i].source_cid == s);
    assert(spec_has_source(chs2, s));
}

/// A Connection Response marks every record keyed by its source CID with
/// the destination CID it carries, and touches nothing else.
pub proof fn lemma_conn_rsp_sets_dest(
    chs: Seq<L2CAPChannel>,
    id: u8,
    dest_cid: u16,
    source_cid: u16,
)
    ensures
        spec_conn_rsp_trans(chs, id, dest_cid, source_cid).len() == chs.len(),
        forall|i: int|
            0 <= i < chs.len() && chs[i].source_cid == source_cid
                ==> spec_conn_rsp_trans(chs, id, dest_cid, source_cid)[i].dest_cid == Some(
                dest_cid,
            ) && spec_conn_rsp_trans(chs, id, dest_cid, source_cid)[i].psm == chs[i].psm
                && spec_conn_rsp_trans(chs, id, dest_cid, source_cid)[i].source_cid == source_cid,
        forall|i: int|
            0 <= i < chs.len() && chs[i].source_cid != source_cid ==> spec_conn_rsp_trans(
                chs,
                id,
                dest_cid,
                source_cid,
            )[i] == chs[i],
{
}

/// A Configuration Request carrying an MTU option sets `local_mtu` on every
/// record whose `dest_cid` matches its destination-CID field, `remote_mtu`
/// on every record whose `source_cid` matches it instead, and touches
/// nothing else; without an MTU option it changes nothing.
pub proof fn lemma_conf_req_sets_mtu(
    chs: Seq<L2CAPChannel>,
    id: u8,
    dest_cid_field: u16,
    m: u16,
)
    ensures
        spec_conf_req_trans(chs, id, dest_cid_field, Some(m)).len() == chs.len(),
        forall|i: int|
            0 <= i < chs.len() && chs[i].dest_cid == Some(dest_cid_field) ==> spec_conf_req_trans(
                chs,
                id,
                dest_cid_field,
                Some(m),
            )[i].local_mtu == Some(m),
        forall|i: int|
            0 <= i < chs.len() && chs[i].dest_cid != Some(dest_cid_field) && chs[i].source_cid
                == dest_cid_field ==> spec_conf_req_trans(
                chs,
                id,
                dest_cid_field,
                Some(m),
            )[i].remote_mtu == Some(m),
        forall|i: int|
            0 <= i < chs.len() && chs[i].dest_cid != Some(dest_cid_field) && chs[i].source_cid
                != dest_cid_field ==> spec_conf_req_trans(chs, id, dest_cid_field, Some(m))[i]
                == chs[i],
        spec_conf_req_trans(chs, id, dest_cid_field, None) == chs,
{
}

/// A Configuration Response carrying an MTU option sets `remote_mtu` on
/// every record whose `dest_cid` matches its source-CID field and touches
/// nothing else; without an MTU option it changes nothing.
pub proof fn lemma_conf_rsp_sets_mtu(
    chs: Seq<L2CAPChannel>,
    id: u8,
    source_cid_field: u16,
    m: u16,
)
    ensures
        spec_conf_rsp_trans(chs, id, source_cid_field, Some(m)).len() == chs.len(),
        forall|i: int|
            0 <= i < chs.len() && chs[i].dest_cid == Some(source_cid_field) ==> spec_conf_rsp_trans(
                chs,
                id,
                source_cid_field,
                Some(m),
            )[i].remote_mtu == Some(m),
        forall|i: int|
            0 <= i < chs.len() && chs[i].dest_cid != Some(source_cid_field) ==> spec_conf_rsp_trans(
                chs,
                id,
                source_cid_field,
                Some(m),
            )[i] == chs[i],
        spec_conf_rsp_trans(chs, id, source_cid_field, None) == chs,
{
}

/// Signaling codes other than the connection and configuration commands --
/// echo, disconnection, information exchanges, rejects, and unknown codes
/// -- leave every channel record exactly as it was.
pub proof fn lemma_non_configuring_signal_is_noop(chs: Seq<L2CAPChannel>, data: Seq<u8>, id: u8)
    requires
        data.len() < 4 || !(data[0] == 0x02 || data[0] == 0x03 || data[0] == 0x04 || data[0]
            == 0x05),
    ensures
        L2CAPSigData::spec_trans(chs, data, id) == chs,
{
}

/// Traffic on any channel but the signaling channel leaves the table
/// untouched.
pub proof fn lemma_non_signaling_channel_is_noop(chs: Seq<L2CAPChannel>, data: Seq<u8>, cid: u16)
    requires
        cid != 1,
    ensures
        Channel::spec_trans(chs, data, cid) == chs,
{
}

// ---------------------------------------------------------------------------
// Extent bounds
// ---------------------------------------------------------------------------
// Every annotation list spans a fixed-depth prefix of the buffer, so each
// layer's extent is bounded by a small constant.  The bounds let a caller
// render any decoded packet from a cursor up to 200 without overflowing the
// one-byte location fields.

impl ConfigOption {
    pub proof fn lemma_extent_bounded(self)
        ensures
            0 <= self.spec_extent() <= 6,
    {
    }
}

impl SignalConfReq {
    pub proof fn lemma_extent_bounded(self)
        ensures
            0 <= self.spec_extent() <= 10,
    {
        match self.option {
            Some(o) => o.lemma_extent_bounded(),
            None => {},
        }
    }
}

impl SignalConfRsp {
    pub proof fn lemma_extent_bounded(self)
        ensures
            0 <= self.spec_extent() <= 12,
    {
        match self.option {
            Some(o) => o.lemma_extent_bounded(),
            None => {},
        }
    }
}

impl L2CAPSigData {
    pub proof fn lemma_extent_bounded(self)
        ensures
            4 <= self.spec_extent() <= 16,
    {
        match self {
            L2CAPSigData::ConfigurationReqCode(Some(s)) => s.lemma_extent_bounded(),
            L2CAPSigData::ConfigurationRspCode(Some(s)) => s.lemma_extent_bounded(),
            _ => {},
        }
    }
}

impl L2CAPSignaling {
    pub proof fn lemma_extent_bounded(self)
        ensures
            0 <= self.spec_extent() <= 16,
    {
        match self.data {
            Some(d) => d.lemma_extent_bounded(),
            None => {},
        }
    }
}

impl PSM {
    pub proof fn lemma_extent_bounded(self)
        ensures
            0 <= self.spec_extent() <= 5,
    {
    }
}

impl Channel {
    pub proof fn lemma_extent_bounded(self)
        ensures
            0 <= self.spec_extent() <= 16,
    {
        match self {
            Channel::L2CAPSignalingChannel(Some(s)) => s.lemma_extent_bounded(),
            Channel::DynamicallyAllocated(p) => p.lemma_extent_bounded(),
            _ => {},
        }
    }
}

impl L2CAPB {
    pub proof fn lemma_extent_bounded(self)
        ensures
            0 <= self.spec_extent() <= 20,
    {
        self.payload.lemma_extent_bounded();
    }
}

impl L2CAP {
    pub proof fn lemma_extent_bounded(self)
        ensures
            0 <= self.spec_extent() <= 20,
    {
        match self {
            L2CAP::L2CAPB(Some(b)) => b.lemma_extent_bounded(),
            L2CAP::L2CAPB(None) => {},
        }
    }
}

// ---------------------------------------------------------------------------
// Location integrity
// ---------------------------------------------------------------------------
// Each layer's annotations stay inside the bytes the layer consumed: within
// `[start, start + extent]` relative to its cursor, with the extent never
// exceeding the input the layer was handed.  Composed over the dispatch
// chain this pins every emitted location inside the original buffer.

use crate::lemma_fields_within_widen;
use crate::spec_fields_within;
use crate::spec_loc_within;

impl ConfigOptionMTU {
    pub proof fn lemma_fields_in_extent(self, start: int)
        ensures
            spec_fields_within(self.spec_fields(start), start, start + self.spec_extent()),
    {
    }
}

impl ConfigOptionData {
    pub proof fn lemma_fields_in_extent(self, start: int)
        ensures
            spec_fields_within(self.spec_fields(start), start, start + self.spec_extent()),
    {
        match self {
            ConfigOptionData::MTU(m) => m.lemma_fields_in_extent(start),
            _ => {},
        }
    }

    /// Whatever body was decoded fits after the 2-byte option header.
    pub proof fn lemma_extent_le_input(data: Seq<u8>)
        ensures
            Self::spec_new(data) matches Some(c) ==> c.spec_extent() + 2 <= data.len(),
    {
    }
}

impl ConfigOption {
    pub proof fn lemma_fields_in_extent(self, start: int)
        ensures
            spec_fields_within(self.spec_fields(start), start, start + self.spec_extent()),
    {
        let fs = self.spec_fields(start);
        let hi = start + self.spec_extent();
        match self.data {
            Some(d) => {
                d.lemma_extent_bounded();
                d.lemma_fields_in_extent(start + 2);
                lemma_fields_within_widen(
                    d.spec_fields(start + 2),
                    start + 2,
                    start + 2 + d.spec_extent(),
                    start,
                    hi,
                );
            },
            None => {},
        }
        assert forall|i: int| 0 <= i < fs.len() implies spec_loc_within(
            #[trigger] fs[i].loc,
            start,
            hi,
        ) by {
            match self.data {
                Some(d) => {
                    if 3 <= i < 3 + d.spec_fields(start + 2).len() {
                        assert(fs[i] == d.spec_fields(start + 2)[i - 3]);
                        assert(spec_loc_within(d.spec_fields(start + 2)[i - 3].loc, start, hi));
                    }
                },
                None => {},
            }
        }
    }

    pub proof fn lemma_extent_le_input(data: Seq<u8>)
        ensures
            Self::spec_new(data) matches Some(o) ==> o.spec_extent() <= data.len(),
    {
        ConfigOptionData::lemma_extent_le_input(data);
    }
}

impl ConfigOptionData {
    pub proof fn lemma_extent_bounded(self)
        ensures
            0 <= self.spec_extent() <= 2,
    {
    }
}

impl SignalConnReq {
    pub proof fn lemma_fields_in_extent(self, start: int)
        ensures
            spec_fields_within(self.spec_fields(start), start, start + self.spec_extent()),
    {
    }

    pub proof fn lemma_extent_le_input(data: Seq<u8>)
        ensures
            Self::spec_new(data) matches Some(s) ==> s.spec_extent() <= data.len(),
    {
    }
}

impl SignalConnRsp {
    pub proof fn lemma_fields_in_extent(self, start: int)
        ensures
            spec_fields_within(self.spec_fields(start), start, start + self.spec_extent()),
    {
    }

    pub proof fn lemma_extent_le_input(data: Seq<u8>)
        ensures
            Self::spec_new(data) matches Some(s) ==> s.spec_extent() <= data.len(),
    {
    }
}

impl SignalConfReq {
    pub proof fn lemma_fields_in_extent(self, start: int)
        ensures
            spec_fields_within(self.spec_fields(start), start, start + self.spec_extent()),
    {
        let fs = self.spec_fields(start);
        let hi = start + self.spec_extent();
        match self.option {
            Some(o) => {
                o.lemma_extent_bounded();
                o.lemma_fields_in_extent(start + 4);
                lemma_fields_within_widen(
                    o.spec_fields(start + 4),
                    start + 4,
                    start + 4 + o.spec_extent(),
                    start,
                    hi,
                );
            },
            None => {},
        }
        assert forall|i: int| 0 <= i < fs.len() implies spec_loc_within(
            #[trigger] fs[i].loc,
            start,
            hi,
        ) by {
            match self.option {
                Some(o) => {
                    if 2 <= i < 2 + o.spec_fields(start + 4).len() {
                        assert(fs[i] == o.spec_fields(start + 4)[i - 2]);
                        assert(spec_loc_within(o.spec_fields(start + 4)[i - 2].loc, start, hi));
                    }
                },
                None => {},
            }
        }
    }

    pub proof fn lemma_extent_le_input(data: Seq<u8>)
        ensures
            Self::spec_new(data) matches Some(s) ==> s.spec_extent() <= data.len(),
    {
        ConfigOption::lemma_extent_le_input(data.skip(4));
    }
}

impl SignalConfRsp {
    pub proof fn lemma_fields_in_extent(self, start: int)
        ensures
            spec_fields_within(self.spec_fields(start), start, start + self.spec_extent()),
    {
        let fs = self.spec_fields(start);
        let hi = start + self.spec_extent();
        match self.option {
            Some(o) => {
                o.lemma_extent_bounded();
                o.lemma_fields_in_extent(start + 6);
                lemma_fields_within_widen(
                    o.spec_fields(start + 6),
                    start + 6,
                    start + 6 + o.spec_extent(),
                    start,
                    hi,
                );
            },
            None => {},
        }
        assert forall|i: int| 0 <= i < fs.len() implies spec_loc_within(
            #[trigger] fs[i].loc,
            start,
            hi,
        ) by {
            match self.option {
                Some(o) => {
                    if 3 <= i < 3 + o.spec_fields(start + 6).len() {
                        assert(fs[i] == o.spec_fields(start + 6)[i - 3]);
                        assert(spec_loc_within(o.spec_fields(start + 6)[i - 3].loc, start, hi));
                    }
                },
                None => {},
            }
        }
    }

    pub proof fn lemma_extent_le_input(data: Seq<u8>)
        ensures
            Self::spec_new(data) matches Some(s) ==> s.spec_extent() <= data.len(),
    {
        ConfigOption::lemma_extent_le_input(data.skip(6));
    }
}

impl SignalInfoReq {
    pub proof fn lemma_fields_in_extent(self, start: int)
        ensures
            spec_fields_within(self.spec_fields(start), start, start + self.spec_extent()),
    {
    }
}

impl L2CAPSigData {
    pub proof fn lemma_fields_in_extent(self, start: int)
        ensures
            spec_fields_within(self.spec_fields(start), start, start + self.spec_extent()),
    {
        match self {
            L2CAPSigData::ConnectionReqCode(Some(s)) => {
                s.lemma_fields_in_extent(start + 4);
                lemma_fields_within_widen(
                    s.spec_fields(start + 4),
                    start + 4,
                    start + 4 + s.spec_extent(),
                    start,
                    start + self.spec_extent(),
                );
            },
            L2CAPSigData::ConnectionRspCode(Some(s)) => {
                s.lemma_fields_in_extent(start + 4);
                lemma_fields_within_widen(
                    s.spec_fields(start + 4),
                    start + 4,
                    start + 4 + s.spec_extent(),
                    start,
                    start + self.spec_extent(),
                );
            },
            L2CAPSigData::ConfigurationReqCode(Some(s)) => {
                s.lemma_fields_in_extent(start + 4);
                lemma_fields_within_widen(
                    s.spec_fields(start + 4),
                    start + 4,
                    start + 4 + s.spec_extent(),
                    start,
                    start + self.spec_extent(),
                );
            },
            L2CAPSigData::ConfigurationRspCode(Some(s)) => {
                s.lemma_fields_in_extent(start + 4);
                lemma_fields_within_widen(
                    s.spec_fields(start + 4),
                    start + 4,
                    start + 4 + s.spec_extent(),
                    start,
                    start + self.spec_extent(),
                );
            },
            L2CAPSigData::InformationReqCode(Some(s)) => {
                s.lemma_fields_in_extent(start + 4);
                lemma_fields_within_widen(
                    s.spec_fields(start + 4),
                    start + 4,
                    start + 4 + s.spec_extent(),
                    start,
                    start + self.spec_extent(),
                );
            },
            _ => {},
        }
    }

    pub proof fn lemma_extent_le_input(data: Seq<u8>, id: u8)
        ensures
            Self::spec_new(data, id) matches Some(c) ==> c.spec_extent() <= data.len(),
    {
        SignalConnReq::lemma_extent_le_input(data.skip(4));
        SignalConnRsp::lemma_extent_le_input(data.skip(4));
        SignalConfReq::lemma_extent_le_input(data.skip(4));
        SignalConfRsp::lemma_extent_le_input(data.skip(4));
    }
}

impl L2CAPSignaling {
    pub proof fn lemma_fields_in_extent(self, start: int)
        ensures
            spec_fields_within(self.spec_fields(start), start, start + self.spec_extent()),
    {
        match self.data {
            Some(d) => {
                d.lemma_extent_bounded();
                d.lemma_fields_in_extent(start);
            },
            None => {},
        }
        let fs = self.spec_fields(start);
        let hi = start + self.spec_extent();
        assert forall|i: int| 0 <= i < fs.len() implies spec_loc_within(
            #[trigger] fs[i].loc,
            start,
            hi,
        ) by {
            match self.data {
                Some(d) => {
                    if 3 <= i < 3 + d.spec_fields(start).len() {
                        assert(fs[i] == d.spec_fields(start)[i - 3]);
                        assert(spec_loc_within(d.spec_fields(start)[i - 3].loc, start, hi));
                    }
                },
                None => {},
            }
        }
    }

    pub proof fn lemma_extent_le_input(data: Seq<u8>)
        ensures
            Self::spec_new(data) matches Some(s) ==> s.spec_extent() <= data.len(),
    {
        if data.len() >= 4 {
            SignalConnReq::lemma_extent_le_input(data.skip(4));
            SignalConnRsp::lemma_extent_le_input(data.skip(4));
            SignalConfReq::lemma_extent_le_input(data.skip(4));
            SignalConfRsp::lemma_extent_le_input(data.skip(4));
        }
    }
}

impl PSM {
    pub proof fn lemma_fields_in_extent(self, start: int)
        ensures
            spec_fields_within(self.spec_fields(start), start, start + self.spec_extent()),
    {
        match self {
            PSM::SDP(Some(s)) => s.lemma_fields_in_extent(start),
            _ => {},
        }
    }

    pub proof fn lemma_extent_le_input(data: Seq<u8>, psm: u16)
        ensures
            Self::spec_new(data, psm).spec_extent() <= data.len(),
    {
        SDP::lemma_extent_le_input(data);
    }
}

impl Channel {
    pub proof fn lemma_fields_in_extent(self, start: int)
        ensures
            spec_fields_within(self.spec_fields(start), start, start + self.spec_extent()),
    {
        match self {
            Channel::L2CAPSignalingChannel(Some(s)) => s.lemma_fields_in_extent(start),
            Channel::DynamicallyAllocated(p) => p.lemma_fields_in_extent(start),
            _ => {},
        }
    }

    pub proof fn lemma_extent_le_input(data: Seq<u8>, chs: Seq<L2CAPChannel>, cid: u16)
        ensures
            Self::spec_new(data, chs, cid).spec_extent() <= data.len(),
    {
        L2CAPSignaling::lemma_extent_le_input(data);
        PSM::lemma_extent_le_input(data, spec_lookup_psm(chs, cid));
    }
}

impl L2CAPB {
    pub proof fn lemma_fields_in_extent(self, start: int)
        ensures
            spec_fields_within(self.spec_fields(start), start, start + self.spec_extent()),
    {
        self.payload.lemma_extent_bounded();
        self.payload.lemma_fields_in_extent(start + 4);
        let fs = self.spec_fields(start);
        let hi = start + self.spec_extent();
        lemma_fields_within_widen(
            self.payload.spec_fields(start + 4),
            start + 4,
            start + 4 + self.payload.spec_extent(),
            start,
            hi,
        );
        assert forall|i: int| 0 <= i < fs.len() implies spec_loc_within(
            #[trigger] fs[i].loc,
            start,
            hi,
        ) by {
            if 2 <= i < 2 + self.payload.spec_fields(start + 4).len() {
                assert(fs[i] == self.payload.spec_fields(start + 4)[i - 2]);
                assert(spec_loc_within(self.payload.spec_fields(start + 4)[i - 2].loc, start, hi));
            }
        }
    }

    pub proof fn lemma_extent_le_input(data: Seq<u8>, chs: Seq<L2CAPChannel>)
        ensures
            Self::spec_new(data, chs) matches Some(b) ==> b.spec_extent() <= data.len(),
    {
        if data.len() >= 4 {
            Channel::lemma_extent_le_input(data.skip(4), chs, spec_le16(data, 2));
        }
    }
}

impl L2CAP {
    pub proof fn lemma_fields_in_extent(self, start: int)
        ensures
            spec_fields_within(self.spec_fields(start), start, start + self.spec_extent()),
    {
        match self {
            L2CAP::L2CAPB(Some(b)) => b.lemma_fields_in_extent(start),
            L2CAP::L2CAPB(None) => {},
        }
    }

    pub proof fn lemma_extent_le_input(data: Seq<u8>, chs: Seq<L2CAPChannel>)
        ensures
            Self::spec_new(data, chs) matches Some(l) ==> l.spec_extent() <= data.len(),
    {
        L2CAPB::lemma_extent_le_input(data, chs);
    }
}

} // verus!
