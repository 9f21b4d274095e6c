//! Service Discovery Protocol: the 5-byte SDP PDU header carried on a
//! dynamically allocated L2CAP channel whose PSM resolved to SDP.

use vstd::prelude::*;

use crate::DecodeField;
use crate::DecodeStatus;
use crate::FieldLoc;
use crate::ParseBytesNode;
use crate::ParseNodeOpt;
use crate::SpecField;
use crate::SpecLoc;
use crate::le16_at;
use crate::num_field;
use crate::spec_le16;
use crate::spec_num_field;
use crate::spec_subtree_end;
use crate::spec_subtree_start;
use crate::subtree_end;
use crate::subtree_start;
use crate::views_of;

verus! {

/// Per-session SDP decoder state.  SDP decoding is stateless, so this
/// carries nothing; it exists so the session handle names every stateful
/// sub-protocol in one place.
#[derive(Debug)]
pub struct SDPArg {}

impl SDPArg {
    pub fn new() -> (r: SDPArg) {
        SDPArg {}
    }
}

/// The 5-byte SDP PDU header.
#[derive(Debug, Default, PartialEq, Eq, Structural)]
pub struct SDP {
    pub pdu_id: u8,
    pub trans_id: u16,
    pub param_len: u16,
}

impl ParseNodeOpt for SDP {
    open spec fn spec_new(data: Seq<u8>) -> Option<SDP> {
        if data.len() < 5 {
            None
        } else {
            Some(
                SDP {
                    pdu_id: data[0],
                    trans_id: spec_le16(data, 1),
                    param_len: spec_le16(data, 3),
                },
            )
        }
    }

    open spec fn spec_fields(self, start: int) -> Seq<SpecField> {
        seq![
            spec_subtree_start("SDP"@),
            spec_num_field(
                "PDU ID"@,
                self.pdu_id as int,
                Seq::empty(),
                SpecLoc::Bytes { start, len: 1 },
                DecodeStatus::Valid,
            ),
            spec_num_field(
                "Transaction ID"@,
                self.trans_id as int,
                Seq::empty(),
                SpecLoc::Bytes { start: start + 1, len: 2 },
                DecodeStatus::Valid,
            ),
            spec_num_field(
                "Parameter Length"@,
                self.param_len as int,
                Seq::empty(),
                SpecLoc::Bytes { start: start + 3, len: 2 },
                DecodeStatus::Valid,
            ),
            spec_subtree_end(),
        ]
    }

    open spec fn spec_extent(self) -> int {
        5
    }

    fn new(data: &[u8]) -> (r: Option<SDP>) {
        if data.len() < 5 {
            return None;
        }
        Some(SDP { pdu_id: data[0], trans_id: le16_at(data, 1), param_len: le16_at(data, 3) })
    }

    fn fields(&self, start_byte: u8) -> (r: Vec<DecodeField>) {
        let mut out: Vec<DecodeField> = Vec::new();
        out.push(subtree_start("SDP"));
        out.push(
            num_field(
                "PDU ID",
                self.pdu_id as u64,
                "",
                FieldLoc::Bytes(ParseBytesNode { start_byte, len_in_bytes: 1 }),
                DecodeStatus::Valid,
            ),
        );
        out.push(
            num_field(
                "Transaction ID",
                self.trans_id as u64,
                "",
                FieldLoc::Bytes(ParseBytesNode { start_byte: start_byte + 1, len_in_bytes: 2 }),
                DecodeStatus::Valid,
            ),
        );
        out.push(
            num_field(
                "Parameter Length",
                self.param_len as u64,
                "",
                FieldLoc::Bytes(ParseBytesNode { start_byte: start_byte + 3, len_in_bytes: 2 }),
                DecodeStatus::Valid,
            ),
        );
        out.push(subtree_end());
        proof {
            reveal_strlit("");
            assert(views_of(out@) =~~= self.spec_fields(start_byte as int));
        }
        out
    }
}

impl SDP {
    /// Every annotation of an SDP header at cursor `start` lies within the
    /// five bytes it was decoded from.
    pub proof fn lemma_fields_in_extent(self, start: int)
        ensures
            crate::spec_fields_within(self.spec_fields(start), start, start + self.spec_extent()),
    {
    }

    /// A decoded SDP header never spans more bytes than its input held.
    pub proof fn lemma_extent_le_input(data: Seq<u8>)
        ensures
            Self::spec_new(data) matches Some(s) ==> s.spec_extent() <= data.len(),
    {
    }
}

} // verus!
