//! Annotated decoding of Bluetooth HCI transport packets and their L2CAP
//! payloads.
//!
//! Every decoder produces two parallel outputs for each wire field: a
//! semantically named value (with a symbolic name when the raw number maps to
//! a known enumeration) and the exact byte/bit range the value was read from,
//! expressed relative to the start of the original buffer.  This crate root
//! holds the shared field/location model, the renderer that turns a field
//! list into its serialized text form, and the session handle threaded
//! through the stateful L2CAP decoders.

use vstd::prelude::*;

pub mod hci;
pub mod l2cap;
pub mod sdp;

pub use hci::HciPacket;

use l2cap::L2CAPArg;
use sdp::SDPArg;

verus! {

// ---------------------------------------------------------------------------
// Rendering of numbers as text
// ---------------------------------------------------------------------------

/// The character for one digit value below sixteen.
pub open spec fn spec_digit_char(d: int) -> char {
    if d == 0 {
        '0'
    } else if d == 1 {
        '1'
    } else if d == 2 {
        '2'
    } else if d == 3 {
        '3'
    } else if d == 4 {
        '4'
    } else if d == 5 {
        '5'
    } else if d == 6 {
        '6'
    } else if d == 7 {
        '7'
    } else if d == 8 {
        '8'
    } else if d == 9 {
        '9'
    } else if d == 10 {
        'a'
    } else if d == 11 {
        'b'
    } else if d == 12 {
        'c'
    } else if d == 13 {
        'd'
    } else if d == 14 {
        'e'
    } else {
        'f'
    }
}

/// Hexadecimal digits of `v`, most significant first, no leading zeros.
pub open spec fn spec_hex(v: int) -> Seq<char>
    decreases v,
{
    if v < 16 {
        seq![spec_digit_char(v)]
    } else {
        spec_hex(v / 16) + seq![spec_digit_char(v % 16)]
    }
}

/// A number as rendered in a field value: `0x` followed by its hex digits.
pub open spec fn spec_hex0x(v: int) -> Seq<char> {
    seq!['0', 'x'] + spec_hex(v)
}

/// Decimal digits of `v`, most significant first, no leading zeros.
pub open spec fn spec_dec(v: int) -> Seq<char>
    decreases v,
{
    if v < 10 {
        seq![spec_digit_char(v)]
    } else {
        spec_dec(v / 10) + seq![spec_digit_char(v % 10)]
    }
}

fn digit_str(d: u64) -> (r: &'static str)
    requires
        d < 16,
    ensures
        r@ == seq![spec_digit_char(d as int)],
{
    let r = match d {
        0 => "0",
        1 => "1",
        2 => "2",
        3 => "3",
        4 => "4",
        5 => "5",
        6 => "6",
        7 => "7",
        8 => "8",
        9 => "9",
        10 => "a",
        11 => "b",
        12 => "c",
        13 => "d",
        14 => "e",
        _ => "f",
    };
    proof {
        reveal_strlit("0");
        reveal_strlit("1");
        reveal_strlit("2");
        reveal_strlit("3");
        reveal_strlit("4");
        reveal_strlit("5");
        reveal_strlit("6");
        reveal_strlit("7");
        reveal_strlit("8");
        reveal_strlit("9");
        reveal_strlit("a");
        reveal_strlit("b");
        reveal_strlit("c");
        reveal_strlit("d");
        reveal_strlit("e");
        reveal_strlit("f");
        assert(r@ =~= seq![spec_digit_char(d as int)]);
    }
    r
}

/// Hexadecimal digits of `v`, without the `0x` prefix.
pub fn u64_to_hex(v: u64) -> (r: String)
    ensures
        r@ == spec_hex(v as int),
    decreases v,
{
    if v < 16 {
        String::from_str(digit_str(v))
    } else {
        let mut s = u64_to_hex(v / 16);
        s.append(digit_str(v % 16));
        s
    }
}

/// Decimal digits of `v`.
pub fn u64_to_dec(v: u64) -> (r: String)
    ensures
        r@ == spec_dec(v as int),
    decreases v,
{
    if v < 10 {
        String::from_str(digit_str(v))
    } else {
        let mut s = u64_to_dec(v / 10);
        s.append(digit_str(v % 10));
        s
    }
}

/// `0x`-prefixed hexadecimal rendering of `v`.
pub fn u64_to_hex0x(v: u64) -> (r: String)
    ensures
        r@ == spec_hex0x(v as int),
{
    proof {
        reveal_strlit("0x");
        assert("0x"@ =~= seq!['0', 'x']);
    }
    let mut s = String::from_str("0x");
    let digits = u64_to_hex(v);
    s.append(digits.as_str());
    s
}

// ---------------------------------------------------------------------------
// Rendering of single values
// ---------------------------------------------------------------------------

/// How a value renders inside a field annotation: numbers in `0x` hex,
/// strings between double quotes.
pub trait ParseNodeFormat {
    /// The exact character sequence `node_format` produces.
    spec fn spec_format(&self) -> Seq<char>;

    fn node_format(&self) -> (r: String)
        ensures
            r@ == self.spec_format(),
    ;
}

impl ParseNodeFormat for u8 {
    open spec fn spec_format(&self) -> Seq<char> {
        spec_hex0x(*self as int)
    }

    fn node_format(&self) -> (r: String) {
        u64_to_hex0x(*self as u64)
    }
}

impl ParseNodeFormat for u16 {
    open spec fn spec_format(&self) -> Seq<char> {
        spec_hex0x(*self as int)
    }

    fn node_format(&self) -> (r: String) {
        u64_to_hex0x(*self as u64)
    }
}

impl ParseNodeFormat for u32 {
    open spec fn spec_format(&self) -> Seq<char> {
        spec_hex0x(*self as int)
    }

    fn node_format(&self) -> (r: String) {
        u64_to_hex0x(*self as u64)
    }
}

/// A string value renders between double quotes.
pub open spec fn spec_quoted(s: Seq<char>) -> Seq<char> {
    seq!['"'] + s + seq!['"']
}

impl ParseNodeFormat for &str {
    open spec fn spec_format(&self) -> Seq<char> {
        spec_quoted(self@)
    }

    fn node_format(&self) -> (r: String) {
        proof {
            reveal_strlit("\"");
            assert("\""@ =~= seq!['"']);
        }
        let mut s = String::from_str("\"");
        s.append(self);
        s.append("\"");
        proof {
            assert(s@ =~= spec_quoted(self@));
            assert(s@ == self.spec_format());
        }
        s
    }
}

impl ParseNodeFormat for String {
    open spec fn spec_format(&self) -> Seq<char> {
        spec_quoted(self@)
    }

    fn node_format(&self) -> (r: String) {
        proof {
            reveal_strlit("\"");
            assert("\""@ =~= seq!['"']);
        }
        let mut s = String::from_str("\"");
        s.append(self.as_str());
        s.append("\"");
        proof {
            assert(s@ =~= spec_quoted(self@));
            assert(s@ == self.spec_format());
        }
        s
    }
}

// ---------------------------------------------------------------------------
// Field locations
// ---------------------------------------------------------------------------

/// The byte range a field was decoded from, relative to the start of the
/// original top-level buffer.
#[derive(Clone, Copy, Debug, PartialEq, Eq, Structural)]
pub struct ParseBytesNode {
    pub start_byte: u8,
    pub len_in_bytes: u8,
}

/// A bit range inside a byte range, for fields narrower than their
/// containing bytes.  `start_bit` counts from bit 0 of the byte at
/// `start_byte` rounded down to the field's containing word.
#[derive(Clone, Copy, Debug, PartialEq, Eq, Structural)]
pub struct ParseBitsNode {
    pub start_byte: u8,
    pub len_in_bytes: u8,
    pub start_bit: u8,
    pub len_in_bits: u8,
}

/// The location annotation `B(start, len)` of a byte-aligned field.
pub open spec fn spec_bytes_loc_str(start: int, len: int) -> Seq<char> {
    seq!['B', '('] + spec_dec(start) + seq![',', ' '] + spec_dec(len) + seq![')']
}

/// The location annotation `B(start, len), b(bit, bits)` of a bit field.
pub open spec fn spec_bits_loc_str(start: int, len: int, bit: int, bits: int) -> Seq<char> {
    spec_bytes_loc_str(start, len) + seq![',', ' ', 'b', '('] + spec_dec(bit) + seq![',', ' ']
        + spec_dec(bits) + seq![')']
}

/// One field line of the serialized form:
/// `"key": [value, "alias", "loc", "error"]`.
pub open spec fn spec_field_str(
    key: Seq<char>,
    value: Seq<char>,
    alias: Seq<char>,
    loc: Seq<char>,
    error: Seq<char>,
) -> Seq<char> {
    seq!['"'] + key + seq!['"', ':', ' ', '['] + value + seq![',', ' ', '"'] + alias
        + seq!['"', ',', ' ', '"'] + loc + seq!['"', ',', ' ', '"'] + error + seq!['"', ']']
}

fn push_quoted_part(out: &mut String, part: &str)
    ensures
        final(out)@ == old(out)@ + part@ + seq!['"', ',', ' ', '"'],
{
    proof {
        reveal_strlit("\", \"");
        assert("\", \""@ =~= seq!['"', ',', ' ', '"']);
    }
    out.append(part);
    out.append("\", \"");
}

/// Renders one field line from already-rendered parts.
fn format_parts(key: &str, value: &String, alias: &str, loc: &String, error: &str) -> (r: String)
    ensures
        r@ == spec_field_str(key@, value@, alias@, loc@, error@),
{
    proof {
        reveal_strlit("\"");
        reveal_strlit("\": [");
        reveal_strlit(", \"");
        reveal_strlit("\"]");
        assert("\""@ =~= seq!['"']);
        assert("\": ["@ =~= seq!['"', ':', ' ', '[']);
        assert(", \""@ =~= seq![',', ' ', '"']);
        assert("\"]"@ =~= seq!['"', ']']);
    }
    let mut out = String::from_str("\"");
    out.append(key);
    out.append("\": [");
    out.append(value.as_str());
    out.append(", \"");
    push_quoted_part(&mut out, alias);
    push_quoted_part(&mut out, loc.as_str());
    out.append(error);
    out.append("\"]");
    proof {
        assert(out@ =~= spec_field_str(key@, value@, alias@, loc@, error@));
    }
    out
}

impl ParseBytesNode {
    pub fn new(start_byte: u8, len_in_bytes: u8) -> (r: Self)
        ensures
            r == (ParseBytesNode { start_byte, len_in_bytes }),
    {
        ParseBytesNode { start_byte, len_in_bytes }
    }

    /// `B(start, len)` as rendered in the location slot of a field line.
    pub fn loc_str(&self) -> (r: String)
        ensures
            r@ == spec_bytes_loc_str(self.start_byte as int, self.len_in_bytes as int),
    {
        proof {
            reveal_strlit("B(");
            reveal_strlit(", ");
            reveal_strlit(")");
            assert("B("@ =~= seq!['B', '(']);
            assert(", "@ =~= seq![',', ' ']);
            assert(")"@ =~= seq![')']);
        }
        let mut out = String::from_str("B(");
        let start = u64_to_dec(self.start_byte as u64);
        out.append(start.as_str());
        out.append(", ");
        let len = u64_to_dec(self.len_in_bytes as u64);
        out.append(len.as_str());
        out.append(")");
        proof {
            assert(out@ =~= spec_bytes_loc_str(self.start_byte as int, self.len_in_bytes as int));
        }
        out
    }

    /// One serialized field line carrying this byte location.
    pub fn format<T: ParseNodeFormat>(&self, key: &str, value: T, alias: &str, error: &str) -> (r:
        String)
        ensures
            r@ == spec_field_str(
                key@,
                value.spec_format(),
                alias@,
                spec_bytes_loc_str(self.start_byte as int, self.len_in_bytes as int),
                error@,
            ),
    {
        let rendered = value.node_format();
        let loc = self.loc_str();
        format_parts(key, &rendered, alias, &loc, error)
    }
}

impl ParseBitsNode {
    pub fn new(start_byte: u8, len_in_bytes: u8, start_bit: u8, len_in_bits: u8) -> (r: Self)
        ensures
            r == (ParseBitsNode { start_byte, len_in_bytes, start_bit, len_in_bits }),
    {
        ParseBitsNode { start_byte, len_in_bytes, start_bit, len_in_bits }
    }

    /// `B(start, len), b(bit, bits)` as rendered in the location slot.
    pub fn loc_str(&self) -> (r: String)
        ensures
            r@ == spec_bits_loc_str(
                self.start_byte as int,
                self.len_in_bytes as int,
                self.start_bit as int,
                self.len_in_bits as int,
            ),
    {
        proof {
            reveal_strlit(", b(");
            reveal_strlit(", ");
            reveal_strlit(")");
            assert(", b("@ =~= seq![',', ' ', 'b', '(']);
            assert(", "@ =~= seq![',', ' ']);
            assert(")"@ =~= seq![')']);
        }
        let bytes_part = ParseBytesNode {
            start_byte: self.start_byte,
            len_in_bytes: self.len_in_bytes,
        };
        let mut out = bytes_part.loc_str();
        out.append(", b(");
        let bit = u64_to_dec(self.start_bit as u64);
        out.append(bit.as_str());
        out.append(", ");
        let bits = u64_to_dec(self.len_in_bits as u64);
        out.append(bits.as_str());
        out.append(")");
        proof {
            assert(out@ =~= spec_bits_loc_str(
                self.start_byte as int,
                self.len_in_bytes as int,
                self.start_bit as int,
                self.len_in_bits as int,
            ));
        }
        out
    }

    /// One serialized field line carrying this bit location.
    pub fn format<T: ParseNodeFormat>(&self, key: &str, value: T, alias: &str, error: &str) -> (r:
        String)
        ensures
            r@ == spec_field_str(
                key@,
                value.spec_format(),
                alias@,
                spec_bits_loc_str(
                    self.start_byte as int,
                    self.len_in_bytes as int,
                    self.start_bit as int,
                    self.len_in_bits as int,
                ),
                error@,
            ),
    {
        let rendered = value.node_format();
        let loc = self.loc_str();
        format_parts(key, &rendered, alias, &loc, error)
    }
}

// ---------------------------------------------------------------------------
// The decode tree: dual value + location output
// ---------------------------------------------------------------------------

/// Outcome attached to one decoded field.  `Error` marks a semantic or
/// structural problem with that field alone; decoding always continues.
/// `SubtreeStart`/`SubtreeEnd` bracket fields that render as a named
/// sub-object.
#[derive(Clone, Copy, Debug, PartialEq, Eq, Structural)]
pub enum DecodeStatus {
    Valid,
    Error,
    SubtreeStart,
    SubtreeEnd,
}

/// Where a field's bytes sit in the original buffer, if it has a location
/// of its own (subtree brackets may not).
#[derive(Clone, Copy, Debug, PartialEq, Eq, Structural)]
pub enum FieldLoc {
    Absent,
    Bytes(ParseBytesNode),
    Bits(ParseBitsNode),
}

/// The raw value of a field, before rendering.
#[derive(Debug)]
pub enum FieldValue {
    Num(u64),
    Text(String),
}

impl ParseNodeFormat for FieldValue {
    open spec fn spec_format(&self) -> Seq<char> {
        match self {
            FieldValue::Num(v) => spec_hex0x(*v as int),
            FieldValue::Text(s) => spec_quoted(s@),
        }
    }

    fn node_format(&self) -> (r: String) {
        match self {
            FieldValue::Num(v) => u64_to_hex0x(*v),
            FieldValue::Text(s) => s.node_format(),
        }
    }
}

/// One decoded field: a named, optionally symbolically annotated value
/// together with the exact place it was read from.
#[derive(Debug)]
pub struct DecodeField {
    pub key: String,
    pub value: FieldValue,
    /// Name the raw value maps to in its enumeration; empty when it maps to
    /// nothing, in which case `status` is `Error` for fields that expect one.
    pub symbolic: String,
    pub loc: FieldLoc,
    pub status: DecodeStatus,
}

/// Ghost counterpart of `FieldLoc`, over mathematical integers.
#[verifier::ext_equal]
pub enum SpecLoc {
    Absent,
    Bytes { start: int, len: int },
    Bits { start: int, len: int, bit_start: int, bit_len: int },
}

/// Ghost counterpart of `DecodeField`: what a field says, as sequences and
/// integers.  `value` is the rendered value text.
#[verifier::ext_equal]
pub struct SpecField {
    pub key: Seq<char>,
    pub value: Seq<char>,
    pub symbolic: Seq<char>,
    pub loc: SpecLoc,
    pub status: DecodeStatus,
}

impl View for FieldLoc {
    type V = SpecLoc;

    open spec fn view(&self) -> SpecLoc {
        match self {
            FieldLoc::Absent => SpecLoc::Absent,
            FieldLoc::Bytes(b) => SpecLoc::Bytes {
                start: b.start_byte as int,
                len: b.len_in_bytes as int,
            },
            FieldLoc::Bits(b) => SpecLoc::Bits {
                start: b.start_byte as int,
                len: b.len_in_bytes as int,
                bit_start: b.start_bit as int,
                bit_len: b.len_in_bits as int,
            },
        }
    }
}

impl View for DecodeField {
    type V = SpecField;

    open spec fn view(&self) -> SpecField {
        SpecField {
            key: self.key@,
            value: self.value.spec_format(),
            symbolic: self.symbolic@,
            loc: self.loc@,
            status: self.status,
        }
    }
}

/// The views of a field list, in order.
pub open spec fn views_of(fs: Seq<DecodeField>) -> Seq<SpecField> {
    fs.map_values(|f: DecodeField| f@)
}

/// A numeric field annotated as `SpecField`, for stating field lists.
pub open spec fn spec_num_field(
    key: Seq<char>,
    v: int,
    symbolic: Seq<char>,
    loc: SpecLoc,
    status: DecodeStatus,
) -> SpecField {
    SpecField { key, value: spec_hex0x(v), symbolic, loc, status }
}

/// Builds a numeric field.
pub fn num_field(key: &str, v: u64, symbolic: &str, loc: FieldLoc, status: DecodeStatus) -> (r:
    DecodeField)
    ensures
        r@ == spec_num_field(key@, v as int, symbolic@, loc@, status),
{
    DecodeField {
        key: String::from_str(key),
        value: FieldValue::Num(v),
        symbolic: String::from_str(symbolic),
        loc,
        status,
    }
}

/// Builds a text-valued field.
pub fn text_field(key: &str, v: &str, symbolic: &str, loc: FieldLoc, status: DecodeStatus) -> (r:
    DecodeField)
    ensures
        r@ == (SpecField {
            key: key@,
            value: spec_quoted(v@),
            symbolic: symbolic@,
            loc: loc@,
            status,
        }),
{
    DecodeField {
        key: String::from_str(key),
        value: FieldValue::Text(String::from_str(v)),
        symbolic: String::from_str(symbolic),
        loc,
        status,
    }
}

/// The bracket field opening a named sub-object.
pub open spec fn spec_subtree_start(key: Seq<char>) -> SpecField {
    SpecField {
        key,
        value: spec_quoted(Seq::empty()),
        symbolic: Seq::empty(),
        loc: SpecLoc::Absent,
        status: DecodeStatus::SubtreeStart,
    }
}

/// The bracket field closing a sub-object.
pub open spec fn spec_subtree_end() -> SpecField {
    SpecField {
        key: Seq::empty(),
        value: spec_quoted(Seq::empty()),
        symbolic: Seq::empty(),
        loc: SpecLoc::Absent,
        status: DecodeStatus::SubtreeEnd,
    }
}

/// Builds the bracket field opening a named sub-object.
pub fn subtree_start(key: &str) -> (r: DecodeField)
    ensures
        r@ == spec_subtree_start(key@),
{
    DecodeField {
        key: String::from_str(key),
        value: FieldValue::Text(String::new()),
        symbolic: String::new(),
        loc: FieldLoc::Absent,
        status: DecodeStatus::SubtreeStart,
    }
}

/// Builds the bracket field closing a sub-object.
pub fn subtree_end() -> (r: DecodeField)
    ensures
        r@ == spec_subtree_end(),
{
    DecodeField {
        key: String::new(),
        value: FieldValue::Text(String::new()),
        symbolic: String::new(),
        loc: FieldLoc::Absent,
        status: DecodeStatus::SubtreeEnd,
    }
}

/// The annotation a decoder leaves when its input ran out before the
/// fields it would have read: a zero-length error field at the point of
/// the shortfall.  Decoding never aborts on truncation.
pub open spec fn spec_truncated_field(start: int) -> SpecField {
    SpecField {
        key: "Truncated"@,
        value: spec_quoted(Seq::empty()),
        symbolic: Seq::empty(),
        loc: SpecLoc::Bytes { start, len: 0 },
        status: DecodeStatus::Error,
    }
}

/// Builds the truncation marker.
pub fn truncated_field(start_byte: u8) -> (r: DecodeField)
    ensures
        r@ == spec_truncated_field(start_byte as int),
{
    proof {
        reveal_strlit("");
    }
    text_field(
        "Truncated",
        "",
        "",
        FieldLoc::Bytes(ParseBytesNode { start_byte, len_in_bytes: 0 }),
        DecodeStatus::Error,
    )
}

/// Whether a location lies inside the byte range `[lo, hi]`.
pub open spec fn spec_loc_within(loc: SpecLoc, lo: int, hi: int) -> bool {
    match loc {
        SpecLoc::Absent => true,
        SpecLoc::Bytes { start, len } => lo <= start && 0 <= len && start + len <= hi,
        SpecLoc::Bits { start, len, bit_start, bit_len } => lo <= start && 0 <= len && start + len
            <= hi,
    }
}

/// Whether every location in a field list lies inside `[lo, hi]`.
pub open spec fn spec_fields_within(fs: Seq<SpecField>, lo: int, hi: int) -> bool {
    forall|i: int| 0 <= i < fs.len() ==> spec_loc_within(#[trigger] fs[i].loc, lo, hi)
}

/// A field list inside a range is inside every containing range.
pub proof fn lemma_fields_within_widen(fs: Seq<SpecField>, lo: int, hi: int, lo2: int, hi2: int)
    requires
        spec_fields_within(fs, lo, hi),
        lo2 <= lo,
        hi <= hi2,
    ensures
        spec_fields_within(fs, lo2, hi2),
{
    assert forall|i: int| 0 <= i < fs.len() implies spec_loc_within(
        #[trigger] fs[i].loc,
        lo2,
        hi2,
    ) by {
        assert(spec_loc_within(fs[i].loc, lo, hi));
    }
}

// ---------------------------------------------------------------------------
// Rendering a field list
// ---------------------------------------------------------------------------

/// The location slot of a field line, from its ghost location.
pub open spec fn spec_loc_render(loc: SpecLoc) -> Seq<char> {
    match loc {
        SpecLoc::Absent => Seq::empty(),
        SpecLoc::Bytes { start, len } => spec_bytes_loc_str(start, len),
        SpecLoc::Bits { start, len, bit_start, bit_len } => spec_bits_loc_str(
            start,
            len,
            bit_start,
            bit_len,
        ),
    }
}

/// The error slot of a field line: empty unless the field failed a check.
pub open spec fn spec_status_render(status: DecodeStatus) -> Seq<char> {
    if status is Error {
        seq!['E', 'r', 'r', 'o', 'r']
    } else {
        Seq::empty()
    }
}

/// How one field renders: subtree brackets as `"key": {` and `}`, every
/// other field as a full field line.
pub open spec fn spec_render_field(f: SpecField) -> Seq<char> {
    match f.status {
        DecodeStatus::SubtreeStart => seq!['"'] + f.key + seq!['"', ':', ' ', '{'],
        DecodeStatus::SubtreeEnd => seq!['}'],
        _ => spec_field_str(
            f.key,
            f.value,
            f.symbolic,
            spec_loc_render(f.loc),
            spec_status_render(f.status),
        ),
    }
}

/// Renders a field list: fields separated by `, `, except that nothing
/// follows an opening brace and nothing precedes a closing one.  `first` is
/// true when no separator is owed before the next field.
pub open spec fn spec_render_fields(fs: Seq<SpecField>, first: bool) -> Seq<char>
    decreases fs.len(),
{
    if fs.len() == 0 {
        Seq::empty()
    } else {
        let f = fs[0];
        let sep: Seq<char> = if first || f.status is SubtreeEnd {
            Seq::empty()
        } else {
            seq![',', ' ']
        };
        sep + spec_render_field(f) + spec_render_fields(fs.drop_first(), f.status is SubtreeStart)
    }
}

/// Renders one field.
fn render_field(f: &DecodeField) -> (r: String)
    ensures
        r@ == spec_render_field(f@),
{
    match f.status {
        DecodeStatus::SubtreeStart => {
            proof {
                reveal_strlit("\"");
                reveal_strlit("\": {");
                assert("\""@ =~= seq!['"']);
                assert("\": {"@ =~= seq!['"', ':', ' ', '{']);
            }
            let mut out = String::from_str("\"");
            out.append(f.key.as_str());
            out.append("\": {");
            proof {
                assert(out@ =~= spec_render_field(f@));
            }
            out
        },
        DecodeStatus::SubtreeEnd => {
            proof {
                reveal_strlit("}");
                assert("}"@ =~= seq!['}']);
            }
            String::from_str("}")
        },
        _ => {
            let error = if f.status == DecodeStatus::Error {
                "Error"
            } else {
                ""
            };
            proof {
                reveal_strlit("Error");
                reveal_strlit("");
                assert("Error"@ =~= seq!['E', 'r', 'r', 'o', 'r']);
                assert(""@ =~= Seq::<char>::empty());
            }
            let loc = match &f.loc {
                FieldLoc::Absent => {
                    proof {
                        reveal_strlit("");
                    }
                    String::from_str("")
                },
                FieldLoc::Bytes(b) => b.loc_str(),
                FieldLoc::Bits(b) => b.loc_str(),
            };
            let rendered = f.value.node_format();
            format_parts(f.key.as_str(), &rendered, f.symbolic.as_str(), &loc, error)
        },
    }
}

/// Renders a whole field list, separators included.
pub fn render_fields(fields: &Vec<DecodeField>) -> (r: String)
    ensures
        r@ == spec_render_fields(views_of(fields@), true),
{
    let ghost all = views_of(fields@);
    let mut out = String::new();
    let mut first: bool = true;
    let mut i: usize = 0;
    proof {
        assert(all.subrange(0, all.len() as int) =~= all);
        assert(out@ + spec_render_fields(all, true) =~= spec_render_fields(all, true));
    }
    while i < fields.len()
        invariant
            0 <= i <= fields.len(),
            all == views_of(fields@),
            all.len() == fields@.len(),
            spec_render_fields(all, true) == out@ + spec_render_fields(
                all.subrange(i as int, all.len() as int),
                first,
            ),
        decreases fields.len() - i,
    {
        let ghost rest = all.subrange(i as int, all.len() as int);
        let f = &fields[i];
        proof {
            assert(rest[0] == all[i as int]);
            assert(rest.drop_first() =~= all.subrange(i as int + 1, all.len() as int));
        }
        if !(first || f.status == DecodeStatus::SubtreeEnd) {
            proof {
                reveal_strlit(", ");
                assert(", "@ =~= seq![',', ' ']);
            }
            out.append(", ");
        }
        let piece = render_field(f);
        out.append(piece.as_str());
        first = f.status == DecodeStatus::SubtreeStart;
        i = i + 1;
        proof {
            assert(spec_render_fields(all, true) == out@ + spec_render_fields(
                all.subrange(i as int, all.len() as int),
                first,
            ));
        }
    }
    proof {
        assert(all.subrange(all.len() as int, all.len() as int) =~= Seq::<SpecField>::empty());
    }
    out
}

// ---------------------------------------------------------------------------
// Little-endian extraction
// ---------------------------------------------------------------------------

/// The 16-bit little-endian value at byte offset `i`.
pub open spec fn spec_le16(d: Seq<u8>, i: int) -> u16 {
    (d[i] + 256 * d[i + 1]) as u16
}

/// Reads the 16-bit little-endian value at byte offset `i`.
pub fn le16_at(data: &[u8], i: usize) -> (r: u16)
    requires
        i + 1 < data@.len(),
    ensures
        r == spec_le16(data@, i as int),
{
    data[i] as u16 + 256 * (data[i + 1] as u16)
}

// ---------------------------------------------------------------------------
// Decoder interfaces
// ---------------------------------------------------------------------------

/// A decoder that always yields a value from its input bytes.
///
/// `spec_fields` is the node's annotation list when rendered with its first
/// byte at cursor `start`; `spec_extent` is how many bytes of input those
/// annotations span, so every emitted location stays inside
/// `[start, start + spec_extent)`.
pub trait ParseNode: Sized {
    /// Inputs the decoder accepts.
    spec fn spec_req(data: Seq<u8>) -> bool;

    /// The value decoded from `data`.
    spec fn spec_new(data: Seq<u8>) -> Self;

    /// The annotations this value renders, cursor at `start`.
    spec fn spec_fields(self, start: int) -> Seq<SpecField>;

    /// Bytes of input the annotations span.
    spec fn spec_extent(self) -> int;

    fn new(data: &[u8]) -> (r: Self)
        requires
            Self::spec_req(data@),
        ensures
            r == Self::spec_new(data@),
    ;

    fn fields(&self, start_byte: u8) -> (r: Vec<DecodeField>)
        requires
            start_byte as int + self.spec_extent() <= 255,
        ensures
            views_of(r@) == self.spec_fields(start_byte as int),
    ;

    fn as_json(&self, start_byte: u8) -> (r: String)
        requires
            start_byte as int + self.spec_extent() <= 255,
        ensures
            r@ == spec_render_fields(self.spec_fields(start_byte as int), true),
    {
        render_fields(&self.fields(start_byte))
    }
}

/// A decoder that refuses truncated input by returning `None`; a `None`
/// never aborts the packet, the caller renders what it has.
pub trait ParseNodeOpt: Sized {
    spec fn spec_new(data: Seq<u8>) -> Option<Self>;

    spec fn spec_fields(self, start: int) -> Seq<SpecField>;

    spec fn spec_extent(self) -> int;

    fn new(data: &[u8]) -> (r: Option<Self>)
        ensures
            r == Self::spec_new(data@),
    ;

    fn fields(&self, start_byte: u8) -> (r: Vec<DecodeField>)
        requires
            start_byte as int + self.spec_extent() <= 255,
        ensures
            views_of(r@) == self.spec_fields(start_byte as int),
    ;

    fn as_json(&self, start_byte: u8) -> (r: String)
        requires
            start_byte as int + self.spec_extent() <= 255,
        ensures
            r@ == spec_render_fields(self.spec_fields(start_byte as int), true),
    {
        render_fields(&self.fields(start_byte))
    }
}

/// Like `ParseNode`, for decoders steered by an already-read discriminant
/// (an opcode, a channel id) passed alongside the remaining bytes.
pub trait ParseNodeA<T>: Sized {
    spec fn spec_req(data: Seq<u8>, param: T) -> bool;

    spec fn spec_new(data: Seq<u8>, param: T) -> Self;

    spec fn spec_fields(self, start: int) -> Seq<SpecField>;

    spec fn spec_extent(self) -> int;

    fn new(data: &[u8], param: T) -> (r: Self)
        requires
            Self::spec_req(data@, param),
        ensures
            r == Self::spec_new(data@, param),
    ;

    fn fields(&self, start_byte: u8) -> (r: Vec<DecodeField>)
        requires
            start_byte as int + self.spec_extent() <= 255,
        ensures
            views_of(r@) == self.spec_fields(start_byte as int),
    ;

    fn as_json(&self, start_byte: u8) -> (r: String)
        requires
            start_byte as int + self.spec_extent() <= 255,
        ensures
            r@ == spec_render_fields(self.spec_fields(start_byte as int), true),
    {
        render_fields(&self.fields(start_byte))
    }
}

/// Like `ParseNodeOpt`, with a discriminant parameter.
pub trait ParseNodeOptA<T>: Sized {
    spec fn spec_new(data: Seq<u8>, param: T) -> Option<Self>;

    spec fn spec_fields(self, start: int) -> Seq<SpecField>;

    spec fn spec_extent(self) -> int;

    fn new(data: &[u8], param: T) -> (r: Option<Self>)
        ensures
            r == Self::spec_new(data@, param),
    ;

    fn fields(&self, start_byte: u8) -> (r: Vec<DecodeField>)
        requires
            start_byte as int + self.spec_extent() <= 255,
        ensures
            views_of(r@) == self.spec_fields(start_byte as int),
    ;

    fn as_json(&self, start_byte: u8) -> (r: String)
        requires
            start_byte as int + self.spec_extent() <= 255,
        ensures
            r@ == spec_render_fields(self.spec_fields(start_byte as int), true),
    {
        render_fields(&self.fields(start_byte))
    }
}

// ---------------------------------------------------------------------------
// The session handle
// ---------------------------------------------------------------------------

/// The one mutable, cross-packet state of an analysis session, threaded by
/// mutable reference through every decode call.
#[derive(Debug)]
pub struct HostStack {
    pub l2cap_arg: L2CAPArg,
    pub sdp_arg: SDPArg,
}

impl HostStack {
    /// A fresh session: no channels observed yet.
    pub fn new() -> (r: Self)
        ensures
            r.l2cap_arg.channels@ == Seq::<l2cap::L2CAPChannel>::empty(),
    {
        HostStack { l2cap_arg: L2CAPArg::new(), sdp_arg: SDPArg::new() }
    }
}

// ---------------------------------------------------------------------------
// Hex input strings
// ---------------------------------------------------------------------------

/// A hexadecimal digit, upper or lower case.
pub open spec fn is_hex_digit(c: char) -> bool {
    ('0' <= c && c <= '9') || ('a' <= c && c <= 'f') || ('A' <= c && c <= 'F')
}

/// The value of a hexadecimal digit.
pub open spec fn hex_digit_val(c: char) -> int {
    if '0' <= c && c <= '9' {
        c as int - '0' as int
    } else if 'a' <= c && c <= 'f' {
        c as int - 'a' as int + 10
    } else {
        c as int - 'A' as int + 10
    }
}

/// A byte buffer written as two-digit hex numbers separated by single
/// spaces, as in `"01 03 0c 00"`.
pub open spec fn is_hex_byte_string(s: Seq<char>) -> bool {
    s.len() % 3 == 2 && forall|k: int|
        0 <= k < s.len() ==> if k % 3 == 2 {
            s[k] == ' '
        } else {
            is_hex_digit(#[trigger] s[k])
        }
}

/// The bytes a hex byte string denotes.
pub open spec fn spec_hex_bytes(s: Seq<char>) -> Seq<u8> {
    Seq::new(((s.len() + 1) / 3) as nat, |i: int| (hex_digit_val(s[3 * i]) * 16 + hex_digit_val(
        s[3 * i + 1],
    )) as u8)
}

fn hex_digit_value(c: char) -> (r: u8)
    requires
        is_hex_digit(c),
    ensures
        r == hex_digit_val(c),
        r < 16,
{
    if c >= '0' && c <= '9' {
        c as u8 - '0' as u8
    } else if c >= 'a' && c <= 'f' {
        c as u8 - 'a' as u8 + 10
    } else {
        c as u8 - 'A' as u8 + 10
    }
}

/// Turns a hex byte string into the buffer it denotes.
pub fn str_to_array(s: &str) -> (r: Vec<u8>)
    requires
        is_hex_byte_string(s@),
    ensures
        r@ == spec_hex_bytes(s@),
{
    let n = s.unicode_len();
    let count = (n + 1) / 3;
    let mut out: Vec<u8> = Vec::new();
    let mut i: usize = 0;
    while i < count
        invariant
            is_hex_byte_string(s@),
            n == s@.len(),
            n % 3 == 2,
            count == (n + 1) / 3,
            0 <= i <= count,
            out@.len() == i,
            forall|j: int| 0 <= j < i ==> out@[j] == spec_hex_bytes(s@)[j],
        decreases count - i,
    {
        let hi = s.get_char(3 * i);
        let lo = s.get_char(3 * i + 1);
        let b = hex_digit_value(hi) * 16 + hex_digit_value(lo);
        out.push(b);
        i = i + 1;
    }
    proof {
        assert(out@ =~= spec_hex_bytes(s@));
    }
    out
}

} // verus!
