//! Altium import: parses Altium Designer schematic (.SchDoc) documents.
//! Altium files are OLE compound documents holding record streams of
//! pipe-delimited `KEY=value` properties; raw record streams are parsed in
//! full, and OLE documents are scanned for readable metadata.
//!
//! Positions in the files are tenth-mil-scaled values that the original
//! format divides by ten thousand to obtain millimetres; they are parsed here
//! into integer nanometres (a factor of one hundred). Bytes are decoded
//! through a trusted lossy UTF-8 wrapper; everything after that decoding is
//! verified against specification-level mirrors of the same scans.

use vstd::prelude::*;
use vstd::string::*;
use crate::geom::Point2D;
use crate::layout::{Layout, LayoutView, TraceView, ViaView, PlacedComponentView};
use crate::outside::{lossy_string, lossy_utf8};
use crate::props::{Props, spec_lookup, str_eq_string};
use crate::schematic::{LabelType, NetLabel, NetLabelView, PlacedSymbol, PlacedSymbolView,
    SchematicSheet, SchematicSheetView, Wire, spec_new_symbol};
use crate::text::{ascii_upper, chars_string_range, find_chars, spec_ascii_upper, spec_find,
    spec_parse_scaled, spec_upper, str_chars, vec_range, parse_scaled, lemma_spec_find};
use crate::fmt::{push_char, push_str_part};

verus! {

// ---------------------------------------------------------------------------
// Errors
// ---------------------------------------------------------------------------

/// Altium import error.
#[derive(Debug, Clone, PartialEq)]
pub enum AltiumError {
    /// I/O error, described as text
    Io(String),
    /// Invalid file format
    InvalidFormat(String),
    /// Unsupported version
    UnsupportedVersion(String),
    /// Parse error
    ParseError(String),
}

/// The description an error renders to.
pub open spec fn spec_altium_error_message(e: AltiumError) -> Seq<char> {
    match e {
        AltiumError::Io(s) => "I/O error: "@ + s@,
        AltiumError::InvalidFormat(s) => "Invalid format: "@ + s@,
        AltiumError::UnsupportedVersion(s) => "Unsupported version: "@ + s@,
        AltiumError::ParseError(s) => "Parse error: "@ + s@,
    }
}

impl AltiumError {
    /// Human-readable description of the error.
    pub fn message(&self) -> (r: String)
        ensures
            r@ == spec_altium_error_message(*self),
    {
        let mut s = String::new();
        match self {
            AltiumError::Io(m) => {
                push_str_part(&mut s, "I/O error: ");
                push_str_part(&mut s, m.as_str());
            },
            AltiumError::InvalidFormat(m) => {
                push_str_part(&mut s, "Invalid format: ");
                push_str_part(&mut s, m.as_str());
            },
            AltiumError::UnsupportedVersion(m) => {
                push_str_part(&mut s, "Unsupported version: ");
                push_str_part(&mut s, m.as_str());
            },
            AltiumError::ParseError(m) => {
                push_str_part(&mut s, "Parse error: ");
                push_str_part(&mut s, m.as_str());
            },
        }
        s
    }
}

/// Result type for Altium operations.
pub type AltiumResult<T> = Result<T, AltiumError>;

/// The OLE compound-document signature.
pub open spec fn spec_is_ole(data: Seq<u8>) -> bool {
    &&& data.len() >= 8
    &&& data[0] == 0xd0u8
    &&& data[1] == 0xcfu8
    &&& data[2] == 0x11u8
    &&& data[3] == 0xe0u8
    &&& data[4] == 0xa1u8
    &&& data[5] == 0xb1u8
    &&& data[6] == 0x1au8
    &&& data[7] == 0xe1u8
}

/// Whether the data begins with the OLE compound-document signature.
fn is_ole(data: &[u8]) -> (r: bool)
    requires
        data@.len() >= 8,
    ensures
        r == spec_is_ole(data@),
{
    data[0] == 0xd0 && data[1] == 0xcf && data[2] == 0x11 && data[3] == 0xe0 && data[4] == 0xa1
        && data[5] == 0xb1 && data[6] == 0x1a && data[7] == 0xe1
}

// ---------------------------------------------------------------------------
// Readable strings in binary data
// ---------------------------------------------------------------------------

/// A printable ASCII byte.
pub open spec fn spec_printable(b: u8) -> bool {
    0x20 <= b < 0x7f
}

/// Whether a run holds an `=` sign.
pub open spec fn has_equals(s: Seq<char>) -> bool {
    exists|k: int| 0 <= k < s.len() && s[k] == '='
}

/// A run is kept when it is at least four characters and holds an `=`.
pub open spec fn keep_run(s: Seq<char>) -> bool {
    s.len() >= 4 && has_equals(s)
}

/// The scan for readable strings: printable bytes extend the current run; any
/// other byte ends it, keeping it if it qualifies.
pub open spec fn spec_extract(
    data: Seq<u8>,
    i: int,
    current: Seq<char>,
    acc: Seq<Seq<char>>,
) -> Seq<Seq<char>>
    decreases data.len() - i,
{
    if i < 0 || i >= data.len() {
        if current.len() > 0 && keep_run(current) {
            acc.push(current)
        } else {
            acc
        }
    } else {
        let b = data[i];
        if spec_printable(b) {
            spec_extract(data, i + 1, current.push(b as char), acc)
        } else if current.len() > 0 {
            if keep_run(current) {
                spec_extract(data, i + 1, Seq::empty(), acc.push(current))
            } else {
                spec_extract(data, i + 1, Seq::empty(), acc)
            }
        } else {
            spec_extract(data, i + 1, current, acc)
        }
    }
}

/// All kept runs of a byte buffer.
pub open spec fn spec_extract_strings(data: Seq<u8>) -> Seq<Seq<char>> {
    spec_extract(data, 0, Seq::empty(), Seq::empty())
}

// ---------------------------------------------------------------------------
// Record streams
// ---------------------------------------------------------------------------

/// First index at or after `i` holding a `|`.
pub open spec fn spec_seg_end(s: Seq<char>, i: int) -> int
    decreases s.len() - i,
{
    if i < 0 || i >= s.len() {
        i
    } else if s[i] == '|' {
        i
    } else {
        spec_seg_end(s, i + 1)
    }
}

/// A segment split at its first `=`: key and value.
pub open spec fn spec_split_eq(seg: Seq<char>) -> Option<(Seq<char>, Seq<char>)> {
    match spec_find(seg, seq!['='], 0) {
        Some(p) => Some((seg.subrange(0, p), seg.subrange(p + 1, seg.len() as int))),
        None => None,
    }
}

/// An `i64` saturated to its range.
pub open spec fn sat_i64(v: int) -> int {
    if v > i64::MAX {
        i64::MAX as int
    } else if v < i64::MIN {
        i64::MIN as int
    } else {
        v
    }
}

/// A record property read as nanometres (the file's raw unit is ten
/// thousandths of a millimetre, one hundred nanometres); zero when absent or
/// unreadable.
pub open spec fn prop_nm(props: Seq<(Seq<char>, Seq<char>)>, k: Seq<char>) -> int {
    match spec_lookup(props, k) {
        Some(s) => match spec_parse_scaled(s, 2) {
            Some(v) => v,
            None => 0,
        },
        None => 0,
    }
}

/// The symbol a component record (`RECORD=1`) describes: needs a designator
/// or a library reference; orientation quarter-turns become millidegrees.
pub open spec fn spec_parse_component(props: Seq<(Seq<char>, Seq<char>)>) -> Option<
    PlacedSymbolView,
> {
    let lib_ref = match spec_lookup(props, "LIBREFERENCE"@) {
        Some(l) => l,
        None => Seq::empty(),
    };
    let designator = match spec_lookup(props, "DESIGNATOR"@) {
        Some(d) => d,
        None => Seq::empty(),
    };
    if designator.len() == 0 && lib_ref.len() == 0 {
        None
    } else {
        let rotation = match spec_lookup(props, "ORIENTATION"@) {
            Some(s) => match spec_parse_scaled(s, 3) {
                Some(o) => sat_i64(o * 90),
                None => 0,
            },
            None => 0,
        };
        Some(
            PlacedSymbolView {
                position: Point2D {
                    x: prop_nm(props, "LOCATION.X"@) as i64,
                    y: prop_nm(props, "LOCATION.Y"@) as i64,
                },
                rotation,
                ..spec_new_symbol(designator, lib_ref, "Altium"@, lib_ref)
            },
        )
    }
}

/// The wire a wire record (`RECORD=27`) describes; missing coordinates
/// default to zero.
pub open spec fn spec_parse_wire_record(props: Seq<(Seq<char>, Seq<char>)>) -> Option<Wire> {
    Some(
        Wire {
            start: Point2D {
                x: prop_nm(props, "LOCATION.X"@) as i64,
                y: prop_nm(props, "LOCATION.Y"@) as i64,
            },
            end: Point2D {
                x: prop_nm(props, "CORNER.X"@) as i64,
                y: prop_nm(props, "CORNER.Y"@) as i64,
            },
        },
    )
}

/// The label a net-label record (`RECORD=25`) describes: needs a `TEXT`.
pub open spec fn spec_parse_net_label(props: Seq<(Seq<char>, Seq<char>)>) -> Option<NetLabelView> {
    let name = match spec_lookup(props, "TEXT"@) {
        Some(t) => t,
        None => Seq::empty(),
    };
    if name.len() == 0 {
        None
    } else {
        Some(
            NetLabelView {
                name,
                position: Point2D {
                    x: prop_nm(props, "LOCATION.X"@) as i64,
                    y: prop_nm(props, "LOCATION.Y"@) as i64,
                },
                label_type: LabelType::Net,
            },
        )
    }
}

/// One completed record applied to the sheet, dispatched on its `RECORD`
/// number: components, wires, net labels and sheet metadata.
pub open spec fn spec_apply_record(
    props: Seq<(Seq<char>, Seq<char>)>,
    sheet: SchematicSheetView,
) -> SchematicSheetView {
    match spec_lookup(props, "RECORD"@) {
        None => sheet,
        Some(rt) => if rt == "1"@ {
            match spec_parse_component(props) {
                Some(sym) => SchematicSheetView { symbols: sheet.symbols.push(sym), ..sheet },
                None => sheet,
            }
        } else if rt == "27"@ {
            match spec_parse_wire_record(props) {
                Some(w) => SchematicSheetView { wires: sheet.wires.push(w), ..sheet },
                None => sheet,
            }
        } else if rt == "25"@ {
            match spec_parse_net_label(props) {
                Some(l) => SchematicSheetView { labels: sheet.labels.push(l), ..sheet },
                None => sheet,
            }
        } else if rt == "31"@ {
            match spec_lookup(props, "SHEETNAME"@) {
                Some(n) => SchematicSheetView { name: n, ..sheet },
                None => sheet,
            }
        } else {
            sheet
        },
    }
}

/// One `KEY=value` segment folded into the pending properties; a new `RECORD`
/// key first applies the pending record.
pub open spec fn spec_segment(
    seg: Seq<char>,
    props: Seq<(Seq<char>, Seq<char>)>,
    sheet: SchematicSheetView,
) -> (Seq<(Seq<char>, Seq<char>)>, SchematicSheetView) {
    if seg.len() == 0 {
        (props, sheet)
    } else {
        match spec_split_eq(seg) {
            None => (props, sheet),
            Some((k, v)) => {
                let ku = spec_upper(k);
                if ku == "RECORD"@ && props.len() > 0 {
                    (Seq::empty().push((ku, v)), spec_apply_record(props, sheet))
                } else {
                    (props.push((ku, v)), sheet)
                }
            },
        }
    }
}

/// The whole record stream folded into a sheet, segment by segment, with the
/// last pending record applied at the end.
pub open spec fn spec_stream(
    s: Seq<char>,
    i: int,
    props: Seq<(Seq<char>, Seq<char>)>,
    sheet: SchematicSheetView,
) -> SchematicSheetView
    decreases s.len() - i,
    via spec_stream_dec
{
    if i < 0 {
        sheet
    } else {
        let e = spec_seg_end(s, i);
        let folded = spec_segment(s.subrange(i, e), props, sheet);
        if e >= s.len() {
            if folded.0.len() > 0 {
                spec_apply_record(folded.0, folded.1)
            } else {
                folded.1
            }
        } else {
            spec_stream(s, e + 1, folded.0, folded.1)
        }
    }
}

#[via_fn]
proof fn spec_stream_dec(
    s: Seq<char>,
    i: int,
    props: Seq<(Seq<char>, Seq<char>)>,
    sheet: SchematicSheetView,
) {
    if i >= 0 {
        lemma_seg_end_bounds(s, i);
    }
}

/// `spec_seg_end` stays between its start and the end of the text.
pub proof fn lemma_seg_end_bounds(s: Seq<char>, i: int)
    requires
        0 <= i,
    ensures
        i <= spec_seg_end(s, i),
        i <= s.len() ==> spec_seg_end(s, i) <= s.len(),
    decreases s.len() - i,
{
    if i < s.len() && s[i] != '|' {
        lemma_seg_end_bounds(s, i + 1);
    }
}

/// The empty sheet every Altium import starts from.
pub open spec fn spec_altium_sheet0() -> SchematicSheetView {
    SchematicSheetView {
        name: "Altium Import"@,
        symbols: Seq::empty(),
        wires: Seq::empty(),
        labels: Seq::empty(),
    }
}

/// The sheet a raw record stream denotes.
pub open spec fn spec_parse_record_stream(data: Seq<u8>) -> SchematicSheetView {
    spec_stream(lossy_utf8(data), 0, Seq::empty(), spec_altium_sheet0())
}

/// The first kept run starting with `SheetName=`, stripped of that prefix.
pub open spec fn spec_ole_sheet_name(strings: Seq<Seq<char>>, i: int) -> Option<Seq<char>>
    decreases strings.len() - i,
{
    if i < 0 || i >= strings.len() {
        None
    } else if strings[i].len() >= 10 && strings[i].subrange(0, 10) == "SheetName="@ {
        Some(strings[i].subrange(10, strings[i].len() as int))
    } else {
        spec_ole_sheet_name(strings, i + 1)
    }
}

/// The sheet an OLE compound document denotes: empty, named by a readable
/// `SheetName=` entry when one exists.
pub open spec fn spec_parse_ole(data: Seq<u8>) -> SchematicSheetView {
    match spec_ole_sheet_name(spec_extract_strings(data), 0) {
        Some(n) => SchematicSheetView { name: n, ..spec_altium_sheet0() },
        None => spec_altium_sheet0(),
    }
}

/// The sheet any Altium schematic byte input at least eight bytes long
/// denotes.
pub open spec fn spec_import_altium(data: Seq<u8>) -> SchematicSheetView {
    if spec_is_ole(data) {
        spec_parse_ole(data)
    } else {
        spec_parse_record_stream(data)
    }
}

// ---------------------------------------------------------------------------
// Importers
// ---------------------------------------------------------------------------

/// Altium schematic importer: parses `.SchDoc` content.
pub struct AltiumSchematicImporter;

impl AltiumSchematicImporter {
    /// Import a schematic from bytes: OLE documents are scanned for metadata,
    /// anything else is read as a raw record stream; fewer than eight bytes
    /// are rejected.
    pub fn import_from_bytes(data: &[u8]) -> (r: AltiumResult<SchematicSheet>)
        ensures
            match r {
                Ok(sheet) => data@.len() >= 8 && sheet@ == spec_import_altium(data@),
                Err(e) => data@.len() < 8 && match e {
                    AltiumError::InvalidFormat(m) => m@ == "File too small"@,
                    _ => false,
                },
            },
    {
        if data.len() < 8 {
            return Err(AltiumError::InvalidFormat(String::from_str("File too small")));
        }
        if is_ole(data) {
            Ok(Self::parse_ole_document(data))
        } else {
            Ok(Self::parse_record_stream(data))
        }
    }

    /// Scan an OLE compound document for readable metadata.
    pub fn parse_ole_document(data: &[u8]) -> (sheet: SchematicSheet)
        ensures
            sheet@ == spec_parse_ole(data@),
    {
        let mut sheet = SchematicSheet::new("Altium Import");
        let strings = Self::extract_strings(data);
        let ghost sv = strings.deep_view();
        let prefix = str_chars("SheetName=");
        let mut i: usize = 0;
        while i < strings.len()
            invariant
                sv == strings.deep_view(),
                sv == spec_extract_strings(data@),
                prefix@ == "SheetName="@,
                0 <= i <= strings.len(),
                sheet@ == spec_altium_sheet0(),
                spec_ole_sheet_name(sv, 0) == spec_ole_sheet_name(sv, i as int),
            decreases strings.len() - i,
        {
            let cs = str_chars(strings[i].as_str());
            proof {
                reveal_strlit("SheetName=");
            }
            if cs.len() >= 10 && crate::text::is_match_at(cs.as_slice(), prefix.as_slice(), 0) {
                let name = chars_string_range(cs.as_slice(), 10, cs.len());
                proof {
                    assert(cs@.subrange(0, 10) =~= "SheetName="@);
                }
                sheet.name = name;
                proof {
                    assert(sheet@ =~= (SchematicSheetView {
                        name: sv[i as int].subrange(10, sv[i as int].len() as int),
                        ..spec_altium_sheet0()
                    }));
                }
                return sheet;
            }
            i = i + 1;
        }
        sheet
    }

    /// Read a raw record stream: pipe-delimited `KEY=value` pairs, each
    /// record introduced by `RECORD=n`.
    pub fn parse_record_stream(data: &[u8]) -> (sheet: SchematicSheet)
        ensures
            sheet@ == spec_parse_record_stream(data@),
    {
        let content = lossy_string(data);
        let chars = str_chars(content.as_str());
        let ghost s = chars@;
        let mut sheet = SchematicSheet::new("Altium Import");
        let mut current_props = Props::new();
        let ghost sheet0 = sheet@;
        let mut i: usize = 0;
        proof {
            assert(sheet0 =~= spec_altium_sheet0());
        }
        loop
            invariant_except_break
                s == chars@,
                s == lossy_utf8(data@),
                0 <= i <= s.len(),
                spec_stream(s, 0, Seq::empty(), spec_altium_sheet0()) == spec_stream(
                    s,
                    i as int,
                    current_props@,
                    sheet@,
                ),
            ensures
                sheet@ == spec_parse_record_stream(data@),
            decreases s.len() - i,
        {
            let e = seg_end(chars.as_slice(), i);
            let seg = vec_range(chars.as_slice(), i, e);
            process_segment(seg.as_slice(), &mut current_props, &mut sheet);
            if e >= chars.len() {
                if current_props.len() > 0 {
                    Self::process_record(&current_props, &mut sheet);
                }
                break ;
            }
            i = e + 1;
        }
        sheet
    }

    /// Parse pipe-delimited properties, keys upper-cased.
    pub fn parse_properties(record: &str) -> (props: Props)
        ensures
            props@ == spec_properties_of(record@, 0, Seq::empty()),
    {
        let chars = str_chars(record);
        let ghost s = chars@;
        let mut props = Props::new();
        let mut i: usize = 0;
        loop
            invariant_except_break
                s == chars@,
                s == record@,
                0 <= i <= s.len(),
                spec_properties_of(s, 0, Seq::empty()) == spec_properties_of(
                    s,
                    i as int,
                    props@,
                ),
            ensures
                props@ == spec_properties_of(record@, 0, Seq::empty()),
            decreases s.len() - i,
        {
            let e = seg_end(chars.as_slice(), i);
            let seg = vec_range(chars.as_slice(), i, e);
            insert_segment(seg.as_slice(), &mut props);
            if e >= chars.len() {
                break ;
            }
            i = e + 1;
        }
        props
    }

    /// Apply one completed record to the sheet.
    pub fn process_record(props: &Props, sheet: &mut SchematicSheet)
        ensures
            final(sheet)@ == spec_apply_record(props@, old(sheet)@),
    {
        let record_type = match props.get("RECORD") {
            Some(rt) => rt,
            None => {
                return ;
            },
        };
        if str_eq_string("1", &record_type) {
            match Self::parse_component(props) {
                Some(symbol) => {
                    let ghost prev = sheet@.symbols;
                    sheet.symbols.push(symbol);
                    proof {
                        assert(sheet@.symbols =~= prev.push(
                            spec_parse_component(props@).unwrap(),
                        ));
                    }
                },
                None => {},
            }
        } else if str_eq_string("27", &record_type) {
            match Self::parse_wire(props) {
                Some(w) => {
                    let ghost prev = sheet@.wires;
                    sheet.wires.push(w);
                    proof {
                        assert(sheet@.wires =~= prev.push(spec_parse_wire_record(props@).unwrap()));
                    }
                },
                None => {},
            }
        } else if str_eq_string("25", &record_type) {
            match Self::parse_net_label(props) {
                Some(l) => {
                    let ghost prev = sheet@.labels;
                    sheet.labels.push(l);
                    proof {
                        assert(sheet@.labels =~= prev.push(spec_parse_net_label(props@).unwrap()));
                    }
                },
                None => {},
            }
        } else if str_eq_string("31", &record_type) {
            match props.get("SHEETNAME") {
                Some(name) => {
                    sheet.name = name;
                },
                None => {},
            }
        }
    }

    /// Parse a component record.
    pub fn parse_component(props: &Props) -> (r: Option<PlacedSymbol>)
        ensures
            match r {
                Some(s) => spec_parse_component(props@) == Some(s@),
                None => spec_parse_component(props@) is None,
            },
    {
        let lib_ref = match props.get("LIBREFERENCE") {
            Some(l) => l,
            None => String::new(),
        };
        let designator = match props.get("DESIGNATOR") {
            Some(d) => d,
            None => String::new(),
        };
        if designator.as_str().is_empty() && lib_ref.as_str().is_empty() {
            return None;
        }
        let x = prop_scaled_or_zero(props, "LOCATION.X");
        let y = prop_scaled_or_zero(props, "LOCATION.Y");
        let rotation: i64 = match props.get("ORIENTATION") {
            Some(o) => {
                let cs = str_chars(o.as_str());
                match parse_scaled(cs.as_slice(), 3) {
                    Some(v) => saturating_mul_90(v),
                    None => 0,
                }
            },
            None => 0,
        };
        proof {
            reveal_strlit("");
        }
        Some(
            PlacedSymbol::new(
                designator.as_str(),
                lib_ref.as_str(),
                "Altium",
                lib_ref.as_str(),
            ).at(x, y).rotated(rotation),
        )
    }

    /// Parse a wire record; coordinates default to zero.
    pub fn parse_wire(props: &Props) -> (r: Option<Wire>)
        ensures
            match r {
                Some(w) => spec_parse_wire_record(props@) == Some(w),
                None => spec_parse_wire_record(props@) is None,
            },
    {
        let x1 = prop_scaled_or_zero(props, "LOCATION.X");
        let y1 = prop_scaled_or_zero(props, "LOCATION.Y");
        let x2 = prop_scaled_or_zero(props, "CORNER.X");
        let y2 = prop_scaled_or_zero(props, "CORNER.Y");
        Some(Wire::new(Point2D::new(x1, y1), Point2D::new(x2, y2)))
    }

    /// Parse a net label record.
    pub fn parse_net_label(props: &Props) -> (r: Option<NetLabel>)
        ensures
            match r {
                Some(l) => spec_parse_net_label(props@) == Some(l@),
                None => spec_parse_net_label(props@) is None,
            },
    {
        let name = match props.get("TEXT") {
            Some(t) => t,
            None => String::new(),
        };
        if name.as_str().is_empty() {
            return None;
        }
        let x = prop_scaled_or_zero(props, "LOCATION.X");
        let y = prop_scaled_or_zero(props, "LOCATION.Y");
        Some(NetLabel::new(name, Point2D::new(x, y)))
    }

    /// Extract readable ASCII strings from binary data: printable runs of at
    /// least four characters holding an `=`.
    pub fn extract_strings(data: &[u8]) -> (r: Vec<String>)
        ensures
            r.deep_view() == spec_extract_strings(data@),
    {
        let mut strings: Vec<String> = Vec::new();
        let mut current = String::new();
        let mut has_eq = false;
        let mut i: usize = 0;
        proof {
            assert(strings.deep_view() =~= Seq::<Seq<char>>::empty());
        }
        while i < data.len()
            invariant
                0 <= i <= data@.len(),
                has_eq == has_equals(current@),
                spec_extract_strings(data@) == spec_extract(
                    data@,
                    i as int,
                    current@,
                    strings.deep_view(),
                ),
            decreases data.len() - i,
        {
            let b = data[i];
            if 0x20 <= b && b < 0x7f {
                let c = b as char;
                let ghost prevc = current@;
                push_char(&mut current, c);
                if c == '=' {
                    has_eq = true;
                }
                proof {
                    if has_equals(prevc) {
                        let k = choose|k: int| 0 <= k < prevc.len() && prevc[k] == '=';
                        assert(current@[k] == '=');
                    }
                    if c == '=' {
                        assert(current@[current@.len() - 1] == '=');
                    }
                    assert(has_eq == has_equals(current@));
                }
            } else if current.as_str().is_empty() {
                // run already empty: nothing to flush
            } else {
                if current.as_str().unicode_len() >= 4 && has_eq {
                    let ghost prev = strings.deep_view();
                    let ghost cur = current@;
                    strings.push(current);
                    proof {
                        assert(strings.deep_view() =~= prev.push(cur));
                    }
                } else {
                }
                current = String::new();
                has_eq = false;
                proof {
                    assert(!has_equals(current@));
                }
            }
            i = i + 1;
        }
        if !current.as_str().is_empty() && current.as_str().unicode_len() >= 4 && has_eq {
            let ghost prev = strings.deep_view();
            let ghost cur = current@;
            strings.push(current);
            proof {
                assert(strings.deep_view() =~= prev.push(cur));
            }
        }
        strings
    }
}

/// A record property read as a scaled decimal (two digits of scale, raw file
/// units to nanometres); zero when absent or unreadable.
fn prop_scaled_or_zero(props: &Props, key: &str) -> (v: i64)
    ensures
        v as int == prop_nm(props@, key@),
{
    match props.get(key) {
        Some(s) => {
            let cs = str_chars(s.as_str());
            match parse_scaled(cs.as_slice(), 2) {
                Some(v) => v,
                None => 0,
            }
        },
        None => 0,
    }
}

/// Ninety times a millidegree count, saturated to the `i64` range.
fn saturating_mul_90(v: i64) -> (r: i64)
    ensures
        r as int == sat_i64(v as int * 90),
{
    let wide: i128 = (v as i128) * 90;
    if wide > i64::MAX as i128 {
        i64::MAX
    } else if wide < i64::MIN as i128 {
        i64::MIN
    } else {
        wide as i64
    }
}

/// First index at or after `from` holding a `|`, or the end.
fn seg_end(s: &[char], from: usize) -> (r: usize)
    requires
        from <= s@.len(),
    ensures
        r as int == spec_seg_end(s@, from as int),
        from <= r <= s@.len(),
{
    let mut i: usize = from;
    while i < s.len() && s[i] != '|'
        invariant
            from <= i <= s@.len(),
            spec_seg_end(s@, from as int) == spec_seg_end(s@, i as int),
        decreases s.len() - i,
    {
        i = i + 1;
    }
    i
}

/// Upper-case copy of a character range.
fn upper_string(v: &[char], from: usize, to: usize) -> (r: String)
    requires
        from <= to <= v@.len(),
    ensures
        r@ == spec_upper(v@.subrange(from as int, to as int)),
{
    let mut s = String::new();
    let mut i: usize = from;
    while i < to
        invariant
            from <= i <= to <= v@.len(),
            s@ == spec_upper(v@.subrange(from as int, i as int)),
        decreases to - i,
    {
        push_char(&mut s, ascii_upper(v[i]));
        proof {
            assert(v@.subrange(from as int, i as int + 1) =~= v@.subrange(
                from as int,
                i as int,
            ).push(v@[i as int]));
            v@.subrange(from as int, i as int).lemma_push_map_commute(
                |c: char| spec_ascii_upper(c),
                v@[i as int],
            );
        }
        i = i + 1;
    }
    s
}

/// One segment folded into the pending properties and the sheet.
fn process_segment(seg: &[char], props: &mut Props, sheet: &mut SchematicSheet)
    ensures
        (final(props)@, final(sheet)@) == spec_segment(seg@, old(props)@, old(sheet)@),
{
    if seg.len() == 0 {
        return ;
    }
    let eq_needle = crate::text::str_chars("=");
    proof {
        reveal_strlit("=");
        assert(eq_needle@ =~= seq!['=']);
    }
    match find_chars(seg, eq_needle.as_slice(), 0) {
        None => {},
        Some(p) => {
            proof {
                lemma_spec_find(seg@, seq!['='], 0);
            }
            let key_upper = upper_string(seg, 0, p);
            let value = chars_string_range(seg, p + 1, seg.len());
            if str_eq_string("RECORD", &key_upper) && props.len() > 0 {
                AltiumSchematicImporter::process_record(props, sheet);
                props.clear();
            }
            props.insert(key_upper, value);
        },
    }
}

/// One segment folded into plain properties (no record dispatch).
fn insert_segment(seg: &[char], props: &mut Props)
    ensures
        final(props)@ == spec_property_segment(seg@, old(props)@),
{
    if seg.len() == 0 {
        return ;
    }
    let eq_needle = crate::text::str_chars("=");
    proof {
        reveal_strlit("=");
        assert(eq_needle@ =~= seq!['=']);
    }
    match find_chars(seg, eq_needle.as_slice(), 0) {
        None => {},
        Some(p) => {
            proof {
                lemma_spec_find(seg@, seq!['='], 0);
            }
            let key_upper = upper_string(seg, 0, p);
            let value = chars_string_range(seg, p + 1, seg.len());
            props.insert(key_upper, value);
        },
    }
}

/// One segment's key/value pair, key upper-cased, appended; segments without
/// `=` contribute nothing.
pub open spec fn spec_property_segment(
    seg: Seq<char>,
    props: Seq<(Seq<char>, Seq<char>)>,
) -> Seq<(Seq<char>, Seq<char>)> {
    if seg.len() == 0 {
        props
    } else {
        match spec_split_eq(seg) {
            None => props,
            Some((k, v)) => props.push((spec_upper(k), v)),
        }
    }
}

/// All segments' properties, in order.
pub open spec fn spec_properties_of(
    s: Seq<char>,
    i: int,
    props: Seq<(Seq<char>, Seq<char>)>,
) -> Seq<(Seq<char>, Seq<char>)>
    decreases s.len() - i,
    via spec_properties_of_dec
{
    if i < 0 {
        props
    } else {
        let e = spec_seg_end(s, i);
        let folded = spec_property_segment(s.subrange(i, e), props);
        if e >= s.len() {
            folded
        } else {
            spec_properties_of(s, e + 1, folded)
        }
    }
}

#[via_fn]
proof fn spec_properties_of_dec(s: Seq<char>, i: int, props: Seq<(Seq<char>, Seq<char>)>) {
    if i >= 0 {
        lemma_seg_end_bounds(s, i);
    }
}

// ---------------------------------------------------------------------------
// PCB importer
// ---------------------------------------------------------------------------

/// Altium PCB importer: parses `.PcbDoc` content.
pub struct AltiumPcbImporter;

impl AltiumPcbImporter {
    /// Import a PCB from bytes. Only the OLE envelope is recognised; the
    /// layout starts empty.
    pub fn import_from_bytes(data: &[u8]) -> (r: AltiumResult<Layout>)
        ensures
            match r {
                Ok(l) => spec_is_ole(data@) && l@ == (LayoutView {
                    traces: Seq::<TraceView>::empty(),
                    vias: Seq::<ViaView>::empty(),
                    components: Seq::<PlacedComponentView>::empty(),
                    outline: None,
                }),
                Err(e) => !spec_is_ole(data@) && match e {
                    AltiumError::InvalidFormat(m) => if data@.len() < 8 {
                        m@ == "File too small"@
                    } else {
                        m@ == "Not an OLE compound document"@
                    },
                    _ => false,
                },
            },
    {
        if data.len() < 8 {
            return Err(AltiumError::InvalidFormat(String::from_str("File too small")));
        }
        if !is_ole(data) {
            return Err(
                AltiumError::InvalidFormat(String::from_str("Not an OLE compound document")),
            );
        }
        Ok(Layout::new())
    }
}


// ---------------------------------------------------------------------------
// Library importer
// ---------------------------------------------------------------------------

/// Names of readable `ComponentName=` entries among the first `i` kept runs,
/// prefix stripped, empty names dropped.
pub open spec fn spec_schlib_names(strings: Seq<Seq<char>>, i: int) -> Seq<Seq<char>>
    decreases i,
{
    if i <= 0 {
        Seq::empty()
    } else {
        spec_schlib_names(strings, i - 1) + (if strings[i - 1].len() > 14 && strings[i
            - 1].subrange(0, 14) == "ComponentName="@ {
            seq![strings[i - 1].subrange(14, strings[i - 1].len() as int)]
        } else {
            Seq::empty()
        })
    }
}

/// Altium library importer: parses `.SchLib` content.
pub struct AltiumLibraryImporter;

impl AltiumLibraryImporter {
    /// Import a schematic library from bytes: one fresh `Symbol` component
    /// per readable `ComponentName=` entry, in order of appearance.
    pub fn import_schlib_from_bytes(data: &[u8]) -> (r: AltiumResult<
        Vec<crate::library::LibraryComponent>,
    >)
        ensures
            match r {
                Ok(components) => {
                    let names = spec_schlib_names(
                        spec_extract_strings(data@),
                        spec_extract_strings(data@).len() as int,
                    );
                    &&& spec_is_ole(data@)
                    &&& components.deep_view().len() == names.len()
                    &&& forall|j: int|
                        0 <= j < names.len() ==> (#[trigger] components.deep_view()[j]).name
                            == names[j] && components.deep_view()[j].component_type
                            == crate::library::ComponentType::Symbol
                },
                Err(e) => !spec_is_ole(data@) && match e {
                    AltiumError::InvalidFormat(m) => if data@.len() < 8 {
                        m@ == "File too small"@
                    } else {
                        m@ == "Not an OLE compound document"@
                    },
                    _ => false,
                },
            },
    {
        if data.len() < 8 {
            return Err(AltiumError::InvalidFormat(String::from_str("File too small")));
        }
        if !is_ole(data) {
            return Err(
                AltiumError::InvalidFormat(String::from_str("Not an OLE compound document")),
            );
        }
        let strings = AltiumSchematicImporter::extract_strings(data);
        let ghost sv = strings.deep_view();
        let prefix = str_chars("ComponentName=");
        let mut components: Vec<crate::library::LibraryComponent> = Vec::new();
        let mut i: usize = 0;
        proof {
            assert(components.deep_view() =~= Seq::<crate::library::LibraryComponentView>::empty());
        }
        while i < strings.len()
            invariant
                sv == strings.deep_view(),
                sv == spec_extract_strings(data@),
                prefix@ == "ComponentName="@,
                0 <= i <= strings.len(),
                components.deep_view().len() == spec_schlib_names(sv, i as int).len(),
                forall|j: int|
                    0 <= j < spec_schlib_names(sv, i as int).len() ==> (
                    #[trigger] components.deep_view()[j]).name == spec_schlib_names(
                        sv,
                        i as int,
                    )[j] && components.deep_view()[j].component_type
                        == crate::library::ComponentType::Symbol,
            decreases strings.len() - i,
        {
            let cs = str_chars(strings[i].as_str());
            proof {
                reveal_strlit("ComponentName=");
            }
            if cs.len() > 14 && crate::text::is_match_at(cs.as_slice(), prefix.as_slice(), 0) {
                let name = chars_string_range(cs.as_slice(), 14, cs.len());
                let ghost prev = components.deep_view();
                proof {
                    assert(cs@.subrange(0, 14) =~= "ComponentName="@);
                }
                let component = crate::library::LibraryComponent::new(
                    name.as_str(),
                    crate::library::ComponentType::Symbol,
                );
                let ghost cv = component@;
                components.push(component);
                proof {
                    let ghost names1 = spec_schlib_names(sv, i as int + 1);
                    let ghost names0 = spec_schlib_names(sv, i as int);
                    assert(components.deep_view() =~= prev.push(cv));
                    assert(cv.name == sv[i as int].subrange(14, sv[i as int].len() as int));
                    assert(names1 =~= names0 + seq![
                        sv[i as int].subrange(14, sv[i as int].len() as int),
                    ]);
                    assert forall|j: int| 0 <= j < names1.len() implies (
                    #[trigger] components.deep_view()[j]).name == names1[j]
                        && components.deep_view()[j].component_type
                        == crate::library::ComponentType::Symbol by {
                        if j < names0.len() {
                            assert(components.deep_view()[j] == prev[j]);
                        } else {
                            assert(components.deep_view()[j] == cv);
                        }
                    }
                }
            } else {
                proof {
                    if cs@.len() > 14 {
                        assert((cs@.subrange(0, 14) == "ComponentName="@) ==> crate::text::match_at(
                            cs@,
                            "ComponentName="@,
                            0,
                        ));
                    }
                    assert(spec_schlib_names(sv, i as int + 1) =~= spec_schlib_names(
                        sv,
                        i as int,
                    ));
                }
            }
            i = i + 1;
        }
        Ok(components)
    }
}


} // verus!
