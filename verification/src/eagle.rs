//! Eagle import: parses Eagle schematic (.sch) and board (.brd) documents,
//! which are XML. A small scanning XML reader collects elements and their
//! attributes; every step is verified against specification-level mirrors of
//! the same scans, so the importer's output is a function of the input text.
//!
//! Coordinates in the files are millimetres; they are parsed into integer
//! nanometres. Rotations are parsed into millidegrees.

use vstd::prelude::*;
use vstd::string::*;
use crate::geom::Point2D;
use crate::layout::{Layout, LayoutView, TraceView, ViaView, PlacedComponentView};
use crate::props::{Props, spec_lookup};
use crate::schematic::{NetLabel, NetLabelView, PlacedSymbol, PlacedSymbolView, SchematicSheet,
    SchematicSheetView, Wire, spec_new_symbol};
use crate::text::{chars_string_range, find_chars, is_match_at, is_space, match_at,
    parse_scaled, skip_spaces, spec_find, spec_is_space, spec_parse_scaled, spec_skip_spaces,
    str_chars, vec_range, lemma_spec_find};
use crate::fmt::{push_char, push_str_part};

verus! {

// ---------------------------------------------------------------------------
// Errors
// ---------------------------------------------------------------------------

/// Eagle import error.
#[derive(Debug, Clone, PartialEq)]
pub enum EagleError {
    /// I/O error, described as text
    Io(String),
    /// XML parse error
    XmlError(String),
    /// Invalid file format
    InvalidFormat(String),
    /// Unsupported version
    UnsupportedVersion(String),
}

/// The description an error renders to.
pub open spec fn spec_eagle_error_message(e: EagleError) -> Seq<char> {
    match e {
        EagleError::Io(s) => "I/O error: "@ + s@,
        EagleError::XmlError(s) => "XML error: "@ + s@,
        EagleError::InvalidFormat(s) => "Invalid format: "@ + s@,
        EagleError::UnsupportedVersion(s) => "Unsupported version: "@ + s@,
    }
}

impl EagleError {
    /// Human-readable description of the error.
    pub fn message(&self) -> (r: String)
        ensures
            r@ == spec_eagle_error_message(*self),
    {
        let mut s = String::new();
        match self {
            EagleError::Io(m) => {
                push_str_part(&mut s, "I/O error: ");
                push_str_part(&mut s, m.as_str());
            },
            EagleError::XmlError(m) => {
                push_str_part(&mut s, "XML error: ");
                push_str_part(&mut s, m.as_str());
            },
            EagleError::InvalidFormat(m) => {
                push_str_part(&mut s, "Invalid format: ");
                push_str_part(&mut s, m.as_str());
            },
            EagleError::UnsupportedVersion(m) => {
                push_str_part(&mut s, "Unsupported version: ");
                push_str_part(&mut s, m.as_str());
            },
        }
        s
    }
}

/// Result type for Eagle operations.
pub type EagleResult<T> = Result<T, EagleError>;

// ---------------------------------------------------------------------------
// XML elements
// ---------------------------------------------------------------------------

/// An XML element as the scanning reader sees it: tag, attributes, and the
/// trimmed text between the opening and closing tag, if any.
#[derive(Debug, Clone, PartialEq)]
pub struct XmlElement {
    pub tag: String,
    pub attributes: Props,
    pub content: Option<String>,
}

/// Mathematical value of an [`XmlElement`].
#[verifier::ext_equal]
pub ghost struct XmlElementView {
    pub tag: Seq<char>,
    pub attributes: Seq<(Seq<char>, Seq<char>)>,
    pub content: Option<Seq<char>>,
}

impl View for XmlElement {
    type V = XmlElementView;

    open spec fn view(&self) -> XmlElementView {
        XmlElementView {
            tag: self.tag@,
            attributes: self.attributes@,
            content: match self.content {
                Some(ref c) => Some(c@),
                None => None,
            },
        }
    }
}

impl DeepView for XmlElement {
    type V = XmlElementView;

    open spec fn deep_view(&self) -> XmlElementView {
        self.view()
    }
}

// ---------------------------------------------------------------------------
// Trimming
// ---------------------------------------------------------------------------

/// One past the last non-space character before `e`.
pub open spec fn spec_trim_end(s: Seq<char>, e: int) -> int
    decreases e,
{
    if e <= 0 || e > s.len() {
        0
    } else if spec_is_space(s[e - 1]) {
        spec_trim_end(s, e - 1)
    } else {
        e
    }
}

/// The sequence with leading and trailing ASCII whitespace removed.
pub open spec fn spec_trim(s: Seq<char>) -> Seq<char> {
    let b = spec_skip_spaces(s, 0);
    let e = spec_trim_end(s, s.len() as int);
    if b < e {
        s.subrange(b, e)
    } else {
        Seq::empty()
    }
}

/// Trimmed copy of a character sequence.
fn trim_chars(v: &[char]) -> (r: String)
    ensures
        r@ == spec_trim(v@),
{
    let b = skip_spaces(v, 0);
    let mut e: usize = v.len();
    while e > 0 && is_space(v[e - 1])
        invariant
            0 <= e <= v@.len(),
            spec_trim_end(v@, v@.len() as int) == spec_trim_end(v@, e as int),
        decreases e,
    {
        e = e - 1;
    }
    if b < e {
        chars_string_range(v, b, e)
    } else {
        String::new()
    }
}

// ---------------------------------------------------------------------------
// Attribute scanning
// ---------------------------------------------------------------------------

/// A character allowed in an attribute name: ASCII alphanumeric, `_` or `-`.
pub open spec fn spec_attr_name_char(c: char) -> bool {
    ('a' <= c && c <= 'z') || ('A' <= c && c <= 'Z') || ('0' <= c && c <= '9') || c == '_' || c
        == '-'
}

fn attr_name_char(c: char) -> (r: bool)
    ensures
        r == spec_attr_name_char(c),
{
    ('a' <= c && c <= 'z') || ('A' <= c && c <= 'Z') || ('0' <= c && c <= '9') || c == '_' || c
        == '-'
}

/// The attribute scan, one character at a time. Outside a value, name
/// characters extend the pending key and `=` followed by a quote opens a
/// value; inside a value, the matching quote closes and records the pair.
pub open spec fn spec_attrs(
    s: Seq<char>,
    i: int,
    in_value: bool,
    quote: char,
    key: Seq<char>,
    value: Seq<char>,
    acc: Seq<(Seq<char>, Seq<char>)>,
) -> Seq<(Seq<char>, Seq<char>)>
    decreases s.len() - i + 1,
{
    if i < 0 || i >= s.len() {
        acc
    } else {
        let c = s[i];
        if in_value {
            if c == quote {
                spec_attrs(s, i + 1, false, quote, Seq::empty(), Seq::empty(), acc.push((key, value)))
            } else {
                spec_attrs(s, i + 1, true, quote, key, value.push(c), acc)
            }
        } else if c == '=' {
            if i + 1 < s.len() && (s[i + 1] == '"' || s[i + 1] == '\'') {
                spec_attrs(s, i + 2, true, s[i + 1], key, Seq::empty(), acc)
            } else {
                spec_attrs(s, i + 1, false, quote, key, value, acc)
            }
        } else if spec_attr_name_char(c) {
            spec_attrs(s, i + 1, false, quote, key.push(c), value, acc)
        } else {
            spec_attrs(s, i + 1, false, quote, Seq::empty(), value, acc)
        }
    }
}

/// The attributes of a tag's text.
pub open spec fn spec_parse_attributes(s: Seq<char>) -> Seq<(Seq<char>, Seq<char>)> {
    spec_attrs(s, 0, false, '"', Seq::empty(), Seq::empty(), Seq::empty())
}

/// Parse attributes from a tag string.
fn parse_attributes(tag_content: &[char]) -> (attrs: Props)
    ensures
        attrs@ == spec_parse_attributes(tag_content@),
{
    let ghost s = tag_content@;
    let mut attrs = Props::new();
    let mut in_value = false;
    let mut quote: char = '"';
    let mut current_key = String::new();
    let mut current_value = String::new();
    let mut i: usize = 0;
    while i < tag_content.len()
        invariant
            s == tag_content@,
            0 <= i <= s.len(),
            spec_parse_attributes(s) == spec_attrs(
                s,
                i as int,
                in_value,
                quote,
                current_key@,
                current_value@,
                attrs@,
            ),
        decreases tag_content.len() - i,
    {
        let c = tag_content[i];
        if in_value {
            if c == quote {
                attrs.insert(current_key, current_value);
                current_key = String::new();
                current_value = String::new();
                in_value = false;
                i = i + 1;
            } else {
                push_char(&mut current_value, c);
                i = i + 1;
            }
        } else if c == '=' {
            if i + 1 < tag_content.len() && (tag_content[i + 1] == '"' || tag_content[i + 1]
                == '\'') {
                quote = tag_content[i + 1];
                current_value = String::new();
                in_value = true;
                i = i + 2;
            } else {
                i = i + 1;
            }
        } else if attr_name_char(c) {
            push_char(&mut current_key, c);
            i = i + 1;
        } else {
            current_key = String::new();
            i = i + 1;
        }
    }
    attrs
}

// ---------------------------------------------------------------------------
// Element scanning
// ---------------------------------------------------------------------------

/// The text of an opening tag: `<` followed by the tag name.
pub open spec fn spec_open_tag(tag: Seq<char>) -> Seq<char> {
    seq!['<'] + tag
}

/// The text of a closing tag: `</`, the tag name, `>`.
pub open spec fn spec_close_tag(tag: Seq<char>) -> Seq<char> {
    seq!['<', '/'] + tag + seq!['>']
}

/// The element whose opening tag starts at `abs` and whose tag text ends at
/// the `>` at `gt`.
pub open spec fn spec_element_at(content: Seq<char>, tag: Seq<char>, abs: int, gt: int) -> XmlElementView {
    let tag_text = content.subrange(abs, gt);
    let self_closing = tag_text.len() > 0 && tag_text.last() == '/';
    let body = if self_closing {
        None
    } else {
        match spec_find(content, spec_close_tag(tag), abs) {
            Some(close_abs) => if close_abs > gt + 1 {
                Some(spec_trim(content.subrange(gt + 1, close_abs)))
            } else {
                None
            },
            None => None,
        }
    };
    XmlElementView {
        tag,
        attributes: spec_parse_attributes(tag_text),
        content: body,
    }
}

/// Every element whose opening tag starts at or after `start`, in text
/// order. An occurrence with no following `>` contributes nothing.
pub open spec fn spec_elements(content: Seq<char>, tag: Seq<char>, start: int) -> Seq<XmlElementView>
    decreases content.len() - start + 1,
    via spec_elements_dec
{
    if start < 0 {
        Seq::empty()
    } else {
        match spec_find(content, spec_open_tag(tag), start) {
            None => Seq::empty(),
            Some(abs) => {
                let rest = spec_elements(content, tag, abs + 1);
                match spec_find(content, seq!['>'], abs) {
                    None => rest,
                    Some(gt) => seq![spec_element_at(content, tag, abs, gt)] + rest,
                }
            },
        }
    }
}

#[via_fn]
proof fn spec_elements_dec(content: Seq<char>, tag: Seq<char>, start: int) {
    if start >= 0 {
        match spec_find(content, spec_open_tag(tag), start) {
            Some(abs) => {
                lemma_spec_find(content, spec_open_tag(tag), start);
            },
            None => {},
        }
    }
}

/// Value of the named attribute on the first occurrence of the named
/// element.
pub open spec fn spec_find_attribute(content: Seq<char>, element: Seq<char>, attr: Seq<char>) -> Option<
    Seq<char>,
> {
    match spec_find(content, spec_open_tag(element), 0) {
        None => None,
        Some(start) => match spec_find(content, seq!['>'], start) {
            None => None,
            Some(gt) => spec_lookup(
                spec_parse_attributes(content.subrange(start, gt)),
                attr,
            ),
        },
    }
}

/// Scanning XML reader over one document.
pub struct SimpleXmlParser {
    content: Vec<char>,
}

impl View for SimpleXmlParser {
    type V = Seq<char>;

    closed spec fn view(&self) -> Seq<char> {
        self.content@
    }
}

impl SimpleXmlParser {
    /// A reader over the given document text.
    pub fn new(content: &str) -> (p: SimpleXmlParser)
        ensures
            p@ == content@,
    {
        SimpleXmlParser { content: str_chars(content) }
    }

    /// Find an attribute value on the first occurrence of an element.
    pub fn find_attribute(&self, element: &str, attr: &str) -> (r: Option<String>)
        ensures
            match r {
                Some(v) => spec_find_attribute(self@, element@, attr@) == Some(v@),
                None => spec_find_attribute(self@, element@, attr@) is None,
            },
    {
        let open = make_open_tag(element);
        match find_chars(self.content.as_slice(), open.as_slice(), 0) {
            None => None,
            Some(start) => {
                let gt_needle = make_char_needle('>');
                match find_chars(self.content.as_slice(), gt_needle.as_slice(), start) {
                    None => None,
                    Some(gt) => {
                        proof {
                            lemma_spec_find(self@, open@, 0);
                            lemma_spec_find(self@, gt_needle@, start as int);
                        }
                        let tag_text = vec_range(self.content.as_slice(), start, gt);
                        let attrs = parse_attributes(tag_text.as_slice());
                        attrs.get(attr)
                    },
                }
            },
        }
    }

    /// Find all elements with a given tag name, in text order.
    pub fn find_elements(&self, tag: &str) -> (r: Vec<XmlElement>)
        ensures
            r.deep_view() == spec_elements(self@, tag@, 0),
    {
        let open = make_open_tag(tag);
        let close = make_close_tag(tag);
        let gt_needle = make_char_needle('>');
        let mut elements: Vec<XmlElement> = Vec::new();
        let mut search_start: usize = 0;
        let n = self.content.len();
        proof {
            assert(elements.deep_view() =~= Seq::<XmlElementView>::empty());
        }
        loop
            invariant_except_break
                n == self.content@.len(),
                open@ == spec_open_tag(tag@),
                close@ == spec_close_tag(tag@),
                gt_needle@ == seq!['>'],
                spec_elements(self@, tag@, 0) == elements.deep_view() + spec_elements(
                    self@,
                    tag@,
                    search_start as int,
                ),
            ensures
                elements.deep_view() == spec_elements(self@, tag@, 0),
            decreases self.content@.len() - search_start + 1,
        {
            match find_chars(self.content.as_slice(), open.as_slice(), search_start) {
                None => {
                    proof {
                        assert(spec_elements(self@, tag@, search_start as int) =~= Seq::<
                            XmlElementView,
                        >::empty());
                        assert(elements.deep_view() =~= elements.deep_view() + Seq::<
                            XmlElementView,
                        >::empty());
                    }
                    break ;
                },
                Some(abs) => {
                    proof {
                        lemma_spec_find(self@, open@, search_start as int);
                    }
                    match find_chars(self.content.as_slice(), gt_needle.as_slice(), abs) {
                        None => {
                            // no closing `>` anywhere after this opening tag:
                            // nothing to record for it
                            search_start = abs + 1;
                        },
                        Some(gt) => {
                            proof {
                                lemma_spec_find(self@, gt_needle@, abs as int);
                            }
                            let tag_text = vec_range(self.content.as_slice(), abs, gt);
                            let attributes = parse_attributes(tag_text.as_slice());
                            let self_closing = tag_text.len() > 0 && tag_text[tag_text.len() - 1]
                                == '/';
                            let body: Option<String> = if self_closing {
                                None
                            } else {
                                match find_chars(self.content.as_slice(), close.as_slice(), abs) {
                                    Some(close_abs) => {
                                        proof {
                                            lemma_spec_find(self@, close@, abs as int);
                                        }
                                        if close_abs > gt + 1 {
                                            Some(
                                                trim_chars(
                                                    vec_range(
                                                        self.content.as_slice(),
                                                        gt + 1,
                                                        close_abs,
                                                    ).as_slice(),
                                                ),
                                            )
                                        } else {
                                            None
                                        }
                                    },
                                    None => None,
                                }
                            };
                            let element = XmlElement {
                                tag: String::from_str(tag),
                                attributes,
                                content: body,
                            };
                            proof {
                                assert(element@ =~= spec_element_at(
                                    self@,
                                    tag@,
                                    abs as int,
                                    gt as int,
                                ));
                            }
                            let ghost prev = elements.deep_view();
                            elements.push(element);
                            proof {
                                assert(elements.deep_view() =~= prev.push(element@));
                                assert(prev.push(element@) + spec_elements(
                                    self@,
                                    tag@,
                                    abs as int + 1,
                                ) =~= prev + (seq![
                                    spec_element_at(self@, tag@, abs as int, gt as int),
                                ] + spec_elements(self@, tag@, abs as int + 1)));
                            }
                            search_start = abs + 1;
                        },
                    }
                },
            }
        }
        elements
    }
}

/// `<` followed by the tag name, as characters.
fn make_open_tag(tag: &str) -> (v: Vec<char>)
    ensures
        v@ == spec_open_tag(tag@),
{
    let mut v: Vec<char> = Vec::new();
    v.push('<');
    let mut rest = str_chars(tag);
    v.append(&mut rest);
    proof {
        assert(v@ =~= spec_open_tag(tag@));
    }
    v
}

/// `</`, the tag name, `>`, as characters.
fn make_close_tag(tag: &str) -> (v: Vec<char>)
    ensures
        v@ == spec_close_tag(tag@),
{
    let mut v: Vec<char> = Vec::new();
    v.push('<');
    v.push('/');
    let mut rest = str_chars(tag);
    v.append(&mut rest);
    v.push('>');
    proof {
        assert(v@ =~= spec_close_tag(tag@));
    }
    v
}

/// A single character as a needle.
fn make_char_needle(c: char) -> (v: Vec<char>)
    ensures
        v@ == seq![c],
{
    let mut v: Vec<char> = Vec::new();
    v.push(c);
    proof {
        assert(v@ =~= seq![c]);
    }
    v
}


// ---------------------------------------------------------------------------
// Element readings
// ---------------------------------------------------------------------------

/// Whether a literal occurs at a position of a buffer.
fn starts_with_at(v: &[char], at: usize, lit: &str) -> (r: bool)
    ensures
        r == match_at(v@, lit@, at as int),
{
    let needle = str_chars(lit);
    if at <= v.len() && needle.len() <= v.len() - at {
        is_match_at(v, needle.as_slice(), at)
    } else {
        false
    }
}

/// A sequence of none or one element.
pub open spec fn opt_seq<T>(o: Option<T>) -> Seq<T> {
    match o {
        Some(x) => seq![x],
        None => Seq::empty(),
    }
}

/// The named attribute of an element.
pub open spec fn attr_of(e: XmlElementView, k: Seq<char>) -> Option<Seq<char>> {
    spec_lookup(e.attributes, k)
}

/// The named attribute parsed as a scaled decimal; absence and parse failure
/// are distinct.
pub open spec fn spec_attr_scaled(e: XmlElementView, k: Seq<char>, scale: nat) -> Option<int> {
    match attr_of(e, k) {
        Some(s) => spec_parse_scaled(s, scale),
        None => None,
    }
}

/// The named attribute parsed as a scaled decimal, zero when absent or
/// unparseable.
pub open spec fn spec_attr_scaled_or_zero(e: XmlElementView, k: Seq<char>, scale: nat) -> int {
    match spec_attr_scaled(e, k, scale) {
        Some(v) => v,
        None => 0,
    }
}

/// Read an attribute as a scaled decimal, zero when absent or unparseable.
fn attr_scaled_or_zero(element: &XmlElement, key: &str, scale: usize) -> (v: i64)
    requires
        scale <= 9,
    ensures
        v as int == spec_attr_scaled_or_zero(element@, key@, scale as nat),
{
    match element.attributes.get(key) {
        Some(s) => {
            let cs = str_chars(s.as_str());
            match parse_scaled(cs.as_slice(), scale) {
                Some(v) => v,
                None => 0,
            }
        },
        None => 0,
    }
}

/// Read an attribute as a scaled decimal; `None` when absent or unparseable.
fn attr_scaled(element: &XmlElement, key: &str, scale: usize) -> (v: Option<i64>)
    requires
        scale <= 9,
    ensures
        match v {
            Some(x) => spec_attr_scaled(element@, key@, scale as nat) == Some(x as int),
            None => spec_attr_scaled(element@, key@, scale as nat) is None,
        },
{
    match element.attributes.get(key) {
        Some(s) => {
            let cs = str_chars(s.as_str());
            parse_scaled(cs.as_slice(), scale)
        },
        None => None,
    }
}

// ---------------------------------------------------------------------------
// Eagle schematic importer
// ---------------------------------------------------------------------------

/// First index at or after `i` whose character differs from `c`.
pub open spec fn spec_skip_char(s: Seq<char>, i: int, c: char) -> int
    decreases s.len() - i,
{
    if i < 0 || i >= s.len() {
        i
    } else if s[i] == c {
        spec_skip_char(s, i + 1, c)
    } else {
        i
    }
}

/// Rotation text: leading `M`s (mirror) and `R`s dropped, the rest read as a
/// decimal number of degrees, in millidegrees; zero when unreadable.
pub open spec fn spec_parse_rotation(s: Seq<char>) -> int {
    let a = spec_skip_char(s, 0, 'M');
    let b = spec_skip_char(s, a, 'R');
    match spec_parse_scaled(s.subrange(b, s.len() as int), 3) {
        Some(v) => v,
        None => 0,
    }
}

/// The symbol a `part` element describes: needs a `name`; `value` falls back
/// to the device set.
pub open spec fn spec_parse_part(e: XmlElementView) -> Option<PlacedSymbolView> {
    match attr_of(e, "name"@) {
        None => None,
        Some(name) => {
            let library = match attr_of(e, "library"@) {
                Some(l) => l,
                None => Seq::empty(),
            };
            let deviceset = match attr_of(e, "deviceset"@) {
                Some(d) => d,
                None => Seq::empty(),
            };
            let value = match attr_of(e, "value"@) {
                Some(v) => v,
                None => deviceset,
            };
            Some(spec_new_symbol(name, value, library, deviceset))
        },
    }
}

/// The placement an `instance` element describes: needs a `part` reference;
/// position defaults to the origin, rotation to zero.
pub open spec fn spec_parse_instance(e: XmlElementView) -> Option<PlacedSymbolView> {
    match attr_of(e, "part"@) {
        None => None,
        Some(part) => Some(
            PlacedSymbolView {
                position: Point2D {
                    x: spec_attr_scaled_or_zero(e, "x"@, 6) as i64,
                    y: spec_attr_scaled_or_zero(e, "y"@, 6) as i64,
                },
                rotation: match attr_of(e, "rot"@) {
                    Some(r) => spec_parse_rotation(r),
                    None => 0,
                },
                ..spec_new_symbol(part, Seq::empty(), Seq::empty(), Seq::empty())
            },
        ),
    }
}

/// The wire a `wire` element describes: all four coordinates must be present
/// and readable.
pub open spec fn spec_parse_wire(e: XmlElementView) -> Option<Wire> {
    match (
        spec_attr_scaled(e, "x1"@, 6),
        spec_attr_scaled(e, "y1"@, 6),
        spec_attr_scaled(e, "x2"@, 6),
        spec_attr_scaled(e, "y2"@, 6),
    ) {
        (Some(x1), Some(y1), Some(x2), Some(y2)) => Some(
            Wire {
                start: Point2D { x: x1 as i64, y: y1 as i64 },
                end: Point2D { x: x2 as i64, y: y2 as i64 },
            },
        ),
        _ => None,
    }
}

/// The label a `label` element describes: named by its text content or its
/// `xref` attribute; nameless labels are dropped.
pub open spec fn spec_parse_label(e: XmlElementView) -> Option<NetLabelView> {
    let name = match e.content {
        Some(c) => c,
        None => match attr_of(e, "xref"@) {
            Some(x) => x,
            None => Seq::empty(),
        },
    };
    if name.len() == 0 {
        None
    } else {
        Some(
            NetLabelView {
                name,
                position: Point2D {
                    x: spec_attr_scaled_or_zero(e, "x"@, 6) as i64,
                    y: spec_attr_scaled_or_zero(e, "y"@, 6) as i64,
                },
                label_type: crate::schematic::LabelType::Net,
            },
        )
    }
}

/// The label a `net` element describes: needs a `name`.
pub open spec fn spec_parse_net(e: XmlElementView) -> Option<NetLabelView> {
    match attr_of(e, "name"@) {
        None => None,
        Some(name) => Some(
            NetLabelView {
                name,
                position: Point2D {
                    x: spec_attr_scaled_or_zero(e, "x"@, 6) as i64,
                    y: spec_attr_scaled_or_zero(e, "y"@, 6) as i64,
                },
                label_type: crate::schematic::LabelType::Net,
            },
        ),
    }
}

/// Symbols of the first `i` part elements, in order.
pub open spec fn spec_collect_parts(es: Seq<XmlElementView>, i: int) -> Seq<PlacedSymbolView>
    decreases i,
{
    if i <= 0 {
        Seq::empty()
    } else {
        spec_collect_parts(es, i - 1) + opt_seq(spec_parse_part(es[i - 1]))
    }
}

/// Wires of the first `i` wire elements, in order.
pub open spec fn spec_collect_wires(es: Seq<XmlElementView>, i: int) -> Seq<Wire>
    decreases i,
{
    if i <= 0 {
        Seq::empty()
    } else {
        spec_collect_wires(es, i - 1) + opt_seq(spec_parse_wire(es[i - 1]))
    }
}

/// Labels of the first `i` label elements, in order.
pub open spec fn spec_collect_labels(es: Seq<XmlElementView>, i: int) -> Seq<NetLabelView>
    decreases i,
{
    if i <= 0 {
        Seq::empty()
    } else {
        spec_collect_labels(es, i - 1) + opt_seq(spec_parse_label(es[i - 1]))
    }
}

/// Labels of the first `i` net elements, in order.
pub open spec fn spec_collect_nets(es: Seq<XmlElementView>, i: int) -> Seq<NetLabelView>
    decreases i,
{
    if i <= 0 {
        Seq::empty()
    } else {
        spec_collect_nets(es, i - 1) + opt_seq(spec_parse_net(es[i - 1]))
    }
}

/// The first symbol with the given reference, moved and rotated; everything
/// else untouched.
pub open spec fn spec_update_first(
    syms: Seq<PlacedSymbolView>,
    reference: Seq<char>,
    position: Point2D,
    rotation: int,
    i: int,
) -> Seq<PlacedSymbolView>
    decreases syms.len() - i,
{
    if i < 0 || i >= syms.len() {
        syms
    } else if syms[i].reference == reference {
        syms.update(i, PlacedSymbolView { position, rotation, ..syms[i] })
    } else {
        spec_update_first(syms, reference, position, rotation, i + 1)
    }
}

/// One instance element applied to the symbol list.
pub open spec fn spec_apply_one(syms: Seq<PlacedSymbolView>, e: XmlElementView) -> Seq<
    PlacedSymbolView,
> {
    match spec_parse_instance(e) {
        None => syms,
        Some(s) => spec_update_first(syms, s.reference, s.position, s.rotation, 0),
    }
}

/// The instance elements from `i` on, applied left to right.
pub open spec fn spec_apply_instances(
    syms: Seq<PlacedSymbolView>,
    es: Seq<XmlElementView>,
    i: int,
) -> Seq<PlacedSymbolView>
    decreases es.len() - i,
{
    if i < 0 || i >= es.len() {
        syms
    } else {
        spec_apply_instances(spec_apply_one(syms, es[i]), es, i + 1)
    }
}

/// Whether text begins (after whitespace) like an Eagle XML document.
pub open spec fn spec_eagle_xml(s: Seq<char>) -> bool {
    let t = spec_skip_spaces(s, 0);
    match_at(s, "<?xml"@, t) || match_at(s, "<eagle"@, t)
}

/// The sheet an Eagle schematic document denotes.
pub open spec fn spec_import_eagle(s: Seq<char>) -> SchematicSheetView {
    let name = match spec_find_attribute(s, "schematic"@, "name"@) {
        Some(n) => n,
        None => "Eagle Import"@,
    };
    let parts = spec_elements(s, "part"@, 0);
    let instances = spec_elements(s, "instance"@, 0);
    let wires = spec_elements(s, "wire"@, 0);
    let labels = spec_elements(s, "label"@, 0);
    let nets = spec_elements(s, "net"@, 0);
    SchematicSheetView {
        name,
        symbols: spec_apply_instances(
            spec_collect_parts(parts, parts.len() as int),
            instances,
            0,
        ),
        wires: spec_collect_wires(wires, wires.len() as int),
        labels: spec_collect_labels(labels, labels.len() as int) + spec_collect_nets(
            nets,
            nets.len() as int,
        ),
    }
}

/// Eagle schematic importer: parses `.sch` documents (Eagle XML).
pub struct EagleSchematicImporter;

impl EagleSchematicImporter {
    /// Import a schematic from document text. Text that does not begin with
    /// an XML or Eagle opening is rejected; everything else yields the sheet
    /// [`spec_import_eagle`] denotes.
    pub fn import_from_string(content: &str) -> (r: EagleResult<SchematicSheet>)
        ensures
            match r {
                Ok(sheet) => spec_eagle_xml(content@) && sheet@ == spec_import_eagle(content@),
                Err(e) => !spec_eagle_xml(content@) && match e {
                    EagleError::InvalidFormat(m) => m@ == "Not an XML file"@,
                    _ => false,
                },
            },
    {
        let chars = str_chars(content);
        let t = skip_spaces(chars.as_slice(), 0);
        let is_xml = starts_with_at(chars.as_slice(), t, "<?xml") || starts_with_at(
            chars.as_slice(),
            t,
            "<eagle",
        );
        if !is_xml {
            return Err(EagleError::InvalidFormat(String::from_str("Not an XML file")));
        }
        let mut sheet = SchematicSheet::new("Eagle Import");
        let parser = SimpleXmlParser::new(content);

        match parser.find_attribute("schematic", "name") {
            Some(desc) => {
                sheet.name = desc;
            },
            None => {},
        }

        let ghost name_v = sheet@.name;
        let parts = parser.find_elements("part");
        let ghost parts_v = parts.deep_view();
        let mut i: usize = 0;
        while i < parts.len()
            invariant
                parts_v == parts.deep_view(),
                0 <= i <= parts.len(),
                sheet@.name == name_v,
                sheet@.wires == Seq::<Wire>::empty(),
                sheet@.labels == Seq::<NetLabelView>::empty(),
                sheet@.symbols == spec_collect_parts(parts_v, i as int),
            decreases parts.len() - i,
        {
            let ghost prev = sheet@.symbols;
            match Self::parse_part(&parts[i]) {
                Some(symbol) => {
                    sheet.symbols.push(symbol);
                    proof {
                        assert(sheet@.symbols =~= spec_collect_parts(parts_v, i as int + 1));
                    }
                },
                None => {
                    proof {
                        assert(sheet@.symbols =~= spec_collect_parts(parts_v, i as int + 1));
                    }
                },
            }
            i = i + 1;
        }

        let instances = parser.find_elements("instance");
        let ghost instances_v = instances.deep_view();
        let ghost symbols0 = sheet@.symbols;
        let mut i: usize = 0;
        while i < instances.len()
            invariant
                instances_v == instances.deep_view(),
                0 <= i <= instances.len(),
                sheet@.name == name_v,
                sheet@.wires == Seq::<Wire>::empty(),
                sheet@.labels == Seq::<NetLabelView>::empty(),
                spec_apply_instances(symbols0, instances_v, 0) == spec_apply_instances(
                    sheet@.symbols,
                    instances_v,
                    i as int,
                ),
            decreases instances.len() - i,
        {
            match Self::parse_instance(&instances[i], sheet.symbols.as_slice()) {
                Some(symbol) => {
                    update_symbol_placement(
                        &mut sheet.symbols,
                        &symbol.reference,
                        symbol.position,
                        symbol.rotation,
                    );
                },
                None => {},
            }
            i = i + 1;
        }

        let ghost symbols_done = sheet@.symbols;
        let wire_elements = parser.find_elements("wire");
        let ghost wires_v = wire_elements.deep_view();
        let mut i: usize = 0;
        while i < wire_elements.len()
            invariant
                wires_v == wire_elements.deep_view(),
                0 <= i <= wire_elements.len(),
                sheet@.name == name_v,
                sheet@.symbols == symbols_done,
                sheet@.labels == Seq::<NetLabelView>::empty(),
                sheet@.wires == spec_collect_wires(wires_v, i as int),
            decreases wire_elements.len() - i,
        {
            match Self::parse_wire(&wire_elements[i]) {
                Some(w) => {
                    sheet.wires.push(w);
                },
                None => {},
            }
            proof {
                assert(sheet@.wires =~= spec_collect_wires(wires_v, i as int + 1));
            }
            i = i + 1;
        }

        let ghost wires_done = sheet@.wires;
        let label_elements = parser.find_elements("label");
        let ghost labels_v = label_elements.deep_view();
        let mut i: usize = 0;
        while i < label_elements.len()
            invariant
                labels_v == label_elements.deep_view(),
                0 <= i <= label_elements.len(),
                sheet@.name == name_v,
                sheet@.symbols == symbols_done,
                sheet@.wires == wires_done,
                sheet@.labels == spec_collect_labels(labels_v, i as int),
            decreases label_elements.len() - i,
        {
            match Self::parse_label(&label_elements[i]) {
                Some(l) => {
                    sheet.labels.push(l);
                },
                None => {},
            }
            proof {
                assert(sheet@.labels =~= spec_collect_labels(labels_v, i as int + 1));
            }
            i = i + 1;
        }

        let net_elements = parser.find_elements("net");
        let ghost nets_v = net_elements.deep_view();
        let ghost labels0 = sheet@.labels;
        proof {
            assert(sheet@.labels =~= labels0 + spec_collect_nets(nets_v, 0));
        }
        let mut i: usize = 0;
        while i < net_elements.len()
            invariant
                nets_v == net_elements.deep_view(),
                0 <= i <= net_elements.len(),
                sheet@.name == name_v,
                sheet@.symbols == symbols_done,
                sheet@.wires == wires_done,
                sheet@.labels == labels0 + spec_collect_nets(nets_v, i as int),
            decreases net_elements.len() - i,
        {
            let ghost before = sheet@.labels;
            match Self::parse_net(&net_elements[i]) {
                Some(l) => {
                    let ghost lv = l@;
                    sheet.labels.push(l);
                    proof {
                        assert(sheet@.labels =~= before.push(lv));
                        assert(opt_seq(spec_parse_net(nets_v[i as int])) =~= seq![lv]);
                    }
                },
                None => {
                    proof {
                        assert(opt_seq(spec_parse_net(nets_v[i as int])) =~= Seq::<
                            NetLabelView,
                        >::empty());
                    }
                },
            }
            proof {
                assert(spec_collect_nets(nets_v, i as int + 1) =~= spec_collect_nets(
                    nets_v,
                    i as int,
                ) + opt_seq(spec_parse_net(nets_v[i as int])));
                assert(sheet@.labels =~= labels0 + spec_collect_nets(nets_v, i as int + 1));
            }
            i = i + 1;
        }

        proof {
            assert(sheet@ =~= spec_import_eagle(content@));
        }
        Ok(sheet)
    }

    /// Parse a `part` element into a symbol.
    pub fn parse_part(element: &XmlElement) -> (r: Option<PlacedSymbol>)
        ensures
            match r {
                Some(s) => spec_parse_part(element@) == Some(s@),
                None => spec_parse_part(element@) is None,
            },
    {
        let name = match element.attributes.get("name") {
            Some(n) => n,
            None => {
                return None;
            },
        };
        let library = match element.attributes.get("library") {
            Some(l) => l,
            None => String::new(),
        };
        let deviceset = match element.attributes.get("deviceset") {
            Some(d) => d,
            None => String::new(),
        };
        let value = match element.attributes.get("value") {
            Some(v) => v,
            None => crate::props::clone_string(&deviceset),
        };
        Some(
            PlacedSymbol::new(
                name.as_str(),
                value.as_str(),
                library.as_str(),
                deviceset.as_str(),
            ),
        )
    }

    /// Parse an `instance` element: a placement for an already-listed part.
    pub fn parse_instance(element: &XmlElement, _parts: &[PlacedSymbol]) -> (r: Option<
        PlacedSymbol,
    >)
        ensures
            match r {
                Some(s) => spec_parse_instance(element@) == Some(s@),
                None => spec_parse_instance(element@) is None,
            },
    {
        let part_name = match element.attributes.get("part") {
            Some(p) => p,
            None => {
                return None;
            },
        };
        let x = attr_scaled_or_zero(element, "x", 6);
        let y = attr_scaled_or_zero(element, "y", 6);
        let rotation = match element.attributes.get("rot") {
            Some(r) => Self::parse_rotation(r.as_str()),
            None => 0,
        };
        proof {
            reveal_strlit("");
            assert(""@ =~= Seq::<char>::empty());
        }
        Some(PlacedSymbol::new(part_name.as_str(), "", "", "").at(x, y).rotated(rotation))
    }

    /// Parse a rotation text such as `R90`, `R180` or `MR90`, in
    /// millidegrees.
    pub fn parse_rotation(rot: &str) -> (r: i64)
        ensures
            r as int == spec_parse_rotation(rot@),
    {
        let chars = str_chars(rot);
        let mut a: usize = 0;
        while a < chars.len() && chars[a] == 'M'
            invariant
                0 <= a <= chars@.len(),
                chars@ == rot@,
                spec_skip_char(rot@, 0, 'M') == spec_skip_char(rot@, a as int, 'M'),
            decreases chars.len() - a,
        {
            a = a + 1;
        }
        let mut b: usize = a;
        while b < chars.len() && chars[b] == 'R'
            invariant
                a <= b <= chars@.len(),
                chars@ == rot@,
                spec_skip_char(rot@, a as int, 'R') == spec_skip_char(rot@, b as int, 'R'),
            decreases chars.len() - b,
        {
            b = b + 1;
        }
        let rest = vec_range(chars.as_slice(), b, chars.len());
        match parse_scaled(rest.as_slice(), 3) {
            Some(v) => v,
            None => 0,
        }
    }

    /// Parse a `wire` element.
    pub fn parse_wire(element: &XmlElement) -> (r: Option<Wire>)
        ensures
            match r {
                Some(w) => spec_parse_wire(element@) == Some(w),
                None => spec_parse_wire(element@) is None,
            },
    {
        let x1 = match attr_scaled(element, "x1", 6) {
            Some(v) => v,
            None => {
                return None;
            },
        };
        let y1 = match attr_scaled(element, "y1", 6) {
            Some(v) => v,
            None => {
                return None;
            },
        };
        let x2 = match attr_scaled(element, "x2", 6) {
            Some(v) => v,
            None => {
                return None;
            },
        };
        let y2 = match attr_scaled(element, "y2", 6) {
            Some(v) => v,
            None => {
                return None;
            },
        };
        Some(Wire::new(Point2D::new(x1, y1), Point2D::new(x2, y2)))
    }

    /// Parse a `label` element.
    pub fn parse_label(element: &XmlElement) -> (r: Option<NetLabel>)
        ensures
            match r {
                Some(l) => spec_parse_label(element@) == Some(l@),
                None => spec_parse_label(element@) is None,
            },
    {
        let x = attr_scaled_or_zero(element, "x", 6);
        let y = attr_scaled_or_zero(element, "y", 6);
        let name = match element.content {
            Some(ref c) => crate::props::clone_string(c),
            None => match element.attributes.get("xref") {
                Some(x_ref) => x_ref,
                None => String::new(),
            },
        };
        if name.as_str().is_empty() {
            return None;
        }
        Some(NetLabel::new(name, Point2D::new(x, y)))
    }

    /// Parse a `net` element.
    pub fn parse_net(element: &XmlElement) -> (r: Option<NetLabel>)
        ensures
            match r {
                Some(l) => spec_parse_net(element@) == Some(l@),
                None => spec_parse_net(element@) is None,
            },
    {
        let name = match element.attributes.get("name") {
            Some(n) => n,
            None => {
                return None;
            },
        };
        let x = attr_scaled_or_zero(element, "x", 6);
        let y = attr_scaled_or_zero(element, "y", 6);
        Some(NetLabel::new(name, Point2D::new(x, y)))
    }
}

/// Move and rotate the first symbol with the given reference, if any.
fn update_symbol_placement(
    symbols: &mut Vec<PlacedSymbol>,
    reference: &String,
    position: Point2D,
    rotation: i64,
)
    ensures
        final(symbols).deep_view() == spec_update_first(
            old(symbols).deep_view(),
            reference@,
            position,
            rotation as int,
            0,
        ),
{
    let ghost syms0 = symbols.deep_view();
    let mut idx: usize = 0;
    while idx < symbols.len()
        invariant
            syms0 == old(symbols).deep_view(),
            symbols.deep_view() == syms0,
            0 <= idx <= symbols.len(),
            spec_update_first(syms0, reference@, position, rotation as int, 0)
                == spec_update_first(syms0, reference@, position, rotation as int, idx as int),
        decreases symbols.len() - idx,
    {
        if crate::props::str_eq_string(reference.as_str(), &symbols[idx].reference) {
            let mut existing = symbols.remove(idx);
            existing.position = position;
            existing.rotation = rotation;
            symbols.insert(idx, existing);
            proof {
                assert(symbols.deep_view() =~= spec_update_first(
                    syms0,
                    reference@,
                    position,
                    rotation as int,
                    idx as int,
                ));
            }
            return ;
        }
        idx = idx + 1;
    }
}



/// Eagle PCB importer: parses `.brd` document text (Eagle XML).
pub struct EaglePcbImporter;

impl EaglePcbImporter {
    /// Import a board from document text. Only the XML envelope is
    /// recognised; the layout starts empty.
    pub fn import_from_string(content: &str) -> (r: EagleResult<Layout>)
        ensures
            match r {
                Ok(l) => spec_eagle_xml(content@) && l@ == (LayoutView {
                    traces: Seq::<TraceView>::empty(),
                    vias: Seq::<ViaView>::empty(),
                    components: Seq::<PlacedComponentView>::empty(),
                    outline: None,
                }),
                Err(e) => !spec_eagle_xml(content@) && match e {
                    EagleError::InvalidFormat(m) => m@ == "Not an XML file"@,
                    _ => false,
                },
            },
    {
        let chars = str_chars(content);
        let t = skip_spaces(chars.as_slice(), 0);
        let is_xml = starts_with_at(chars.as_slice(), t, "<?xml") || starts_with_at(
            chars.as_slice(),
            t,
            "<eagle",
        );
        if !is_xml {
            return Err(EagleError::InvalidFormat(String::from_str("Not an XML file")));
        }
        Ok(Layout::new())
    }
}


} // verus!
