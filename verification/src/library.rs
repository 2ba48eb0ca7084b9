//! Component library model: a unified catalog of symbols, footprints and
//! combined components, with search, quality validation and (in
//! [`crate::browser`]) a multi-library browser.
//!
//! Identifiers come from a trusted UUID wrapper and timestamps from a trusted
//! clock wrapper; nothing is promised of their values. Lengths are
//! nanometres, angles millidegrees.

use vstd::prelude::*;
use vstd::string::*;
use crate::outside::{fresh_uuid, lower_of, lowercase, now_timestamp_millis};
use crate::text::{find_chars, spec_find, str_chars};

verus! {

/// A hardware domain a library can serve.
#[derive(Debug, Clone, Copy, PartialEq, Eq, Structural)]
pub enum HardwareDomain {
    Pcb,
    Ic,
    Packaging,
    Mems,
    Rf,
}

/// Component type in a library.
#[derive(Debug, Clone, Copy, PartialEq, Eq, Structural)]
pub enum ComponentType {
    /// Schematic symbol
    Symbol,
    /// Physical footprint
    Footprint,
    /// Standard cell
    Cell,
    /// Quantum gate
    Gate,
    /// MEMS structure
    Structure,
    /// Die IP
    Die,
    /// Combined symbol and footprint
    Component,
}

/// Electrical type of a pin.
#[derive(Debug, Clone, Copy, PartialEq, Eq, Structural)]
pub enum PinElectricalType {
    Input,
    Output,
    Bidirectional,
    TriState,
    Passive,
    Power,
    Ground,
    OpenCollector,
    OpenEmitter,
    NotConnected,
    Unspecified,
}

impl Default for PinElectricalType {
    /// Pins are passive unless stated otherwise.
    fn default() -> (r: PinElectricalType)
        ensures
            r == PinElectricalType::Passive,
    {
        PinElectricalType::Passive
    }
}

/// Pin shape.
#[derive(Debug, Clone, Copy, PartialEq, Eq, Structural)]
pub enum PinShape {
    Line,
    Inverted,
    Clock,
    InvertedClock,
    InputLow,
    ClockLow,
    OutputLow,
    EdgeClockHigh,
    NonLogic,
}

impl Default for PinShape {
    /// Plain line pins unless stated otherwise.
    fn default() -> (r: PinShape)
        ensures
            r == PinShape::Line,
    {
        PinShape::Line
    }
}

/// Pad shape.
#[derive(Debug, Clone, Copy, PartialEq, Eq, Structural)]
pub enum PadShape {
    Circle,
    Rectangle,
    Oval,
    RoundRect,
    Trapezoid,
    Custom,
}

/// Graphic primitive for symbol drawing; lengths in nanometres, angles in
/// millidegrees.
#[derive(Debug, Clone, PartialEq)]
pub enum GraphicPrimitive {
    Line { x1: i64, y1: i64, x2: i64, y2: i64, width: i64 },
    Rectangle { x: i64, y: i64, width: i64, height: i64, fill: bool },
    Circle { x: i64, y: i64, radius: i64, fill: bool },
    Arc { x: i64, y: i64, radius: i64, start_angle: i64, end_angle: i64 },
    Polyline { points: Vec<(i64, i64)>, width: i64 },
    Text { x: i64, y: i64, text: String, size: i64 },
}

/// Pin definition in a symbol.
#[derive(Debug, Clone, PartialEq)]
pub struct SymbolPinDef {
    /// Pin number
    pub number: String,
    /// Pin name
    pub name: String,
    /// Position relative to the symbol origin, nanometres
    pub x: i64,
    pub y: i64,
    /// Pin length, nanometres
    pub length: i64,
    /// Orientation in millidegrees
    pub orientation: i64,
    pub electrical_type: PinElectricalType,
    pub shape: PinShape,
}

/// The default number of units in a symbol.
pub fn default_one() -> (r: u32)
    ensures
        r == 1,
{
    1
}

/// Symbol data for schematic symbols.
#[derive(Debug, Clone, PartialEq)]
pub struct SymbolData {
    pub pins: Vec<SymbolPinDef>,
    pub graphics: Vec<GraphicPrimitive>,
    /// Reference designator prefix, e.g. `R`, `C`, `U`
    pub reference_prefix: String,
    pub default_value: Option<String>,
    /// Number of units for multi-unit symbols
    pub units: u32,
}

/// Pad definition in a footprint.
#[derive(Debug, Clone, PartialEq)]
pub struct PadDef {
    /// Pad number, matching a symbol pin
    pub number: String,
    pub x: i64,
    pub y: i64,
    pub shape: PadShape,
    pub width: i64,
    pub height: i64,
    /// Drill hole for through-hole pads
    pub drill: Option<i64>,
    pub layers: Vec<String>,
}

/// Courtyard definition.
#[derive(Debug, Clone, Copy, PartialEq, Eq, Structural)]
pub struct CourtyardDef {
    pub x: i64,
    pub y: i64,
    pub width: i64,
    pub height: i64,
}

/// Footprint data for physical footprints.
#[derive(Debug, Clone, PartialEq)]
pub struct FootprintData {
    pub pads: Vec<PadDef>,
    pub silkscreen: Vec<GraphicPrimitive>,
    pub courtyard: Option<CourtyardDef>,
    pub model_offset: Option<(i64, i64, i64)>,
    pub model_rotation: Option<(i64, i64, i64)>,
}

/// A typed property value.
#[derive(Debug, Clone, PartialEq)]
pub enum PropertyValue {
    Text(String),
    Number(i64),
    Boolean(bool),
}

/// Quality settings for library validation.
#[derive(Debug, Clone, Copy, PartialEq, Eq, Structural)]
pub struct QualitySettings {
    pub require_description: bool,
    pub require_keywords: bool,
    pub require_datasheet: bool,
    pub require_3d_model: bool,
}

impl Default for QualitySettings {
    /// Only descriptions are required by default.
    fn default() -> (r: QualitySettings)
        ensures
            r == (QualitySettings {
                require_description: true,
                require_keywords: false,
                require_datasheet: false,
                require_3d_model: false,
            }),
    {
        QualitySettings {
            require_description: true,
            require_keywords: false,
            require_datasheet: false,
            require_3d_model: false,
        }
    }
}

/// Library metadata.
#[derive(Debug, Clone, PartialEq)]
pub struct LibraryMetadata {
    pub name: String,
    /// Version (semver)
    pub version: String,
    pub author: Option<String>,
    pub license: Option<String>,
    pub description: Option<String>,
    /// Supported domains
    pub domains: Vec<HardwareDomain>,
}

/// A component in a library.
#[derive(Debug, Clone, PartialEq)]
pub struct LibraryComponent {
    /// Unique identifier (a freshly drawn UUID value)
    pub id: u128,
    pub name: String,
    pub component_type: ComponentType,
    pub description: Option<String>,
    /// Search keywords
    pub keywords: Vec<String>,
    /// Datasheet URL
    pub datasheet: Option<String>,
    /// Documentation URL
    pub documentation: Option<String>,
    /// Path of a 3D model
    pub model_3d: Option<String>,
    pub symbol: Option<SymbolData>,
    pub footprint: Option<FootprintData>,
    /// Custom properties
    pub properties: Vec<(String, PropertyValue)>,
    /// Creation time, milliseconds since the Unix epoch
    pub created: i64,
    /// Last modification time, milliseconds since the Unix epoch
    pub modified: i64,
}

/// Mathematical value of a [`LibraryComponent`]: the catalog fields the
/// library's contracts speak of. Symbol and footprint payloads ride along
/// outside the view.
#[verifier::ext_equal]
pub ghost struct LibraryComponentView {
    pub id: u128,
    pub name: Seq<char>,
    pub component_type: ComponentType,
    pub description: Option<Seq<char>>,
    pub keywords: Seq<Seq<char>>,
    pub datasheet: Option<Seq<char>>,
    pub documentation: Option<Seq<char>>,
    pub model_3d: Option<Seq<char>>,
    pub created: int,
    pub modified: int,
}

impl View for LibraryComponent {
    type V = LibraryComponentView;

    open spec fn view(&self) -> LibraryComponentView {
        LibraryComponentView {
            id: self.id,
            name: self.name@,
            component_type: self.component_type,
            description: match self.description {
                Some(ref d) => Some(d@),
                None => None,
            },
            keywords: self.keywords.deep_view(),
            datasheet: match self.datasheet {
                Some(ref d) => Some(d@),
                None => None,
            },
            documentation: match self.documentation {
                Some(ref d) => Some(d@),
                None => None,
            },
            model_3d: match self.model_3d {
                Some(ref m) => Some(m@),
                None => None,
            },
            created: self.created as int,
            modified: self.modified as int,
        }
    }
}

impl DeepView for LibraryComponent {
    type V = LibraryComponentView;

    open spec fn deep_view(&self) -> LibraryComponentView {
        self.view()
    }
}

impl LibraryComponent {
    /// A fresh component: new identifier, both timestamps set to now,
    /// everything optional absent.
    pub fn new(name: &str, component_type: ComponentType) -> (c: LibraryComponent)
        ensures
            c@.name == name@,
            c@.component_type == component_type,
            c@.description is None,
            c@.keywords == Seq::<Seq<char>>::empty(),
            c@.datasheet is None,
            c@.documentation is None,
            c@.model_3d is None,
            c@.created == c@.modified,
    {
        let now = now_timestamp_millis();
        let c = LibraryComponent {
            id: fresh_uuid(),
            name: String::from_str(name),
            component_type,
            description: None,
            keywords: Vec::new(),
            datasheet: None,
            documentation: None,
            model_3d: None,
            symbol: None,
            footprint: None,
            properties: Vec::new(),
            created: now,
            modified: now,
        };
        proof {
            assert(c@.keywords =~= Seq::<Seq<char>>::empty());
        }
        c
    }

    /// The same component with a description.
    pub fn with_description(self, description: &str) -> (c: LibraryComponent)
        ensures
            c@ == (LibraryComponentView { description: Some(description@), ..self@ }),
    {
        LibraryComponent { description: Some(String::from_str(description)), ..self }
    }

    /// The same component with its keywords replaced.
    pub fn with_keywords(self, keywords: Vec<String>) -> (c: LibraryComponent)
        ensures
            c@ == (LibraryComponentView { keywords: keywords.deep_view(), ..self@ }),
    {
        LibraryComponent { keywords, ..self }
    }

    /// The same component with a datasheet link.
    pub fn with_datasheet(self, url: &str) -> (c: LibraryComponent)
        ensures
            c@ == (LibraryComponentView { datasheet: Some(url@), ..self@ }),
    {
        LibraryComponent { datasheet: Some(String::from_str(url)), ..self }
    }
}

// ---------------------------------------------------------------------------
// Search
// ---------------------------------------------------------------------------

/// One sequence occurs inside another.
pub open spec fn contains_seq(hay: Seq<char>, needle: Seq<char>) -> bool {
    spec_find(hay, needle, 0) is Some
}

/// Whether a component matches a lower-cased query: by name, description or
/// any keyword, all compared in lower case.
pub open spec fn component_matches(c: LibraryComponentView, query_lower: Seq<char>) -> bool {
    ||| contains_seq(lower_of(c.name), query_lower)
    ||| match c.description {
        Some(d) => contains_seq(lower_of(d), query_lower),
        None => false,
    }
    ||| exists|k: int| 0 <= k < c.keywords.len() && contains_seq(
        lower_of(#[trigger] c.keywords[k]),
        query_lower,
    )
}

/// Whether one string occurs in another, both lower-cased.
fn contains_lowered(hay: &String, query_lower: &Vec<char>) -> (r: bool)
    ensures
        r == contains_seq(lower_of(hay@), query_lower@),
{
    let hay_lower = lowercase(hay.as_str());
    let hay_chars = str_chars(hay_lower.as_str());
    match find_chars(hay_chars.as_slice(), query_lower.as_slice(), 0) {
        Some(_) => true,
        None => false,
    }
}

/// Whether a component matches a lower-cased query, by comparison.
fn matches_query(c: &LibraryComponent, query_lower: &Vec<char>) -> (r: bool)
    ensures
        r == component_matches(c@, query_lower@),
{
    if contains_lowered(&c.name, query_lower) {
        return true;
    }
    match c.description {
        Some(ref d) => {
            if contains_lowered(d, query_lower) {
                return true;
            }
        },
        None => {},
    }
    let mut k: usize = 0;
    while k < c.keywords.len()
        invariant
            0 <= k <= c.keywords.len(),
            forall|m: int|
                0 <= m < k ==> !contains_seq(lower_of(#[trigger] c@.keywords[m]), query_lower@),
            !contains_seq(lower_of(c@.name), query_lower@),
            match c@.description {
                Some(d) => !contains_seq(lower_of(d), query_lower@),
                None => true,
            },
        decreases c.keywords.len() - k,
    {
        if contains_lowered(&c.keywords[k], query_lower) {
            proof {
                assert(contains_seq(lower_of(c@.keywords[k as int]), query_lower@));
            }
            return true;
        }
        k = k + 1;
    }
    false
}

// ---------------------------------------------------------------------------
// Validation
// ---------------------------------------------------------------------------

/// Validation severity.
#[derive(Debug, Clone, Copy, PartialEq, Eq, Structural)]
pub enum ValidationSeverity {
    Error,
    Warning,
    Info,
}

/// A validation issue.
#[derive(Debug, Clone, PartialEq)]
pub struct ValidationIssue {
    pub component: String,
    pub severity: ValidationSeverity,
    pub message: String,
}

/// Mathematical value of a [`ValidationIssue`].
#[verifier::ext_equal]
pub ghost struct ValidationIssueView {
    pub component: Seq<char>,
    pub severity: ValidationSeverity,
    pub message: Seq<char>,
}

impl View for ValidationIssue {
    type V = ValidationIssueView;

    open spec fn view(&self) -> ValidationIssueView {
        ValidationIssueView {
            component: self.component@,
            severity: self.severity,
            message: self.message@,
        }
    }
}

impl DeepView for ValidationIssue {
    type V = ValidationIssueView;

    open spec fn deep_view(&self) -> ValidationIssueView {
        self.view()
    }
}

/// The issues one component raises under the given quality settings, in
/// order: description, keywords, datasheet.
pub open spec fn spec_component_issues(c: LibraryComponentView, q: QualitySettings) -> Seq<
    ValidationIssueView,
> {
    (if q.require_description && c.description is None {
        seq![
            ValidationIssueView {
                component: c.name,
                severity: ValidationSeverity::Warning,
                message: "Missing description"@,
            },
        ]
    } else {
        Seq::empty()
    }) + (if q.require_keywords && c.keywords.len() == 0 {
        seq![
            ValidationIssueView {
                component: c.name,
                severity: ValidationSeverity::Warning,
                message: "Missing keywords"@,
            },
        ]
    } else {
        Seq::empty()
    }) + (if q.require_datasheet && c.datasheet is None {
        seq![
            ValidationIssueView {
                component: c.name,
                severity: ValidationSeverity::Info,
                message: "Missing datasheet link"@,
            },
        ]
    } else {
        Seq::empty()
    })
}

/// Issues of the first `i` components, in order.
pub open spec fn spec_validate(
    cs: Seq<LibraryComponentView>,
    q: QualitySettings,
    i: int,
) -> Seq<ValidationIssueView>
    decreases i,
{
    if i <= 0 {
        Seq::empty()
    } else {
        spec_validate(cs, q, i - 1) + spec_component_issues(cs[i - 1], q)
    }
}

/// Number of issues of one severity.
pub open spec fn count_issues(issues: Seq<ValidationIssueView>, s: ValidationSeverity) -> nat {
    issues.filter(|i: ValidationIssueView| i.severity == s).len()
}

/// Library validation report.
#[derive(Debug, Clone, PartialEq)]
pub struct LibraryValidationReport {
    pub library: String,
    pub issues: Vec<ValidationIssue>,
}

impl LibraryValidationReport {
    /// A report is valid when it holds no `Error` issue.
    pub fn is_valid(&self) -> (r: bool)
        ensures
            r == (count_issues(self.issues.deep_view(), ValidationSeverity::Error) == 0),
    {
        self.count_by_severity(ValidationSeverity::Error) == 0
    }

    /// How many `Error` issues the report holds.
    pub fn error_count(&self) -> (n: usize)
        ensures
            n == count_issues(self.issues.deep_view(), ValidationSeverity::Error),
    {
        self.count_by_severity(ValidationSeverity::Error)
    }

    /// How many `Warning` issues the report holds.
    pub fn warning_count(&self) -> (n: usize)
        ensures
            n == count_issues(self.issues.deep_view(), ValidationSeverity::Warning),
    {
        self.count_by_severity(ValidationSeverity::Warning)
    }

    /// How many issues of one severity the report holds.
    pub fn count_by_severity(&self, severity: ValidationSeverity) -> (n: usize)
        ensures
            n == count_issues(self.issues.deep_view(), severity),
    {
        let pred = |i: ValidationIssueView| i.severity == severity;
        let mut n: usize = 0;
        let mut k: usize = 0;
        let ghost issues = self.issues.deep_view();
        while k < self.issues.len()
            invariant
                issues == self.issues.deep_view(),
                0 <= k <= self.issues.len(),
                n <= k,
                n == count_issues(issues.take(k as int), severity),
            decreases self.issues.len() - k,
        {
            proof {
                assert(issues.take(k as int + 1) =~= issues.take(k as int).push(
                    issues[k as int],
                ));
                issues.take(k as int).lemma_filter_push(
                    issues[k as int],
                    |i: ValidationIssueView| i.severity == severity,
                );
            }
            let matches = match (self.issues[k].severity, severity) {
                (ValidationSeverity::Error, ValidationSeverity::Error) => true,
                (ValidationSeverity::Warning, ValidationSeverity::Warning) => true,
                (ValidationSeverity::Info, ValidationSeverity::Info) => true,
                _ => false,
            };
            if matches {
                n = n + 1;
            }
            k = k + 1;
        }
        proof {
            assert(issues.take(self.issues.len() as int) =~= issues);
        }
        n
    }
}

/// Library search query.
#[derive(Debug, Clone, PartialEq)]
pub struct LibrarySearchQuery {
    /// Text search
    pub text: Option<String>,
    /// Filter by domain
    pub domain: Option<HardwareDomain>,
    /// Filter by component type
    pub component_type: Option<ComponentType>,
    /// Has a 3D model
    pub has_3d_model: Option<bool>,
    /// Has a datasheet
    pub has_datasheet: Option<bool>,
    /// Maximum results
    pub limit: Option<usize>,
}

impl Default for LibrarySearchQuery {
    /// No text, no filters, no limit.
    fn default() -> (r: LibrarySearchQuery)
        ensures
            r.text is None,
            r.domain is None,
            r.component_type is None,
            r.has_3d_model is None,
            r.has_datasheet is None,
            r.limit is None,
    {
        LibrarySearchQuery {
            text: None,
            domain: None,
            component_type: None,
            has_3d_model: None,
            has_datasheet: None,
            limit: None,
        }
    }
}

// ---------------------------------------------------------------------------
// The library itself
// ---------------------------------------------------------------------------

/// A component library.
#[derive(Debug, Clone, PartialEq)]
pub struct Library {
    pub metadata: LibraryMetadata,
    pub components: Vec<LibraryComponent>,
    /// Dependencies on other libraries: name and version
    pub dependencies: Vec<(String, String)>,
    pub quality: QualitySettings,
}

/// First index at or after `i` of a component with the given name.
pub open spec fn spec_find_by_name(cs: Seq<LibraryComponentView>, name: Seq<char>, i: int) -> Option<
    int,
>
    decreases cs.len() - i,
{
    if i < 0 || i >= cs.len() {
        None
    } else if cs[i].name == name {
        Some(i)
    } else {
        spec_find_by_name(cs, name, i + 1)
    }
}

impl Library {
    /// An empty PCB library with the given name and default quality.
    pub fn new(name: &str) -> (l: Library)
        ensures
            l.metadata.name@ == name@,
            l.metadata.version@ == "1.0.0"@,
            l.metadata.author is None,
            l.metadata.license is None,
            l.metadata.description is None,
            l.metadata.domains@.len() == 1,
            l.components.deep_view() == Seq::<LibraryComponentView>::empty(),
            l.dependencies@.len() == 0,
            l.quality == (QualitySettings {
                require_description: true,
                require_keywords: false,
                require_datasheet: false,
                require_3d_model: false,
            }),
    {
        let mut domains: Vec<HardwareDomain> = Vec::new();
        domains.push(HardwareDomain::Pcb);
        let l = Library {
            metadata: LibraryMetadata {
                name: String::from_str(name),
                version: String::from_str("1.0.0"),
                author: None,
                license: None,
                description: None,
                domains,
            },
            components: Vec::new(),
            dependencies: Vec::new(),
            quality: QualitySettings {
                require_description: true,
                require_keywords: false,
                require_datasheet: false,
                require_3d_model: false,
            },
        };
        proof {
            assert(l.components.deep_view() =~= Seq::<LibraryComponentView>::empty());
        }
        l
    }

    /// Add a component to the library.
    pub fn add_component(&mut self, component: LibraryComponent)
        ensures
            final(self).components.deep_view() == old(self).components.deep_view().push(
                component@,
            ),
            final(self).metadata == old(self).metadata,
            final(self).quality == old(self).quality,
    {
        let ghost cv = component@;
        self.components.push(component);
        proof {
            assert(self.components.deep_view() =~= old(self).components.deep_view().push(cv));
        }
    }

    /// Find the first component with the given name.
    pub fn find_by_name(&self, name: &str) -> (r: Option<&LibraryComponent>)
        ensures
            match r {
                Some(c) => {
                    &&& spec_find_by_name(self.components.deep_view(), name@, 0) is Some
                    &&& c@ == self.components.deep_view()[spec_find_by_name(
                        self.components.deep_view(),
                        name@,
                        0,
                    ).unwrap()]
                },
                None => spec_find_by_name(self.components.deep_view(), name@, 0) is None,
            },
    {
        let ghost cs = self.components.deep_view();
        let mut i: usize = 0;
        while i < self.components.len()
            invariant
                cs == self.components.deep_view(),
                0 <= i <= self.components.len(),
                spec_find_by_name(cs, name@, 0) == spec_find_by_name(cs, name@, i as int),
            decreases self.components.len() - i,
        {
            if crate::props::str_eq_string(name, &self.components[i].name) {
                return Some(&self.components[i]);
            }
            i = i + 1;
        }
        None
    }

    /// Search components by name, description or keyword, case-insensitively.
    pub fn search(&self, query: &str) -> (r: Vec<&LibraryComponent>)
        ensures
            r.deep_view() == self.components.deep_view().filter(
                |c: LibraryComponentView| component_matches(c, lower_of(query@)),
            ),
    {
        let query_string = lowercase(query);
        let query_lower = str_chars(query_string.as_str());
        let ghost cs = self.components.deep_view();
        let ghost pred = |c: LibraryComponentView| component_matches(c, lower_of(query@));
        let mut results: Vec<&LibraryComponent> = Vec::new();
        let mut i: usize = 0;
        proof {
            assert(cs.take(0) =~= Seq::<LibraryComponentView>::empty());
            Seq::<LibraryComponentView>::empty().lemma_all_neg_filter_empty(pred);
            assert(results.deep_view() =~= cs.take(0).filter(pred));
        }
        while i < self.components.len()
            invariant
                cs == self.components.deep_view(),
                query_lower@ == lower_of(query@),
                pred == (|c: LibraryComponentView| component_matches(c, lower_of(query@))),
                0 <= i <= self.components.len(),
                results.deep_view() == cs.take(i as int).filter(pred),
            decreases self.components.len() - i,
        {
            proof {
                assert(cs.take(i as int + 1) =~= cs.take(i as int).push(cs[i as int]));
                cs.take(i as int).lemma_filter_push(cs[i as int], pred);
            }
            if matches_query(&self.components[i], &query_lower) {
                let ghost prev = results.deep_view();
                results.push(&self.components[i]);
                proof {
                    assert(results.deep_view() =~= prev.push(cs[i as int]));
                }
            }
            i = i + 1;
        }
        proof {
            assert(cs.take(self.components.len() as int) =~= cs);
        }
        results
    }

    /// Validate the library against its quality settings.
    pub fn validate(&self) -> (r: LibraryValidationReport)
        ensures
            r.library@ == self.metadata.name@,
            r.issues.deep_view() == spec_validate(
                self.components.deep_view(),
                self.quality,
                self.components.deep_view().len() as int,
            ),
    {
        let ghost cs = self.components.deep_view();
        let mut issues: Vec<ValidationIssue> = Vec::new();
        let mut i: usize = 0;
        proof {
            assert(issues.deep_view() =~= Seq::<ValidationIssueView>::empty());
        }
        while i < self.components.len()
            invariant
                cs == self.components.deep_view(),
                0 <= i <= self.components.len(),
                issues.deep_view() == spec_validate(cs, self.quality, i as int),
            decreases self.components.len() - i,
        {
            let component = &self.components[i];
            if self.quality.require_description && component.description.is_none() {
                issues.push(
                    ValidationIssue {
                        component: crate::props::clone_string(&component.name),
                        severity: ValidationSeverity::Warning,
                        message: String::from_str("Missing description"),
                    },
                );
            }
            if self.quality.require_keywords && component.keywords.len() == 0 {
                issues.push(
                    ValidationIssue {
                        component: crate::props::clone_string(&component.name),
                        severity: ValidationSeverity::Warning,
                        message: String::from_str("Missing keywords"),
                    },
                );
            }
            if self.quality.require_datasheet && component.datasheet.is_none() {
                issues.push(
                    ValidationIssue {
                        component: crate::props::clone_string(&component.name),
                        severity: ValidationSeverity::Info,
                        message: String::from_str("Missing datasheet link"),
                    },
                );
            }
            proof {
                assert(issues.deep_view() =~= spec_validate(cs, self.quality, i as int + 1));
            }
            i = i + 1;
        }
        LibraryValidationReport { library: crate::props::clone_string(&self.metadata.name), issues }
    }
}

} // verus!
