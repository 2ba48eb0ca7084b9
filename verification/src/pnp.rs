//! Pick-and-place (PnP) file generation: component placement reports for SMT
//! assembly machines.
//!
//! Entry positions are integers in millionths of the configured output unit
//! (so six fraction digits are carried exactly); rotations are millidegrees,
//! normalised to one turn. Entries are sorted by reference designator in
//! natural order with a stable insertion sort, specified exactly.

use vstd::prelude::*;
use vstd::string::*;
use core::cmp::Ordering;
use crate::fmt::{push_char, push_fixed, push_str_part, push_usize, spec_fixed_string,
    spec_i64_string, pow10_int};
use crate::layout::{ComponentLayer, Layout, LayoutView, PlacedComponentView};
use crate::outside::{natural_cmp, natural_compare};
use crate::pcb_drc::{pos_x_nm, pos_y_nm, lemma_pos_nm_in_range};
use crate::props::clone_string;

verus! {

/// PnP generation errors.
#[derive(Debug, Clone, PartialEq)]
pub enum PnpError {
    /// No components found in the layout
    NoComponents,
    /// I/O error during export, described as text
    IoError(String),
}

/// The description an error renders to.
pub open spec fn spec_pnp_error_message(e: PnpError) -> Seq<char> {
    match e {
        PnpError::NoComponents => "No components found in layout"@,
        PnpError::IoError(m) => "IO error: "@ + m@,
    }
}

impl PnpError {
    /// Human-readable description of the error.
    pub fn message(&self) -> (r: String)
        ensures
            r@ == spec_pnp_error_message(*self),
    {
        let mut s = String::new();
        match self {
            PnpError::NoComponents => {
                push_str_part(&mut s, "No components found in layout");
            },
            PnpError::IoError(m) => {
                push_str_part(&mut s, "IO error: ");
                push_str_part(&mut s, m.as_str());
            },
        }
        s
    }
}

/// PnP generation result type.
pub type PnpResult<T> = Result<T, PnpError>;

/// PnP output format.
#[derive(Debug, Clone, Copy, PartialEq, Eq, Structural)]
pub enum PnpFormat {
    Csv,
    /// Space-separated columns
    Ascii,
}

impl Default for PnpFormat {
    fn default() -> (r: PnpFormat)
        ensures
            r == PnpFormat::Csv,
    {
        PnpFormat::Csv
    }
}

/// Which board side to include.
#[derive(Debug, Clone, Copy, PartialEq, Eq, Structural)]
pub enum PnpSide {
    Top,
    Bottom,
    Both,
}

impl Default for PnpSide {
    fn default() -> (r: PnpSide)
        ensures
            r == PnpSide::Both,
    {
        PnpSide::Both
    }
}

/// Units for position output.
#[derive(Debug, Clone, Copy, PartialEq, Eq, Structural)]
pub enum PnpUnits {
    Millimeters,
    Inches,
    Mils,
}

impl Default for PnpUnits {
    fn default() -> (r: PnpUnits)
        ensures
            r == PnpUnits::Millimeters,
    {
        PnpUnits::Millimeters
    }
}

/// The unit suffix string.
pub open spec fn spec_suffix(u: PnpUnits) -> Seq<char> {
    match u {
        PnpUnits::Millimeters => "mm"@,
        PnpUnits::Inches => "in"@,
        PnpUnits::Mils => "mil"@,
    }
}

/// A nanometre length expressed in millionths of the given unit, rounding
/// down.
pub open spec fn spec_from_nm(u: PnpUnits, nm: int) -> int {
    match u {
        PnpUnits::Millimeters => nm,
        PnpUnits::Inches => (nm * 10) / 254,
        PnpUnits::Mils => (nm * 5_000) / 127,
    }
}

impl PnpUnits {
    /// Get the unit suffix string.
    pub fn suffix(&self) -> (r: &'static str)
        ensures
            r@ == spec_suffix(*self),
    {
        match self {
            PnpUnits::Millimeters => "mm",
            PnpUnits::Inches => "in",
            PnpUnits::Mils => "mil",
        }
    }

    /// Convert a nanometre length to millionths of this unit.
    pub fn from_nm(&self, nm: i64) -> (r: i64)
        requires
            -25_400_000_000_000_000 <= nm <= 25_400_000_000_000_000,
        ensures
            r as int == spec_from_nm(*self, nm as int),
            -1_000_000_000_000_000_000 <= r <= 1_000_000_000_000_000_000,
    {
        match self {
            PnpUnits::Millimeters => nm,
            PnpUnits::Inches => {
                let wide = nm * 10;
                let r = div_floor_i64(wide, 254);
                proof {
                    lemma_div_bounds(wide as int, 254, 254_000_000_000_000_000);
                }
                r
            },
            PnpUnits::Mils => {
                proof {
                    crate::units::lemma_mul_range(
                        nm as int,
                        5_000,
                        25_400_000_000_000_000,
                        5_000,
                    );
                }
                let wide: i128 = (nm as i128) * 5_000;
                let q = div_floor_i128(wide, 127);
                proof {
                    lemma_div_bounds(wide as int, 127, 127_000_000_000_000_000_000);
                }
                q as i64
            },
        }
    }
}

/// Floor division of an `i64` by a positive divisor.
fn div_floor_i64(a: i64, d: i64) -> (r: i64)
    requires
        d > 0,
        a > i64::MIN,
    ensures
        r as int == (a as int) / (d as int),
{
    if a >= 0 {
        a / d
    } else {
        let t = (-1 - a) / d;
        proof {
            let x = -1 - a as int;
            let dd = d as int;
            let rr = x % dd;
            vstd::arithmetic::div_mod::lemma_fundamental_div_mod(x, dd);
            assert(a as int == (-(t as int) - 1) * dd + (dd - 1 - rr)) by (nonlinear_arith)
                requires
                    x == dd * (t as int) + rr,
                    x == -1 - a as int,
            ;
            vstd::arithmetic::div_mod::lemma_fundamental_div_mod_converse(
                a as int,
                dd,
                -(t as int) - 1,
                dd - 1 - rr,
            );
        }
        -1 - t
    }
}

/// Floor division of an `i128` by a positive divisor.
fn div_floor_i128(a: i128, d: i128) -> (r: i128)
    requires
        d > 0,
        a > i128::MIN,
    ensures
        r as int == (a as int) / (d as int),
{
    if a >= 0 {
        a / d
    } else {
        let t = (-1 - a) / d;
        proof {
            let x = -1 - a as int;
            let dd = d as int;
            let rr = x % dd;
            vstd::arithmetic::div_mod::lemma_fundamental_div_mod(x, dd);
            assert(a as int == (-(t as int) - 1) * dd + (dd - 1 - rr)) by (nonlinear_arith)
                requires
                    x == dd * (t as int) + rr,
                    x == -1 - a as int,
            ;
            vstd::arithmetic::div_mod::lemma_fundamental_div_mod_converse(
                a as int,
                dd,
                -(t as int) - 1,
                dd - 1 - rr,
            );
        }
        -1 - t
    }
}

/// A bounded dividend has a proportionally bounded floor quotient.
proof fn lemma_div_bounds(a: int, d: int, bound: int)
    requires
        d > 0,
        0 <= bound,
        bound % d == 0,
        -bound <= a <= bound,
    ensures
        -(bound / d) <= a / d <= bound / d,
{
    vstd::arithmetic::div_mod::lemma_div_is_ordered(a, bound, d);
    vstd::arithmetic::div_mod::lemma_div_is_ordered(-bound, a, d);
    vstd::arithmetic::div_mod::lemma_fundamental_div_mod(bound, d);
    vstd::arithmetic::div_mod::lemma_fundamental_div_mod(-bound, d);
    assert((-bound) / d == -(bound / d)) by {
        assert(-bound == (-(bound / d)) * d + 0) by (nonlinear_arith)
            requires
                bound == d * (bound / d),
        ;
        vstd::arithmetic::div_mod::lemma_fundamental_div_mod_converse(
            -bound,
            d,
            -(bound / d),
            0,
        );
    }
}

/// The non-negative remainder of a value modulo a full turn (in
/// millidegrees).
fn rem_full_turn(a: i64) -> (r: i64)
    ensures
        r as int == (a as int) % 360_000,
        0 <= r < 360_000,
{
    let wide: i128 = a as i128;
    let q = div_floor_i128(wide, 360_000);
    proof {
        vstd::arithmetic::div_mod::lemma_fundamental_div_mod(wide as int, 360_000);
    }
    let m: i128 = wide - q * 360_000;
    m as i64
}

/// PnP generation configuration.
#[derive(Debug, Clone, PartialEq)]
pub struct PnpConfig {
    pub format: PnpFormat,
    /// Which side or sides to include
    pub side: PnpSide,
    /// Position units
    pub units: PnpUnits,
    /// Include surface-mount components only
    pub smd_only: bool,
    /// Include a header row
    pub include_header: bool,
    /// Decimal precision for coordinates (at most six is carried)
    pub precision: usize,
    /// Negate the Y axis (some machines expect this)
    pub negate_y: bool,
    /// Negate bottom-side rotation (some machines expect this)
    pub negate_bottom_rotation: bool,
}

/// The default for boolean options that start enabled.
pub fn default_true() -> (r: bool)
    ensures
        r,
{
    true
}

/// The default coordinate precision.
pub fn default_precision() -> (r: usize)
    ensures
        r == 4,
{
    4
}

impl Default for PnpConfig {
    /// CSV, both sides, millimetres, four decimals, no axis tricks.
    fn default() -> (r: PnpConfig)
        ensures
            r == (PnpConfig {
                format: PnpFormat::Csv,
                side: PnpSide::Both,
                units: PnpUnits::Millimeters,
                smd_only: true,
                include_header: true,
                precision: 4,
                negate_y: false,
                negate_bottom_rotation: false,
            }),
    {
        PnpConfig {
            format: PnpFormat::Csv,
            side: PnpSide::Both,
            units: PnpUnits::Millimeters,
            smd_only: true,
            include_header: true,
            precision: 4,
            negate_y: false,
            negate_bottom_rotation: false,
        }
    }
}

/// A single pick-and-place entry.
#[derive(Debug, Clone, PartialEq)]
pub struct PnpEntry {
    /// Reference designator
    pub reference: String,
    /// Component value
    pub value: String,
    /// Footprint or package name
    pub footprint: String,
    /// X position, millionths of the configured unit
    pub x: i64,
    /// Y position, millionths of the configured unit
    pub y: i64,
    /// Rotation in millidegrees, within one turn
    pub rotation: i64,
    /// Board side
    pub side: ComponentLayer,
}

/// Mathematical value of a [`PnpEntry`].
#[verifier::ext_equal]
pub ghost struct PnpEntryView {
    pub reference: Seq<char>,
    pub value: Seq<char>,
    pub footprint: Seq<char>,
    pub x: int,
    pub y: int,
    pub rotation: int,
    pub side: ComponentLayer,
}

impl View for PnpEntry {
    type V = PnpEntryView;

    open spec fn view(&self) -> PnpEntryView {
        PnpEntryView {
            reference: self.reference@,
            value: self.value@,
            footprint: self.footprint@,
            x: self.x as int,
            y: self.y as int,
            rotation: self.rotation as int,
            side: self.side,
        }
    }
}

impl DeepView for PnpEntry {
    type V = PnpEntryView;

    open spec fn deep_view(&self) -> PnpEntryView {
        self.view()
    }
}

/// Whether a component passes the side filter.
pub open spec fn side_included(layer: ComponentLayer, side: PnpSide) -> bool {
    match side {
        PnpSide::Top => layer == ComponentLayer::Top,
        PnpSide::Bottom => layer == ComponentLayer::Bottom,
        PnpSide::Both => true,
    }
}

/// The entry one placed component yields under a configuration.
pub open spec fn spec_pnp_entry(
    c: PlacedComponentView,
    units: PnpUnits,
    negate_y: bool,
    negate_bottom_rotation: bool,
) -> PnpEntryView {
    let x = spec_from_nm(units, pos_x_nm(c.position));
    let y0 = spec_from_nm(units, pos_y_nm(c.position));
    let y = if negate_y {
        -y0
    } else {
        y0
    };
    let r0: int = if negate_bottom_rotation && c.layer == ComponentLayer::Bottom {
        if c.rotation == -0x8000_0000_0000_0000 {
            c.rotation
        } else {
            -c.rotation
        }
    } else {
        c.rotation
    };
    PnpEntryView {
        reference: c.reference,
        value: c.value,
        footprint: c.footprint,
        x,
        y,
        rotation: r0 % 360_000,
        side: c.layer,
    }
}

/// The unsorted entries of the first `i` components that pass the side
/// filter.
pub open spec fn spec_pnp_entries(
    cs: Seq<PlacedComponentView>,
    side: PnpSide,
    units: PnpUnits,
    negate_y: bool,
    negate_bottom_rotation: bool,
    i: int,
) -> Seq<PnpEntryView>
    decreases i,
{
    if i <= 0 {
        Seq::empty()
    } else {
        spec_pnp_entries(cs, side, units, negate_y, negate_bottom_rotation, i - 1) + (if side_included(
            cs[i - 1].layer,
            side,
        ) {
            seq![spec_pnp_entry(cs[i - 1], units, negate_y, negate_bottom_rotation)]
        } else {
            Seq::empty()
        })
    }
}

/// Stable insertion of an entry into a reference-sorted sequence.
pub open spec fn spec_insert_pnp(s: Seq<PnpEntryView>, x: PnpEntryView) -> Seq<PnpEntryView>
    decreases s.len(),
{
    if s.len() == 0 {
        seq![x]
    } else if natural_cmp(s.last().reference, x.reference) == Ordering::Greater {
        spec_insert_pnp(s.drop_last(), x).push(s.last())
    } else {
        s.push(x)
    }
}

/// Stable insertion sort of the first `i` entries by reference.
pub open spec fn spec_sort_pnp(s: Seq<PnpEntryView>, i: int) -> Seq<PnpEntryView>
    decreases i,
{
    if i <= 0 {
        Seq::empty()
    } else {
        spec_insert_pnp(spec_sort_pnp(s, i - 1), s[i - 1])
    }
}

/// Number of entries on a given side.
pub open spec fn count_side(es: Seq<PnpEntryView>, layer: ComponentLayer) -> nat {
    es.filter(|e: PnpEntryView| e.side == layer).len()
}

/// Generated pick-and-place report.
#[derive(Debug, Clone, PartialEq)]
pub struct PnpReport {
    pub project_name: String,
    /// Units used for positions
    pub units: PnpUnits,
    pub entries: Vec<PnpEntry>,
    /// Entries on the top side
    pub top_count: usize,
    /// Entries on the bottom side
    pub bottom_count: usize,
}

/// Mathematical value of a [`PnpReport`].
#[verifier::ext_equal]
pub ghost struct PnpReportView {
    pub project_name: Seq<char>,
    pub units: PnpUnits,
    pub entries: Seq<PnpEntryView>,
    pub top_count: int,
    pub bottom_count: int,
}

impl View for PnpReport {
    type V = PnpReportView;

    open spec fn view(&self) -> PnpReportView {
        PnpReportView {
            project_name: self.project_name@,
            units: self.units,
            entries: self.entries.deep_view(),
            top_count: self.top_count as int,
            bottom_count: self.bottom_count as int,
        }
    }
}

/// The sorted entries a layout and configuration denote.
pub open spec fn spec_pnp_report_entries(l: LayoutView, config: PnpConfig) -> Seq<PnpEntryView> {
    let unsorted = spec_pnp_entries(
        l.components,
        config.side,
        config.units,
        config.negate_y,
        config.negate_bottom_rotation,
        l.components.len() as int,
    );
    spec_sort_pnp(unsorted, unsorted.len() as int)
}

/// Insert one entry into a sorted vector, stably.
fn insert_pnp(sorted: &mut Vec<PnpEntry>, x: PnpEntry)
    ensures
        final(sorted).deep_view() == spec_insert_pnp(old(sorted).deep_view(), x@),
{
    let ghost s = sorted.deep_view();
    let ghost xv = x@;
    let mut pos: usize = sorted.len();
    proof {
        assert(s.take(pos as int) =~= s);
        assert(s.skip(pos as int) =~= Seq::<PnpEntryView>::empty());
        assert(spec_insert_pnp(s.take(pos as int), xv) + s.skip(pos as int) =~= spec_insert_pnp(
            s,
            xv,
        ));
    }
    while pos > 0 && matches!(
        natural_compare(sorted[pos - 1].reference.as_str(), x.reference.as_str()),
        Ordering::Greater
    )
        invariant
            s == sorted.deep_view(),
            xv == x@,
            0 <= pos <= s.len(),
            spec_insert_pnp(s, xv) == spec_insert_pnp(s.take(pos as int), xv) + s.skip(
                pos as int,
            ),
        decreases pos,
    {
        proof {
            assert(s.take(pos as int).drop_last() =~= s.take(pos as int - 1));
            assert(spec_insert_pnp(s.take(pos as int - 1), xv).push(s[pos as int - 1]) + s.skip(
                pos as int,
            ) =~= spec_insert_pnp(s.take(pos as int - 1), xv) + s.skip(pos as int - 1));
        }
        pos = pos - 1;
    }
    proof {
        if pos > 0 {
            assert(spec_insert_pnp(s.take(pos as int), xv) =~= s.take(pos as int).push(xv));
        } else {
            assert(s.take(0) =~= Seq::<PnpEntryView>::empty());
        }
    }
    sorted.insert(pos, x);
    proof {
        assert(sorted.deep_view() =~= spec_insert_pnp(s.take(pos as int), xv) + s.skip(
            pos as int,
        ));
    }
}

impl PnpReport {
    /// Generate a PnP report from a layout. Fails exactly when the layout has
    /// no components at all; the side filter may still leave no entries.
    pub fn from_layout(layout: &Layout, config: &PnpConfig, project_name: Option<&str>) -> (r:
        PnpResult<PnpReport>)
        requires
            layout@.wf(),
        ensures
            match r {
                Ok(report) => {
                    let entries = spec_pnp_report_entries(layout@, *config);
                    &&& layout@.components.len() > 0
                    &&& report@.project_name == (match project_name {
                        Some(n) => n@,
                        None => "Untitled"@,
                    })
                    &&& report@.units == config.units
                    &&& report@.entries == entries
                    &&& report@.top_count == count_side(entries, ComponentLayer::Top)
                    &&& report@.bottom_count == count_side(entries, ComponentLayer::Bottom)
                },
                Err(e) => layout@.components.len() == 0 && e == PnpError::NoComponents,
            },
    {
        if layout.components.len() == 0 {
            return Err(PnpError::NoComponents);
        }
        let project = match project_name {
            Some(n) => String::from_str(n),
            None => String::from_str("Untitled"),
        };
        let ghost cs = layout@.components;
        let mut unsorted: Vec<PnpEntry> = Vec::new();
        let mut i: usize = 0;
        proof {
            assert(unsorted.deep_view() =~= Seq::<PnpEntryView>::empty());
        }
        while i < layout.components.len()
            invariant
                layout@.wf(),
                cs == layout@.components,
                cs.len() == layout.components@.len(),
                0 <= i <= cs.len(),
                unsorted.deep_view() == spec_pnp_entries(
                    cs,
                    config.side,
                    config.units,
                    config.negate_y,
                    config.negate_bottom_rotation,
                    i as int,
                ),
            decreases layout.components.len() - i,
        {
            let c = &layout.components[i];
            proof {
                assert(cs[i as int] == c@);
                assert(cs[i as int].wf());
            }
            let included = match config.side {
                PnpSide::Top => matches!(c.layer, ComponentLayer::Top),
                PnpSide::Bottom => matches!(c.layer, ComponentLayer::Bottom),
                PnpSide::Both => true,
            };
            if included {
                proof {
                    lemma_pos_nm_in_range(c.position);
                }
                let xn = crate::units::to_nm(c.position.x, c.position.unit);
                let yn = crate::units::to_nm(c.position.y, c.position.unit);
                let x = config.units.from_nm(xn);
                let y0 = config.units.from_nm(yn);
                let y = if config.negate_y {
                    -y0
                } else {
                    y0
                };
                let r0: i64 = if config.negate_bottom_rotation && matches!(
                    c.layer,
                    ComponentLayer::Bottom
                ) {
                    if c.rotation == i64::MIN {
                        // one full negation step below the representable range:
                        // normalise through the wide remainder instead
                        i64::MIN
                    } else {
                        -c.rotation
                    }
                } else {
                    c.rotation
                };
                let rotation = rem_full_turn(r0);
                let entry = PnpEntry {
                    reference: clone_string(&c.reference),
                    value: clone_string(&c.value),
                    footprint: clone_string(&c.footprint),
                    x,
                    y,
                    rotation,
                    side: c.layer,
                };
                let ghost prev = unsorted.deep_view();
                unsorted.push(entry);
                proof {
                    assert(unsorted.deep_view() =~= prev.push(
                        spec_pnp_entry(
                            cs[i as int],
                            config.units,
                            config.negate_y,
                            config.negate_bottom_rotation,
                        ),
                    ));
                }
            }
            proof {
                assert(unsorted.deep_view() =~= spec_pnp_entries(
                    cs,
                    config.side,
                    config.units,
                    config.negate_y,
                    config.negate_bottom_rotation,
                    i as int + 1,
                ));
            }
            i = i + 1;
        }
        let ghost unsorted_v = unsorted.deep_view();
        let mut entries: Vec<PnpEntry> = Vec::new();
        let ghost mut k: int = 0;
        proof {
            assert(entries.deep_view() =~= Seq::<PnpEntryView>::empty());
            assert(unsorted.deep_view() =~= unsorted_v.skip(0));
        }
        while unsorted.len() > 0
            invariant
                0 <= k <= unsorted_v.len(),
                unsorted.deep_view() == unsorted_v.skip(k),
                entries.deep_view() == spec_sort_pnp(unsorted_v, k),
            decreases unsorted.len(),
        {
            let ghost pre = unsorted.deep_view();
            let ghost preraw = unsorted@;
            let e = unsorted.remove(0);
            proof {
                assert(pre == unsorted_v.skip(k));
                assert(pre.len() == unsorted_v.len() - k);
                assert(e@ == pre[0]);
                assert(pre[0] == unsorted_v[k]);
                assert(unsorted@ =~= preraw.skip(1));
                assert forall|j: int| 0 <= j < unsorted.deep_view().len() implies
                    unsorted.deep_view()[j] == unsorted_v.skip(k + 1)[j] by {
                    assert(unsorted.deep_view()[j] == unsorted@[j].deep_view());
                    assert(unsorted@[j] == preraw[j + 1]);
                    assert(pre[j + 1] == preraw[j + 1].deep_view());
                    assert(pre[j + 1] == unsorted_v.skip(k)[j + 1]);
                }
                assert(unsorted.deep_view() =~= unsorted_v.skip(k + 1));
            }
            insert_pnp(&mut entries, e);
            proof {
                k = k + 1;
            }
        }
        proof {
            assert(spec_sort_pnp(unsorted_v, k) == spec_sort_pnp(
                unsorted_v,
                unsorted_v.len() as int,
            ));
        }
        let ghost es = entries.deep_view();
        let mut top_count: usize = 0;
        let mut bottom_count: usize = 0;
        let mut k: usize = 0;
        while k < entries.len()
            invariant
                es == entries.deep_view(),
                0 <= k <= es.len(),
                top_count <= k,
                bottom_count <= k,
                top_count == count_side(es.take(k as int), ComponentLayer::Top),
                bottom_count == count_side(es.take(k as int), ComponentLayer::Bottom),
            decreases entries.len() - k,
        {
            proof {
                assert(es.take(k as int + 1) =~= es.take(k as int).push(es[k as int]));
                es.take(k as int).lemma_filter_push(
                    es[k as int],
                    |e: PnpEntryView| e.side == ComponentLayer::Top,
                );
                es.take(k as int).lemma_filter_push(
                    es[k as int],
                    |e: PnpEntryView| e.side == ComponentLayer::Bottom,
                );
            }
            match entries[k].side {
                ComponentLayer::Top => {
                    top_count = top_count + 1;
                },
                ComponentLayer::Bottom => {
                    bottom_count = bottom_count + 1;
                },
            }
            k = k + 1;
        }
        proof {
            assert(es.take(entries@.len() as int) =~= es);
        }
        Ok(PnpReport { project_name: project, units: config.units, entries, top_count, bottom_count })
    }
}


// ---------------------------------------------------------------------------
// Exports
// ---------------------------------------------------------------------------

/// `n` spaces.
pub open spec fn spec_spaces(n: int) -> Seq<char>
    decreases n,
{
    if n <= 0 {
        Seq::empty()
    } else {
        spec_spaces(n - 1) + seq![' ']
    }
}

/// Text padded on the left with spaces to at least `w` characters.
pub open spec fn spec_pad_left(s: Seq<char>, w: int) -> Seq<char> {
    if s.len() >= w {
        s
    } else {
        spec_spaces(w - s.len()) + s
    }
}

/// Text padded on the right with spaces to at least `w` characters.
pub open spec fn spec_pad_right(s: Seq<char>, w: int) -> Seq<char> {
    if s.len() >= w {
        s
    } else {
        s + spec_spaces(w - s.len())
    }
}

/// The precision actually carried: at most six fraction digits.
pub open spec fn spec_clamped_prec(prec: int) -> int {
    if prec >= 6 {
        6
    } else if prec <= 0 {
        0
    } else {
        prec
    }
}

/// A micro-unit coordinate rendered with the clamped precision.
pub open spec fn spec_pnp_coord(v: int, prec: int) -> Seq<char> {
    let p = spec_clamped_prec(prec);
    spec_fixed_string(v / pow10_int(6 - p), p)
}

/// A rotation in millidegrees rendered with two fraction digits of degrees.
pub open spec fn spec_rot2(rot: int) -> Seq<char> {
    spec_fixed_string(rot / 10, 2)
}

/// A rotation in millidegrees rendered with one fraction digit of degrees.
pub open spec fn spec_rot1(rot: int) -> Seq<char> {
    spec_fixed_string(rot / 100, 1)
}

/// The side of an entry as a word.
pub open spec fn spec_side_word(side: ComponentLayer) -> Seq<char> {
    match side {
        ComponentLayer::Top => "top"@,
        ComponentLayer::Bottom => "bottom"@,
    }
}

/// The side of an entry as a letter.
pub open spec fn spec_side_letter(side: ComponentLayer) -> Seq<char> {
    match side {
        ComponentLayer::Top => "T"@,
        ComponentLayer::Bottom => "B"@,
    }
}

/// One CSV row of an entry.
pub open spec fn spec_pnp_csv_row(e: PnpEntryView, prec: int) -> Seq<char> {
    seq!['"'] + e.reference + "\",\""@ + e.value + "\",\""@ + e.footprint + "\","@
        + spec_pnp_coord(e.x, prec) + seq![','] + spec_pnp_coord(e.y, prec) + seq![',']
        + spec_rot2(e.rotation) + seq![','] + spec_side_word(e.side) + seq!['\n']
}

/// The first `i` CSV rows.
pub open spec fn spec_pnp_csv_rows(es: Seq<PnpEntryView>, prec: int, i: int) -> Seq<char>
    decreases i,
{
    if i <= 0 {
        Seq::empty()
    } else {
        spec_pnp_csv_rows(es, prec, i - 1) + spec_pnp_csv_row(es[i - 1], prec)
    }
}

/// The whole CSV document of a report.
pub open spec fn spec_pnp_csv(r: PnpReportView, include_header: bool, prec: int) -> Seq<char> {
    "# Pick and Place: "@ + r.project_name + "\n# Units: "@ + spec_suffix(r.units) + "\n# Top: "@
        + spec_i64_string(r.top_count) + ", Bottom: "@ + spec_i64_string(r.bottom_count)
        + seq!['\n'] + seq!['\n'] + (if include_header {
        "Ref,Val,Package,PosX,PosY,Rot,Side\n"@
    } else {
        Seq::empty()
    }) + spec_pnp_csv_rows(r.entries, prec, r.entries.len() as int)
}

/// One space-separated row of an entry.
pub open spec fn spec_pnp_ascii_row(e: PnpEntryView, prec: int) -> Seq<char> {
    spec_pad_right(e.reference, 10) + seq![' '] + spec_pad_right(e.value, 12) + seq![' ']
        + spec_pad_right(e.footprint, 20) + seq![' '] + spec_pad_left(
        spec_pnp_coord(e.x, prec),
        10,
    ) + seq![' '] + spec_pad_left(spec_pnp_coord(e.y, prec), 10) + seq![' '] + spec_pad_left(
        spec_rot1(e.rotation),
        6,
    ) + seq![' '] + spec_side_letter(e.side) + seq!['\n']
}

/// The first `i` space-separated rows.
pub open spec fn spec_pnp_ascii_rows(es: Seq<PnpEntryView>, prec: int, i: int) -> Seq<char>
    decreases i,
{
    if i <= 0 {
        Seq::empty()
    } else {
        spec_pnp_ascii_rows(es, prec, i - 1) + spec_pnp_ascii_row(es[i - 1], prec)
    }
}

/// The whole space-separated document of a report.
pub open spec fn spec_pnp_ascii(r: PnpReportView, include_header: bool, prec: int) -> Seq<char> {
    "# Pick and Place: "@ + r.project_name + "\n# Units: "@ + spec_suffix(r.units) + seq!['\n']
        + (if include_header {
        "# Ref       Val          Package              PosX       PosY     Rot  Side\n"@
    } else {
        Seq::empty()
    }) + spec_pnp_ascii_rows(r.entries, prec, r.entries.len() as int)
}

/// The document a report exports to under a configuration.
pub open spec fn spec_pnp_export(r: PnpReportView, config: PnpConfig) -> Seq<char> {
    match config.format {
        PnpFormat::Csv => spec_pnp_csv(r, config.include_header, config.precision as int),
        PnpFormat::Ascii => spec_pnp_ascii(r, config.include_header, config.precision as int),
    }
}

/// Ten to the `e` for small exponents.
fn pow10_small(e: usize) -> (r: i64)
    requires
        e <= 6,
    ensures
        r as int == pow10_int(e as int),
{
    proof {
        reveal_with_fuel(pow10_int, 8);
    }
    match e {
        0 => 1,
        1 => 10,
        2 => 100,
        3 => 1_000,
        4 => 10_000,
        5 => 100_000,
        _ => 1_000_000,
    }
}

/// A quotient by a positive divisor never grows in magnitude.
proof fn lemma_div_shrinks(a: int, d: int)
    requires
        d >= 1,
    ensures
        a >= 0 ==> 0 <= a / d <= a,
        a < 0 ==> a <= a / d <= 0,
{
    let q = a / d;
    vstd::arithmetic::div_mod::lemma_fundamental_div_mod(a, d);
    if a >= 0 {
        vstd::arithmetic::div_mod::lemma_div_is_ordered(0, a, d);
        assert(q <= a) by (nonlinear_arith)
            requires
                d >= 1,
                a == d * q + a % d,
                0 <= a % d < d,
                q >= 0,
        ;
    } else {
        vstd::arithmetic::div_mod::lemma_div_is_ordered(a, 0, d);
        if q != 0 {
            assert(d * (q + 1) <= q + 1 && d * q + d == d * (q + 1)) by (nonlinear_arith)
                requires
                    d >= 1,
                    q + 1 <= 0,
            ;
            assert(a <= q);
        }
    }
}

/// Floor division of a rotation value by a small positive divisor.
fn rot_div(a: i64, d: i64) -> (r: i64)
    requires
        d >= 1,
    ensures
        r as int == (a as int) / (d as int),
{
    proof {
        lemma_div_shrinks(a as int, d as int);
    }
    let wide = div_floor_i128(a as i128, d as i128);
    wide as i64
}

/// Append a micro-unit coordinate with the clamped precision.
fn push_coord(out: &mut String, v: i64, precision: usize)
    ensures
        final(out)@ == old(out)@ + spec_pnp_coord(v as int, precision as int),
{
    let p: usize = if precision >= 6 {
        6
    } else {
        precision
    };
    let divisor = pow10_small(6 - p);
    proof {
        reveal_with_fuel(pow10_int, 8);
        lemma_div_shrinks(v as int, divisor as int);
    }
    let wide = div_floor_i128(v as i128, divisor as i128);
    let scaled = wide as i64;
    push_fixed(out, scaled, p);
}

/// A micro-unit coordinate as text.
fn coord_string(v: i64, precision: usize) -> (r: String)
    ensures
        r@ == spec_pnp_coord(v as int, precision as int),
{
    let mut s = String::new();
    push_coord(&mut s, v, precision);
    proof {
        assert(s@ =~= spec_pnp_coord(v as int, precision as int));
    }
    s
}

/// Append spaces until the content would reach the width, then the content.
fn push_pad_left(out: &mut String, content: &String, width: usize)
    ensures
        final(out)@ == old(out)@ + spec_pad_left(content@, width as int),
{
    let n = content.as_str().unicode_len();
    if n < width {
        let mut k: usize = 0;
        while k < width - n
            invariant
                n == content@.len(),
                n < width,
                0 <= k <= width - n,
                out@ == old(out)@ + spec_spaces(k as int),
            decreases width - n - k,
        {
            push_char(out, ' ');
            proof {
                assert(out@ =~= old(out)@ + spec_spaces(k as int + 1));
            }
            k = k + 1;
        }
    }
    push_str_part(out, content.as_str());
    proof {
        assert(out@ =~= old(out)@ + spec_pad_left(content@, width as int));
    }
}

/// Append the content, then spaces until the width is reached.
fn push_pad_right(out: &mut String, content: &String, width: usize)
    ensures
        final(out)@ == old(out)@ + spec_pad_right(content@, width as int),
{
    push_str_part(out, content.as_str());
    let n = content.as_str().unicode_len();
    if n < width {
        let ghost base = out@;
        let mut k: usize = 0;
        while k < width - n
            invariant
                n == content@.len(),
                n < width,
                0 <= k <= width - n,
                out@ == base + spec_spaces(k as int),
            decreases width - n - k,
        {
            push_char(out, ' ');
            proof {
                assert(out@ =~= base + spec_spaces(k as int + 1));
            }
            k = k + 1;
        }
    }
    proof {
        assert(out@ =~= old(out)@ + spec_pad_right(content@, width as int));
    }
}

/// Append one space-separated row.
#[verifier::rlimit(100)]
fn push_ascii_row(out: &mut String, e: &PnpEntry, precision: usize)
    ensures
        final(out)@ == old(out)@ + spec_pnp_ascii_row(e@, precision as int),
{
    push_pad_right(out, &e.reference, 10);
    push_char(out, ' ');
    push_pad_right(out, &e.value, 12);
    push_char(out, ' ');
    push_pad_right(out, &e.footprint, 20);
    push_char(out, ' ');
    let x_text = coord_string(e.x, precision);
    push_pad_left(out, &x_text, 10);
    push_char(out, ' ');
    let y_text = coord_string(e.y, precision);
    push_pad_left(out, &y_text, 10);
    push_char(out, ' ');
    let mut rot_text = String::new();
    push_fixed(&mut rot_text, rot_div(e.rotation, 100), 1);
    proof {
        assert(rot_text@ =~= spec_rot1(e@.rotation));
    }
    push_pad_left(out, &rot_text, 6);
    push_char(out, ' ');
    match e.side {
        ComponentLayer::Top => push_str_part(out, "T"),
        ComponentLayer::Bottom => push_str_part(out, "B"),
    }
    push_char(out, '\n');
    proof {
        assert(out@ =~= old(out)@ + spec_pnp_ascii_row(e@, precision as int));
    }
}

impl PnpReport {
    /// Entries on the top side, in report order.
    pub fn top_entries(&self) -> (r: Vec<&PnpEntry>)
        ensures
            r.deep_view() == self@.entries.filter(
                |e: PnpEntryView| e.side == ComponentLayer::Top,
            ),
    {
        self.side_entries(ComponentLayer::Top)
    }

    /// Entries on the bottom side, in report order.
    pub fn bottom_entries(&self) -> (r: Vec<&PnpEntry>)
        ensures
            r.deep_view() == self@.entries.filter(
                |e: PnpEntryView| e.side == ComponentLayer::Bottom,
            ),
    {
        self.side_entries(ComponentLayer::Bottom)
    }

    /// Entries on one side, in report order.
    fn side_entries(&self, side: ComponentLayer) -> (r: Vec<&PnpEntry>)
        ensures
            r.deep_view() == self@.entries.filter(|e: PnpEntryView| e.side == side),
    {
        let ghost es = self@.entries;
        let ghost pred = |e: PnpEntryView| e.side == side;
        let mut out: Vec<&PnpEntry> = Vec::new();
        let mut i: usize = 0;
        proof {
            assert(es.take(0) =~= Seq::<PnpEntryView>::empty());
            Seq::<PnpEntryView>::empty().lemma_all_neg_filter_empty(pred);
            assert(out.deep_view() =~= es.take(0).filter(pred));
        }
        while i < self.entries.len()
            invariant
                es == self@.entries,
                pred == (|e: PnpEntryView| e.side == side),
                0 <= i <= es.len(),
                out.deep_view() == es.take(i as int).filter(pred),
            decreases self.entries.len() - i,
        {
            proof {
                assert(es.take(i as int + 1) =~= es.take(i as int).push(es[i as int]));
                es.take(i as int).lemma_filter_push(es[i as int], pred);
            }
            let matches_side = match (self.entries[i].side, side) {
                (ComponentLayer::Top, ComponentLayer::Top) => true,
                (ComponentLayer::Bottom, ComponentLayer::Bottom) => true,
                _ => false,
            };
            if matches_side {
                let ghost prev = out.deep_view();
                out.push(&self.entries[i]);
                proof {
                    assert(out.deep_view() =~= prev.push(es[i as int]));
                }
            }
            i = i + 1;
        }
        proof {
            assert(es.take(self.entries@.len() as int) =~= es);
        }
        out
    }

    /// Export to CSV.
    #[verifier::rlimit(80)]
    pub fn to_csv(&self, config: &PnpConfig) -> (r: String)
        ensures
            r@ == spec_pnp_csv(self@, config.include_header, config.precision as int),
    {
        let mut out = String::new();
        push_str_part(&mut out, "# Pick and Place: ");
        push_str_part(&mut out, self.project_name.as_str());
        push_str_part(&mut out, "\n# Units: ");
        push_str_part(&mut out, self.units.suffix());
        push_str_part(&mut out, "\n# Top: ");
        push_usize(&mut out, self.top_count);
        push_str_part(&mut out, ", Bottom: ");
        push_usize(&mut out, self.bottom_count);
        push_char(&mut out, '\n');
        push_char(&mut out, '\n');
        if config.include_header {
            push_str_part(&mut out, "Ref,Val,Package,PosX,PosY,Rot,Side\n");
        }
        let ghost head = out@;
        let ghost es = self@.entries;
        let ghost prec = config.precision as int;
        let mut k: usize = 0;
        while k < self.entries.len()
            invariant
                es == self@.entries,
                prec == config.precision as int,
                0 <= k <= es.len(),
                out@ == head + spec_pnp_csv_rows(es, prec, k as int),
            decreases self.entries.len() - k,
        {
            let e = &self.entries[k];
            proof {
                assert(es[k as int] == e@);
            }
            push_char(&mut out, '"');
            push_str_part(&mut out, e.reference.as_str());
            push_str_part(&mut out, "\",\"");
            push_str_part(&mut out, e.value.as_str());
            push_str_part(&mut out, "\",\"");
            push_str_part(&mut out, e.footprint.as_str());
            push_str_part(&mut out, "\",");
            push_coord(&mut out, e.x, config.precision);
            push_char(&mut out, ',');
            push_coord(&mut out, e.y, config.precision);
            push_char(&mut out, ',');
            push_fixed(&mut out, rot_div(e.rotation, 10), 2);
            push_char(&mut out, ',');
            match e.side {
                ComponentLayer::Top => push_str_part(&mut out, "top"),
                ComponentLayer::Bottom => push_str_part(&mut out, "bottom"),
            }
            push_char(&mut out, '\n');
            proof {
                assert(out@ =~= head + spec_pnp_csv_rows(es, prec, k as int + 1));
            }
            k = k + 1;
        }
        proof {
            assert(out@ =~= spec_pnp_csv(self@, config.include_header, prec));
        }
        out
    }

    /// Export to a space-separated table.
    pub fn to_ascii(&self, config: &PnpConfig) -> (r: String)
        ensures
            r@ == spec_pnp_ascii(self@, config.include_header, config.precision as int),
    {
        let mut out = String::new();
        push_str_part(&mut out, "# Pick and Place: ");
        push_str_part(&mut out, self.project_name.as_str());
        push_str_part(&mut out, "\n# Units: ");
        push_str_part(&mut out, self.units.suffix());
        push_char(&mut out, '\n');
        if config.include_header {
            push_str_part(
                &mut out,
                "# Ref       Val          Package              PosX       PosY     Rot  Side\n",
            );
        }
        let ghost head = out@;
        let ghost es = self@.entries;
        let ghost prec = config.precision as int;
        let mut k: usize = 0;
        while k < self.entries.len()
            invariant
                es == self@.entries,
                prec == config.precision as int,
                0 <= k <= es.len(),
                out@ == head + spec_pnp_ascii_rows(es, prec, k as int),
            decreases self.entries.len() - k,
        {
            let e = &self.entries[k];
            proof {
                assert(es[k as int] == e@);
            }
            push_ascii_row(&mut out, e, config.precision);
            proof {
                assert(out@ =~= head + spec_pnp_ascii_rows(es, prec, k as int + 1));
            }
            k = k + 1;
        }
        proof {
            assert(out@ =~= spec_pnp_ascii(self@, config.include_header, prec));
        }
        out
    }

    /// Export in the configured format.
    pub fn export(&self, config: &PnpConfig) -> (r: String)
        ensures
            r@ == spec_pnp_export(self@, *config),
    {
        match config.format {
            PnpFormat::Csv => self.to_csv(config),
            PnpFormat::Ascii => self.to_ascii(config),
        }
    }

    /// Export the top side only, under a ` (Top)` suffix.
    pub fn export_top(&self, config: &PnpConfig) -> (r: String)
        ensures
            r@ == spec_pnp_export(
                PnpReportView {
                    project_name: self@.project_name + " (Top)"@,
                    entries: self@.entries.filter(|e: PnpEntryView| e.side == ComponentLayer::Top),
                    bottom_count: 0,
                    ..self@
                },
                *config,
            ),
    {
        let mut name = clone_string(&self.project_name);
        push_str_part(&mut name, " (Top)");
        let picked = self.copy_side(ComponentLayer::Top);
        let report = PnpReport {
            project_name: name,
            units: self.units,
            entries: picked,
            top_count: self.top_count,
            bottom_count: 0,
        };
        report.export(config)
    }

    /// Export the bottom side only, under a ` (Bottom)` suffix.
    pub fn export_bottom(&self, config: &PnpConfig) -> (r: String)
        ensures
            r@ == spec_pnp_export(
                PnpReportView {
                    project_name: self@.project_name + " (Bottom)"@,
                    entries: self@.entries.filter(
                        |e: PnpEntryView| e.side == ComponentLayer::Bottom,
                    ),
                    top_count: 0,
                    ..self@
                },
                *config,
            ),
    {
        let mut name = clone_string(&self.project_name);
        push_str_part(&mut name, " (Bottom)");
        let picked = self.copy_side(ComponentLayer::Bottom);
        let report = PnpReport {
            project_name: name,
            units: self.units,
            entries: picked,
            top_count: 0,
            bottom_count: self.bottom_count,
        };
        report.export(config)
    }

    /// Owned copies of the entries on one side, in report order.
    fn copy_side(&self, side: ComponentLayer) -> (r: Vec<PnpEntry>)
        ensures
            r.deep_view() == self@.entries.filter(|e: PnpEntryView| e.side == side),
    {
        let ghost es = self@.entries;
        let ghost pred = |e: PnpEntryView| e.side == side;
        let mut out: Vec<PnpEntry> = Vec::new();
        let mut i: usize = 0;
        proof {
            assert(es.take(0) =~= Seq::<PnpEntryView>::empty());
            Seq::<PnpEntryView>::empty().lemma_all_neg_filter_empty(pred);
            assert(out.deep_view() =~= es.take(0).filter(pred));
        }
        while i < self.entries.len()
            invariant
                es == self@.entries,
                pred == (|e: PnpEntryView| e.side == side),
                0 <= i <= es.len(),
                out.deep_view() == es.take(i as int).filter(pred),
            decreases self.entries.len() - i,
        {
            proof {
                assert(es.take(i as int + 1) =~= es.take(i as int).push(es[i as int]));
                es.take(i as int).lemma_filter_push(es[i as int], pred);
            }
            let e = &self.entries[i];
            let matches_side = match (e.side, side) {
                (ComponentLayer::Top, ComponentLayer::Top) => true,
                (ComponentLayer::Bottom, ComponentLayer::Bottom) => true,
                _ => false,
            };
            if matches_side {
                let copy = PnpEntry {
                    reference: clone_string(&e.reference),
                    value: clone_string(&e.value),
                    footprint: clone_string(&e.footprint),
                    x: e.x,
                    y: e.y,
                    rotation: e.rotation,
                    side: e.side,
                };
                let ghost prev = out.deep_view();
                out.push(copy);
                proof {
                    assert(out.deep_view() =~= prev.push(es[i as int]));
                }
            }
            i = i + 1;
        }
        proof {
            assert(es.take(self.entries@.len() as int) =~= es);
        }
        out
    }
}


} // verus!
