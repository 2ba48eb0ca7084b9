//! PCB-specific design-rule checking: track width, track-to-track clearance,
//! via geometry, board-edge clearance and courtyard overlap.
//!
//! Every check compares exact integer nanometre quantities. A Euclidean
//! distance `d` is compared with a bound `b` through `4*d*d < (2*b)^2`, which
//! is exact; the measured value reported in a violation is the floor of the
//! true distance, obtained with a verified integer square root.
//!
//! `check_all` is a pure function of its inputs: its postcondition equates the
//! produced report with a specification-level function of the layout and the
//! rules, so two runs on equal inputs yield reports with equal content.

use vstd::prelude::*;
use vstd::string::*;
use crate::drc::{DrcReport, DrcReportView, DrcRule, DrcRuleView, DrcSeverity, DrcValuesView,
    DrcViolation, DrcViolationView};
use crate::fmt::{push_i64, push_str_part, spec_i64_string};
use crate::geom::{Point2D, div2_floor, dist2, isqrt_u128, lemma_sqrt_floor_bounds,
    lemma_sqrt_floor_lt, nm_in_range, spec_dist2, sqrt_floor, twice_dist_lt};
use crate::layout::{Layout, LayoutView, PlacedComponentView, Position, TraceView, ViaView};
use crate::rules::PcbDesignRules;
use crate::units::{nm_of, to_nm};

verus! {

// ---------------------------------------------------------------------------
// Nanometre views of layout entities
// ---------------------------------------------------------------------------

/// X coordinate of a position, in nanometres.
pub open spec fn pos_x_nm(p: Position) -> int {
    nm_of(p.x as int, p.unit)
}

/// Y coordinate of a position, in nanometres.
pub open spec fn pos_y_nm(p: Position) -> int {
    nm_of(p.y as int, p.unit)
}

/// Width of a trace, in nanometres.
pub open spec fn trace_width_nm(t: TraceView) -> int {
    nm_of(t.width, t.unit)
}

/// X of a trace's midpoint, in nanometres (floor of the exact midpoint).
pub open spec fn trace_mid_x(t: TraceView) -> int {
    (pos_x_nm(t.start) + pos_x_nm(t.end)) / 2
}

/// Y of a trace's midpoint, in nanometres (floor of the exact midpoint).
pub open spec fn trace_mid_y(t: TraceView) -> int {
    (pos_y_nm(t.start) + pos_y_nm(t.end)) / 2
}

/// Midpoint of a trace as a point.
pub open spec fn spec_trace_midpoint(t: TraceView) -> Point2D {
    Point2D { x: trace_mid_x(t) as i64, y: trace_mid_y(t) as i64 }
}

/// Location of a position as a point in nanometres.
pub open spec fn spec_position_point(p: Position) -> Point2D {
    Point2D { x: pos_x_nm(p) as i64, y: pos_y_nm(p) as i64 }
}

/// Nanometre values of a well-formed position stay in range.
pub proof fn lemma_pos_nm_in_range(p: Position)
    requires
        p.wf(),
    ensures
        nm_in_range(pos_x_nm(p)),
        nm_in_range(pos_y_nm(p)),
{
    crate::units::lemma_mul_range(
        p.x as int,
        crate::units::spec_nm_factor(p.unit),
        crate::units::COORD_LIMIT as int,
        25_400_000,
    );
    crate::units::lemma_mul_range(
        p.y as int,
        crate::units::spec_nm_factor(p.unit),
        crate::units::COORD_LIMIT as int,
        25_400_000,
    );
}

/// Midpoint and width of a well-formed trace stay in range.
pub proof fn lemma_trace_nm_in_range(t: TraceView)
    requires
        t.wf(),
    ensures
        nm_in_range(trace_mid_x(t)),
        nm_in_range(trace_mid_y(t)),
        nm_in_range(trace_width_nm(t)),
{
    lemma_pos_nm_in_range(t.start);
    lemma_pos_nm_in_range(t.end);
    crate::units::lemma_mul_range(
        t.width,
        crate::units::spec_nm_factor(t.unit),
        crate::units::COORD_LIMIT as int,
        25_400_000,
    );
}

/// Squared distance between two trace midpoints.
pub open spec fn trace_pair_d2(t1: TraceView, t2: TraceView) -> int {
    spec_dist2(trace_mid_x(t1), trace_mid_y(t1), trace_mid_x(t2), trace_mid_y(t2))
}

/// Squared distance between two positions.
pub open spec fn pos_pair_d2(p1: Position, p2: Position) -> int {
    spec_dist2(pos_x_nm(p1), pos_y_nm(p1), pos_x_nm(p2), pos_y_nm(p2))
}

// ---------------------------------------------------------------------------
// Violation messages
// ---------------------------------------------------------------------------

/// `a`, a number, `b`, a number, `c`.
pub open spec fn spec_msg3(a: Seq<char>, v1: int, b: Seq<char>, v2: int, c: Seq<char>) -> Seq<
    char,
> {
    a + spec_i64_string(v1) + b + spec_i64_string(v2) + c
}

/// `a`, a number, `b`.
pub open spec fn spec_msg2(a: Seq<char>, v: int, b: Seq<char>) -> Seq<char> {
    a + spec_i64_string(v) + b
}

fn msg3(a: &str, v1: i64, b: &str, v2: i64, c: &str) -> (r: String)
    ensures
        r@ == spec_msg3(a@, v1 as int, b@, v2 as int, c@),
{
    let mut s = String::new();
    push_str_part(&mut s, a);
    push_i64(&mut s, v1);
    push_str_part(&mut s, b);
    push_i64(&mut s, v2);
    push_str_part(&mut s, c);
    proof {
        assert(s@ =~= spec_msg3(a@, v1 as int, b@, v2 as int, c@));
    }
    s
}

fn msg2(a: &str, v: i64, b: &str) -> (r: String)
    ensures
        r@ == spec_msg2(a@, v as int, b@),
{
    let mut s = String::new();
    push_str_part(&mut s, a);
    push_i64(&mut s, v);
    push_str_part(&mut s, b);
    proof {
        assert(s@ =~= spec_msg2(a@, v as int, b@));
    }
    s
}

// ---------------------------------------------------------------------------
// Track width pass
// ---------------------------------------------------------------------------

/// A trace narrower than the minimum track width.
pub open spec fn width_bad(t: TraceView, r: PcbDesignRules) -> bool {
    trace_width_nm(t) < r.min_track_width
}

/// The violation emitted for a too-narrow trace.
pub open spec fn width_violation(t: TraceView, r: PcbDesignRules) -> DrcViolationView {
    DrcViolationView {
        rule: "width.track"@,
        message: spec_msg3(
            "Track width "@,
            trace_width_nm(t),
            " nm is below minimum "@,
            r.min_track_width as int,
            " nm"@,
        ),
        location: spec_trace_midpoint(t),
        severity: DrcSeverity::Error,
        values: Some(
            DrcValuesView {
                measured: trace_width_nm(t),
                limit: r.min_track_width as int,
                unit: "nm"@,
            },
        ),
        fix: Some(
            spec_msg2("Increase track width to at least "@, r.min_track_width as int, " nm"@),
        ),
    }
}

/// All violations of the track-width pass, in trace order.
pub open spec fn spec_width_pass(ts: Seq<TraceView>, r: PcbDesignRules) -> Seq<
    DrcViolationView,
> {
    ts.filter(|t: TraceView| width_bad(t, r)).map_values(|t: TraceView| width_violation(t, r))
}

/// The width pass grows by at most one violation per trace.
pub proof fn lemma_width_pass_push(ts: Seq<TraceView>, t: TraceView, r: PcbDesignRules)
    ensures
        spec_width_pass(ts.push(t), r) == if width_bad(t, r) {
            spec_width_pass(ts, r).push(width_violation(t, r))
        } else {
            spec_width_pass(ts, r)
        },
{
    let pred = |x: TraceView| width_bad(x, r);
    let f = |x: TraceView| width_violation(x, r);
    ts.lemma_filter_push(t, pred);
    if pred(t) {
        assert(ts.filter(pred).push(t).map_values(f) =~= ts.filter(pred).map_values(f).push(
            f(t),
        ));
    }
}

// ---------------------------------------------------------------------------
// Shared decision lemmas
// ---------------------------------------------------------------------------

/// Floor of a clearance `sqrt(d2) - s/2` in nanometres.
pub open spec fn clearance_floor(d2: int, s: int) -> int {
    (sqrt_floor(4 * d2) - s) / 2
}

/// Comparing the floored clearance against an integer bound equals the exact
/// real comparison, stated on squares.
proof fn lemma_clearance_decision(d2: int, s: int, min: int)
    requires
        d2 >= 0,
    ensures
        (clearance_floor(d2, s) < min) <==> (2 * min + s > 0 && twice_dist_lt(d2, 2 * min + s)),
{
    let t = sqrt_floor(4 * d2);
    lemma_sqrt_floor_bounds(4 * d2);
    let k = 2 * min + s;
    assert(clearance_floor(d2, s) < min <==> t < k);
    if k >= 0 {
        lemma_sqrt_floor_lt(4 * d2, k);
    }
}

// ---------------------------------------------------------------------------
// Track-to-track clearance pass
// ---------------------------------------------------------------------------

/// Whether an ordered trace pair produces a clearance violation: same layer,
/// different nets, and clamped clearance below the minimum.
pub open spec fn trace_pair_bad(t1: TraceView, t2: TraceView, r: PcbDesignRules) -> bool {
    &&& t1.layer == t2.layer
    &&& t1.net != t2.net
    &&& r.min_track_clearance > 0
    &&& twice_dist_lt(
        trace_pair_d2(t1, t2),
        2 * r.min_track_clearance + trace_width_nm(t1) + trace_width_nm(t2),
    )
}

/// The clamped, floored clearance reported for a trace pair.
pub open spec fn trace_pair_clearance(t1: TraceView, t2: TraceView) -> int {
    let c = clearance_floor(trace_pair_d2(t1, t2), trace_width_nm(t1) + trace_width_nm(t2));
    if c > 0 {
        c
    } else {
        0
    }
}

/// The violation emitted for a too-close trace pair; located at the first
/// trace's midpoint.
pub open spec fn clearance_violation(t1: TraceView, t2: TraceView, r: PcbDesignRules) -> DrcViolationView {
    DrcViolationView {
        rule: "clearance.track_to_track"@,
        message: spec_msg3(
            "Track clearance "@,
            trace_pair_clearance(t1, t2),
            " nm is below minimum "@,
            r.min_track_clearance as int,
            " nm"@,
        ),
        location: spec_trace_midpoint(t1),
        severity: DrcSeverity::Error,
        values: Some(
            DrcValuesView {
                measured: trace_pair_clearance(t1, t2),
                limit: r.min_track_clearance as int,
                unit: "nm"@,
            },
        ),
        fix: Some("Increase spacing between tracks"@),
    }
}

/// Violations of pair `(i, j)` of the clearance pass: none or one.
pub open spec fn clearance_cell(ts: Seq<TraceView>, r: PcbDesignRules, i: int, j: int) -> Seq<
    DrcViolationView,
> {
    if trace_pair_bad(ts[i], ts[j], r) {
        seq![clearance_violation(ts[i], ts[j], r)]
    } else {
        Seq::empty()
    }
}

/// Violations of pairs `(i, i+1) .. (i, j-1)`.
pub open spec fn clearance_cells_before(
    ts: Seq<TraceView>,
    r: PcbDesignRules,
    i: int,
    j: int,
) -> Seq<DrcViolationView>
    decreases j - i,
{
    if j <= i + 1 {
        Seq::empty()
    } else {
        clearance_cells_before(ts, r, i, j - 1) + clearance_cell(ts, r, i, j - 1)
    }
}

/// Violations of all pairs whose first index is below `i`.
pub open spec fn clearance_rows_before(ts: Seq<TraceView>, r: PcbDesignRules, i: int) -> Seq<
    DrcViolationView,
>
    decreases i,
{
    if i <= 0 {
        Seq::empty()
    } else {
        clearance_rows_before(ts, r, i - 1) + clearance_cells_before(
            ts,
            r,
            i - 1,
            ts.len() as int,
        )
    }
}

/// All violations of the track-to-track clearance pass, in pair order.
pub open spec fn spec_clearance_pass(ts: Seq<TraceView>, r: PcbDesignRules) -> Seq<
    DrcViolationView,
> {
    clearance_rows_before(ts, r, ts.len() as int)
}

// ---------------------------------------------------------------------------
// Via pass
// ---------------------------------------------------------------------------

/// Pad (outer) diameter of a via, in nanometres.
pub open spec fn via_pad_nm(v: ViaView) -> int {
    nm_of(v.pad, v.unit)
}

/// Drill diameter of a via, in nanometres.
pub open spec fn via_drill_nm(v: ViaView) -> int {
    nm_of(v.drill, v.unit)
}

/// A via whose pad diameter is below the minimum.
pub open spec fn via_diameter_bad(v: ViaView, r: PcbDesignRules) -> bool {
    via_pad_nm(v) < r.min_via_diameter
}

/// A via whose drill is below the minimum.
pub open spec fn via_drill_bad(v: ViaView, r: PcbDesignRules) -> bool {
    via_drill_nm(v) < r.min_via_drill
}

/// A via whose annular ring `(pad - drill) / 2` is below the minimum; exact,
/// compared as `pad - drill < 2 * min`.
pub open spec fn annular_ring_bad(v: ViaView, r: PcbDesignRules) -> bool {
    via_pad_nm(v) - via_drill_nm(v) < 2 * r.min_annular_ring
}

/// Floor of the annular ring of a via, in nanometres.
pub open spec fn annular_ring_floor(v: ViaView) -> int {
    (via_pad_nm(v) - via_drill_nm(v)) / 2
}

/// The violation emitted for a too-small via pad diameter.
pub open spec fn via_diameter_violation(v: ViaView, r: PcbDesignRules) -> DrcViolationView {
    DrcViolationView {
        rule: "size.via_diameter"@,
        message: spec_msg3(
            "Via diameter "@,
            via_pad_nm(v),
            " nm is below minimum "@,
            r.min_via_diameter as int,
            " nm"@,
        ),
        location: spec_position_point(v.position),
        severity: DrcSeverity::Error,
        values: Some(
            DrcValuesView {
                measured: via_pad_nm(v),
                limit: r.min_via_diameter as int,
                unit: "nm"@,
            },
        ),
        fix: None,
    }
}

/// The violation emitted for a too-small via drill.
pub open spec fn via_drill_violation(v: ViaView, r: PcbDesignRules) -> DrcViolationView {
    DrcViolationView {
        rule: "size.via_drill"@,
        message: spec_msg3(
            "Via drill "@,
            via_drill_nm(v),
            " nm is below minimum "@,
            r.min_via_drill as int,
            " nm"@,
        ),
        location: spec_position_point(v.position),
        severity: DrcSeverity::Error,
        values: Some(
            DrcValuesView { measured: via_drill_nm(v), limit: r.min_via_drill as int, unit: "nm"@ },
        ),
        fix: None,
    }
}

/// The violation emitted for a too-small annular ring.
pub open spec fn annular_ring_violation(v: ViaView, r: PcbDesignRules) -> DrcViolationView {
    DrcViolationView {
        rule: "size.annular_ring"@,
        message: spec_msg3(
            "Annular ring "@,
            annular_ring_floor(v),
            " nm is below minimum "@,
            r.min_annular_ring as int,
            " nm"@,
        ),
        location: spec_position_point(v.position),
        severity: DrcSeverity::Error,
        values: Some(
            DrcValuesView {
                measured: annular_ring_floor(v),
                limit: r.min_annular_ring as int,
                unit: "nm"@,
            },
        ),
        fix: Some("Increase via diameter or decrease drill size"@),
    }
}

/// The diameter, drill and annular-ring violations of one via, in that order.
pub open spec fn via_single_cells(v: ViaView, r: PcbDesignRules) -> Seq<DrcViolationView> {
    (if via_diameter_bad(v, r) {
        seq![via_diameter_violation(v, r)]
    } else {
        Seq::empty()
    }) + (if via_drill_bad(v, r) {
        seq![via_drill_violation(v, r)]
    } else {
        Seq::empty()
    }) + (if annular_ring_bad(v, r) {
        seq![annular_ring_violation(v, r)]
    } else {
        Seq::empty()
    })
}

/// Per-via violations of the vias before index `i`.
pub open spec fn via_singles_before(vs: Seq<ViaView>, r: PcbDesignRules, i: int) -> Seq<
    DrcViolationView,
>
    decreases i,
{
    if i <= 0 {
        Seq::empty()
    } else {
        via_singles_before(vs, r, i - 1) + via_single_cells(vs[i - 1], r)
    }
}

/// Whether an ordered via pair on different nets is too close: the centre
/// distance minus half the summed pad diameters is below the minimum.
pub open spec fn via_pair_bad(v1: ViaView, v2: ViaView, r: PcbDesignRules) -> bool {
    &&& v1.net != v2.net
    &&& twice_dist_lt(
        pos_pair_d2(v1.position, v2.position),
        2 * r.min_via_clearance + via_pad_nm(v1) + via_pad_nm(v2),
    )
}

/// The floored (not clamped) clearance reported for a via pair.
pub open spec fn via_pair_clearance(v1: ViaView, v2: ViaView) -> int {
    clearance_floor(pos_pair_d2(v1.position, v2.position), via_pad_nm(v1) + via_pad_nm(v2))
}

/// The violation emitted for a too-close via pair; located at the first via.
pub open spec fn via_clearance_violation(v1: ViaView, v2: ViaView, r: PcbDesignRules) -> DrcViolationView {
    DrcViolationView {
        rule: "clearance.via_to_via"@,
        message: spec_msg3(
            "Via clearance "@,
            via_pair_clearance(v1, v2),
            " nm is below minimum "@,
            r.min_via_clearance as int,
            " nm"@,
        ),
        location: spec_position_point(v1.position),
        severity: DrcSeverity::Error,
        values: Some(
            DrcValuesView {
                measured: via_pair_clearance(v1, v2),
                limit: r.min_via_clearance as int,
                unit: "nm"@,
            },
        ),
        fix: None,
    }
}

/// Violations of via pair `(i, j)`: none or one.
pub open spec fn via_cell(vs: Seq<ViaView>, r: PcbDesignRules, i: int, j: int) -> Seq<
    DrcViolationView,
> {
    if via_pair_bad(vs[i], vs[j], r) {
        seq![via_clearance_violation(vs[i], vs[j], r)]
    } else {
        Seq::empty()
    }
}

/// Violations of via pairs `(i, i+1) .. (i, j-1)`.
pub open spec fn via_cells_before(vs: Seq<ViaView>, r: PcbDesignRules, i: int, j: int) -> Seq<
    DrcViolationView,
>
    decreases j - i,
{
    if j <= i + 1 {
        Seq::empty()
    } else {
        via_cells_before(vs, r, i, j - 1) + via_cell(vs, r, i, j - 1)
    }
}

/// Violations of all via pairs whose first index is below `i`.
pub open spec fn via_rows_before(vs: Seq<ViaView>, r: PcbDesignRules, i: int) -> Seq<
    DrcViolationView,
>
    decreases i,
{
    if i <= 0 {
        Seq::empty()
    } else {
        via_rows_before(vs, r, i - 1) + via_cells_before(vs, r, i - 1, vs.len() as int)
    }
}

/// All violations of the via pass: per-via checks first, then pair clearances.
pub open spec fn spec_via_pass(vs: Seq<ViaView>, r: PcbDesignRules) -> Seq<DrcViolationView> {
    via_singles_before(vs, r, vs.len() as int) + via_rows_before(vs, r, vs.len() as int)
}

// ---------------------------------------------------------------------------
// Edge clearance pass
// ---------------------------------------------------------------------------

/// Twice the clearance of a trace to the left board edge (x = 0).
pub open spec fn left_clearance2(t: TraceView) -> int {
    2 * min_int(pos_x_nm(t.start), pos_x_nm(t.end)) - trace_width_nm(t)
}

/// Twice the clearance of a trace to the right board edge (x = board width).
pub open spec fn right_clearance2(t: TraceView, board_w: int) -> int {
    2 * (board_w - max_int(pos_x_nm(t.start), pos_x_nm(t.end))) - trace_width_nm(t)
}

/// Twice the clearance of a trace to the bottom board edge (y = 0).
pub open spec fn bottom_clearance2(t: TraceView) -> int {
    2 * min_int(pos_y_nm(t.start), pos_y_nm(t.end)) - trace_width_nm(t)
}

/// Twice the clearance of a trace to the top board edge (y = board height).
pub open spec fn top_clearance2(t: TraceView, board_h: int) -> int {
    2 * (board_h - max_int(pos_y_nm(t.start), pos_y_nm(t.end))) - trace_width_nm(t)
}

pub open spec fn min_int(a: int, b: int) -> int {
    if a <= b {
        a
    } else {
        b
    }
}

pub open spec fn max_int(a: int, b: int) -> int {
    if a >= b {
        a
    } else {
        b
    }
}

/// The violation emitted for a trace too close to a board edge. `c2` is twice
/// the clearance; the reported measured value is its floor half.
pub open spec fn edge_violation(t: TraceView, c2: int, r: PcbDesignRules) -> DrcViolationView {
    DrcViolationView {
        rule: "clearance.edge"@,
        message: spec_msg3(
            "Track too close to board edge ("@,
            c2 / 2,
            " nm < "@,
            r.min_edge_clearance as int,
            " nm)"@,
        ),
        location: spec_trace_midpoint(t),
        severity: DrcSeverity::Error,
        values: Some(
            DrcValuesView { measured: c2 / 2, limit: r.min_edge_clearance as int, unit: "nm"@ },
        ),
        fix: None,
    }
}

/// One edge test of one trace: a violation when twice the clearance is below
/// twice the minimum.
pub open spec fn edge_cell(t: TraceView, c2: int, r: PcbDesignRules) -> Seq<DrcViolationView> {
    if c2 < 2 * r.min_edge_clearance {
        seq![edge_violation(t, c2, r)]
    } else {
        Seq::empty()
    }
}

/// The four edge tests of one trace, in left/right/bottom/top order.
pub open spec fn trace_edge_cells(t: TraceView, board_w: int, board_h: int, r: PcbDesignRules) -> Seq<
    DrcViolationView,
> {
    edge_cell(t, left_clearance2(t), r) + edge_cell(t, right_clearance2(t, board_w), r)
        + edge_cell(t, bottom_clearance2(t), r) + edge_cell(t, top_clearance2(t, board_h), r)
}

/// Edge violations of the traces before index `i`.
pub open spec fn edge_traces_before(
    ts: Seq<TraceView>,
    board_w: int,
    board_h: int,
    r: PcbDesignRules,
    i: int,
) -> Seq<DrcViolationView>
    decreases i,
{
    if i <= 0 {
        Seq::empty()
    } else {
        edge_traces_before(ts, board_w, board_h, r, i - 1) + trace_edge_cells(
            ts[i - 1],
            board_w,
            board_h,
            r,
        )
    }
}

/// All violations of the edge pass: empty unless the layout declares an
/// outline with known width and height.
pub open spec fn spec_edge_pass(l: LayoutView, r: PcbDesignRules) -> Seq<DrcViolationView> {
    match l.outline {
        Some(o) => match (o.width, o.height) {
            (Some(w), Some(h)) => edge_traces_before(
                l.traces,
                nm_of(w as int, o.unit),
                nm_of(h as int, o.unit),
                r,
                l.traces.len() as int,
            ),
            _ => Seq::empty(),
        },
        None => Seq::empty(),
    }
}

// ---------------------------------------------------------------------------
// Courtyard pass
// ---------------------------------------------------------------------------

/// Whether two same-layer components are close enough to need manual review:
/// the straight-line distance between their reference positions is below the
/// minimum courtyard clearance.
pub open spec fn courtyard_pair_bad(
    c1: PlacedComponentView,
    c2: PlacedComponentView,
    r: PcbDesignRules,
) -> bool {
    &&& c1.layer == c2.layer
    &&& twice_dist_lt(pos_pair_d2(c1.position, c2.position), 2 * r.min_courtyard_clearance)
}

/// The floored centre distance reported for a component pair.
pub open spec fn courtyard_distance(c1: PlacedComponentView, c2: PlacedComponentView) -> int {
    clearance_floor(pos_pair_d2(c1.position, c2.position), 0)
}

/// The warning emitted for a too-close component pair.
pub open spec fn courtyard_violation(
    c1: PlacedComponentView,
    c2: PlacedComponentView,
    r: PcbDesignRules,
) -> DrcViolationView {
    DrcViolationView {
        rule: "clearance.courtyard"@,
        message: spec_courtyard_msg(
            c1.reference,
            c2.reference,
            courtyard_distance(c1, c2),
        ),
        location: spec_position_point(c1.position),
        severity: DrcSeverity::Warning,
        values: Some(
            DrcValuesView {
                measured: courtyard_distance(c1, c2),
                limit: r.min_courtyard_clearance as int,
                unit: "nm"@,
            },
        ),
        fix: None,
    }
}

/// Message naming both reference designators and their distance.
pub open spec fn spec_courtyard_msg(r1: Seq<char>, r2: Seq<char>, d: int) -> Seq<char> {
    "Components "@ + r1 + " and "@ + r2 + " may overlap (distance: "@ + spec_i64_string(d)
        + " nm)"@
}

/// Violations of component pair `(i, j)`: none or one.
pub open spec fn courtyard_cell(
    cs: Seq<PlacedComponentView>,
    r: PcbDesignRules,
    i: int,
    j: int,
) -> Seq<DrcViolationView> {
    if courtyard_pair_bad(cs[i], cs[j], r) {
        seq![courtyard_violation(cs[i], cs[j], r)]
    } else {
        Seq::empty()
    }
}

/// Violations of component pairs `(i, i+1) .. (i, j-1)`.
pub open spec fn courtyard_cells_before(
    cs: Seq<PlacedComponentView>,
    r: PcbDesignRules,
    i: int,
    j: int,
) -> Seq<DrcViolationView>
    decreases j - i,
{
    if j <= i + 1 {
        Seq::empty()
    } else {
        courtyard_cells_before(cs, r, i, j - 1) + courtyard_cell(cs, r, i, j - 1)
    }
}

/// Violations of all component pairs whose first index is below `i`.
pub open spec fn courtyard_rows_before(
    cs: Seq<PlacedComponentView>,
    r: PcbDesignRules,
    i: int,
) -> Seq<DrcViolationView>
    decreases i,
{
    if i <= 0 {
        Seq::empty()
    } else {
        courtyard_rows_before(cs, r, i - 1) + courtyard_cells_before(
            cs,
            r,
            i - 1,
            cs.len() as int,
        )
    }
}

/// All violations of the courtyard pass, in pair order.
pub open spec fn spec_courtyard_pass(cs: Seq<PlacedComponentView>, r: PcbDesignRules) -> Seq<
    DrcViolationView,
> {
    courtyard_rows_before(cs, r, cs.len() as int)
}

// ---------------------------------------------------------------------------
// The whole check
// ---------------------------------------------------------------------------

/// Every violation `check_all` reports for the given layout and rules, in
/// order: track widths, track clearances, via rules, edge clearances,
/// courtyard overlaps.
pub open spec fn spec_check_all(l: LayoutView, r: PcbDesignRules) -> Seq<DrcViolationView> {
    spec_width_pass(l.traces, r) + spec_clearance_pass(l.traces, r) + spec_via_pass(l.vias, r)
        + spec_edge_pass(l, r) + spec_courtyard_pass(l.components, r)
}

// ---------------------------------------------------------------------------
// The checker
// ---------------------------------------------------------------------------

/// PCB DRC checker: runs a fixed pipeline of independent checks over one
/// layout and one constraint set.
pub struct PcbDrcChecker<'a> {
    layout: &'a Layout,
    rules: PcbDesignRules,
}

impl<'a> PcbDrcChecker<'a> {
    /// The layout under check.
    pub closed spec fn layout_view(&self) -> LayoutView {
        self.layout@
    }

    /// The rules checked against.
    pub closed spec fn rules_spec(&self) -> PcbDesignRules {
        self.rules
    }

    /// Create a new PCB DRC checker.
    pub fn new(layout: &'a Layout, rules: PcbDesignRules) -> (c: PcbDrcChecker<'a>)
        ensures
            c.layout_view() == layout@,
            c.rules_spec() == rules,
    {
        PcbDrcChecker { layout, rules }
    }

    /// Check minimum track widths.
    fn check_track_widths(&self, report: &mut DrcReport)
        requires
            self.layout_view().wf(),
            self.rules_spec().wf(),
        ensures
            final(report)@ == (DrcReportView {
                violations: old(report)@.violations + spec_width_pass(
                    self.layout_view().traces,
                    self.rules_spec(),
                ),
                ..old(report)@
            }),
    {
        let traces = &self.layout.traces;
        let ghost ts = self.layout_view().traces;
        let mut i: usize = 0;
        while i < traces.len()
            invariant
                self.layout_view().wf(),
                self.rules_spec().wf(),
                ts == self.layout_view().traces,
                ts.len() == traces.len(),
                ts == traces.deep_view(),
                0 <= i <= traces.len(),
                report@ == (DrcReportView {
                    violations: old(report)@.violations + spec_width_pass(
                        ts.take(i as int),
                        self.rules_spec(),
                    ),
                    ..old(report)@
                }),
            decreases traces.len() - i,
        {
            let t = &traces[i];
            proof {
                assert(ts[i as int] == t@);
                assert(ts[i as int].wf());
                assert(ts.take(i as int + 1) =~= ts.take(i as int).push(ts[i as int]));
                lemma_width_pass_push(ts.take(i as int), ts[i as int], self.rules_spec());
            }
            let w = to_nm(t.width, t.unit);
            if w < self.rules.min_track_width {
                let midpoint = trace_midpoint(t);
                let message = msg3(
                    "Track width ",
                    w,
                    " nm is below minimum ",
                    self.rules.min_track_width,
                    " nm",
                );
                let fix = msg2(
                    "Increase track width to at least ",
                    self.rules.min_track_width,
                    " nm",
                );
                report.push(
                    DrcViolation::new("width.track", message, midpoint).with_severity(
                        DrcSeverity::Error,
                    ).with_values(w, self.rules.min_track_width, "nm").with_fix(fix),
                );
                proof {
                    assert(report@.violations =~= old(report)@.violations + spec_width_pass(
                        ts.take(i as int + 1),
                        self.rules_spec(),
                    ));
                }
            }
            i = i + 1;
        }
        proof {
            assert(ts.take(traces.len() as int) =~= ts);
        }
    }

    /// Check track-to-track clearances.
    fn check_track_clearances(&self, report: &mut DrcReport)
        requires
            self.layout_view().wf(),
            self.rules_spec().wf(),
        ensures
            final(report)@ == (DrcReportView {
                violations: old(report)@.violations + spec_clearance_pass(
                    self.layout_view().traces,
                    self.rules_spec(),
                ),
                ..old(report)@
            }),
    {
        let traces = &self.layout.traces;
        let ghost ts = self.layout_view().traces;
        let ghost n = ts.len() as int;
        let mut i: usize = 0;
        while i < traces.len()
            invariant
                self.layout_view().wf(),
                self.rules_spec().wf(),
                ts == self.layout_view().traces,
                ts.len() == traces.len(),
                ts == traces.deep_view(),
                n == ts.len() as int,
                0 <= i <= traces.len(),
                report@ == (DrcReportView {
                    violations: old(report)@.violations + clearance_rows_before(
                        ts,
                        self.rules_spec(),
                        i as int,
                    ),
                    ..old(report)@
                }),
            decreases traces.len() - i,
        {
            let mut j: usize = i + 1;
            while j < traces.len()
                invariant
                    self.layout_view().wf(),
                    self.rules_spec().wf(),
                    ts == self.layout_view().traces,
                    ts.len() == traces.len(),
                    ts == traces.deep_view(),
                    n == ts.len() as int,
                    0 <= i < j <= traces.len(),
                    report@ == (DrcReportView {
                        violations: old(report)@.violations + clearance_rows_before(
                            ts,
                            self.rules_spec(),
                            i as int,
                        ) + clearance_cells_before(ts, self.rules_spec(), i as int, j as int),
                        ..old(report)@
                    }),
                decreases traces.len() - j,
            {
                let t1 = &traces[i];
                let t2 = &traces[j];
                proof {
                    assert(ts[i as int] == t1@ && ts[j as int] == t2@);
                    assert(ts[i as int].wf() && ts[j as int].wf());
                }
                let same_layer = t1.layer == t2.layer;
                let same_net = t1.net == t2.net;
                if same_layer && !same_net {
                    let m1 = trace_midpoint(t1);
                    let m2 = trace_midpoint(t2);
                    let d2 = dist2(m1.x, m1.y, m2.x, m2.y);
                    let w1 = to_nm(t1.width, t1.unit);
                    let w2 = to_nm(t2.width, t2.unit);
                    let clearance = clamped_clearance(d2, w1, w2);
                    proof {
                        lemma_clearance_decision(
                            d2 as int,
                            w1 + w2,
                            self.rules.min_track_clearance as int,
                        );
                    }
                    if clearance < self.rules.min_track_clearance {
                        let message = msg3(
                            "Track clearance ",
                            clearance,
                            " nm is below minimum ",
                            self.rules.min_track_clearance,
                            " nm",
                        );
                        report.push(
                            DrcViolation::new("clearance.track_to_track", message, m1)
                                .with_severity(DrcSeverity::Error)
                                .with_values(clearance, self.rules.min_track_clearance, "nm")
                                .with_fix(String::from_str("Increase spacing between tracks")),
                        );
                    }
                }
                proof {
                    assert(clearance_cells_before(ts, self.rules_spec(), i as int, j as int + 1)
                        =~= clearance_cells_before(ts, self.rules_spec(), i as int, j as int)
                        + clearance_cell(ts, self.rules_spec(), i as int, j as int));
                    assert(report@.violations =~= old(report)@.violations
                        + clearance_rows_before(ts, self.rules_spec(), i as int)
                        + clearance_cells_before(
                        ts,
                        self.rules_spec(),
                        i as int,
                        j as int + 1,
                    ));
                }
                j = j + 1;
            }
            proof {
                assert(clearance_rows_before(ts, self.rules_spec(), i as int + 1)
                    =~= clearance_rows_before(ts, self.rules_spec(), i as int)
                    + clearance_cells_before(ts, self.rules_spec(), i as int, n));
            }
            i = i + 1;
        }
        proof {
            if traces.len() == 0 {
                assert(clearance_rows_before(ts, self.rules_spec(), 0) =~= Seq::<
                    DrcViolationView,
                >::empty());
            }
        }
    }

    /// Check via rules (diameter, drill, annular ring), then via-to-via
    /// clearances.
    fn check_via_rules(&self, report: &mut DrcReport)
        requires
            self.layout_view().wf(),
            self.rules_spec().wf(),
        ensures
            final(report)@ == (DrcReportView {
                violations: old(report)@.violations + spec_via_pass(
                    self.layout_view().vias,
                    self.rules_spec(),
                ),
                ..old(report)@
            }),
    {
        let vias = &self.layout.vias;
        let ghost vs = self.layout_view().vias;
        let ghost n = vs.len() as int;
        let mut i: usize = 0;
        while i < vias.len()
            invariant
                self.layout_view().wf(),
                self.rules_spec().wf(),
                vs == self.layout_view().vias,
                vs.len() == vias.len(),
                vs == vias.deep_view(),
                0 <= i <= vias.len(),
                report@ == (DrcReportView {
                    violations: old(report)@.violations + via_singles_before(
                        vs,
                        self.rules_spec(),
                        i as int,
                    ),
                    ..old(report)@
                }),
            decreases vias.len() - i,
        {
            let via = &vias[i];
            proof {
                assert(vs[i as int] == via@);
                assert(vs[i as int].wf());
            }
            let pad = to_nm(via.pad, via.unit);
            let drill = to_nm(via.drill, via.unit);
            let location = position_to_point(&via.position);
            if pad < self.rules.min_via_diameter {
                let message = msg3(
                    "Via diameter ",
                    pad,
                    " nm is below minimum ",
                    self.rules.min_via_diameter,
                    " nm",
                );
                report.push(
                    DrcViolation::new("size.via_diameter", message, location).with_severity(
                        DrcSeverity::Error,
                    ).with_values(pad, self.rules.min_via_diameter, "nm"),
                );
            }
            if drill < self.rules.min_via_drill {
                let message = msg3(
                    "Via drill ",
                    drill,
                    " nm is below minimum ",
                    self.rules.min_via_drill,
                    " nm",
                );
                report.push(
                    DrcViolation::new("size.via_drill", message, location).with_severity(
                        DrcSeverity::Error,
                    ).with_values(drill, self.rules.min_via_drill, "nm"),
                );
            }
            let ring2 = pad - drill;
            if ring2 < 2 * self.rules.min_annular_ring {
                let ring = div2_floor(ring2);
                let message = msg3(
                    "Annular ring ",
                    ring,
                    " nm is below minimum ",
                    self.rules.min_annular_ring,
                    " nm",
                );
                report.push(
                    DrcViolation::new("size.annular_ring", message, location).with_severity(
                        DrcSeverity::Error,
                    ).with_values(ring, self.rules.min_annular_ring, "nm").with_fix(
                        String::from_str("Increase via diameter or decrease drill size"),
                    ),
                );
            }
            proof {
                assert(via_singles_before(vs, self.rules_spec(), i as int + 1)
                    =~= via_singles_before(vs, self.rules_spec(), i as int) + via_single_cells(
                    vs[i as int],
                    self.rules_spec(),
                ));
                assert(report@.violations =~= old(report)@.violations + via_singles_before(
                    vs,
                    self.rules_spec(),
                    i as int + 1,
                ));
            }
            i = i + 1;
        }
        let ghost after_singles = report@.violations;
        let mut i: usize = 0;
        while i < vias.len()
            invariant
                self.layout_view().wf(),
                self.rules_spec().wf(),
                vs == self.layout_view().vias,
                vs.len() == vias.len(),
                vs == vias.deep_view(),
                n == vs.len() as int,
                0 <= i <= vias.len(),
                after_singles == old(report)@.violations + via_singles_before(
                    vs,
                    self.rules_spec(),
                    n,
                ),
                report@ == (DrcReportView {
                    violations: after_singles + via_rows_before(vs, self.rules_spec(), i as int),
                    ..old(report)@
                }),
            decreases vias.len() - i,
        {
            let mut j: usize = i + 1;
            while j < vias.len()
                invariant
                    self.layout_view().wf(),
                    self.rules_spec().wf(),
                    vs == self.layout_view().vias,
                    vs.len() == vias.len(),
                    vs == vias.deep_view(),
                    n == vs.len() as int,
                    0 <= i < j <= vias.len(),
                    report@ == (DrcReportView {
                        violations: after_singles + via_rows_before(vs, self.rules_spec(), i as int)
                            + via_cells_before(vs, self.rules_spec(), i as int, j as int),
                        ..old(report)@
                    }),
                decreases vias.len() - j,
            {
                let v1 = &vias[i];
                let v2 = &vias[j];
                proof {
                    assert(vs[i as int] == v1@ && vs[j as int] == v2@);
                    assert(vs[i as int].wf() && vs[j as int].wf());
                }
                if !(v1.net == v2.net) {
                    let p1 = position_to_point(&v1.position);
                    let p2 = position_to_point(&v2.position);
                    let d2 = dist2(p1.x, p1.y, p2.x, p2.y);
                    let pad1 = to_nm(v1.pad, v1.unit);
                    let pad2 = to_nm(v2.pad, v2.unit);
                    let edge_distance = floored_clearance(d2, pad1, pad2);
                    proof {
                        lemma_clearance_decision(
                            d2 as int,
                            pad1 + pad2,
                            self.rules.min_via_clearance as int,
                        );
                    }
                    if edge_distance < self.rules.min_via_clearance {
                        let message = msg3(
                            "Via clearance ",
                            edge_distance,
                            " nm is below minimum ",
                            self.rules.min_via_clearance,
                            " nm",
                        );
                        report.push(
                            DrcViolation::new("clearance.via_to_via", message, p1).with_severity(
                                DrcSeverity::Error,
                            ).with_values(edge_distance, self.rules.min_via_clearance, "nm"),
                        );
                    }
                }
                proof {
                    assert(via_cells_before(vs, self.rules_spec(), i as int, j as int + 1)
                        =~= via_cells_before(vs, self.rules_spec(), i as int, j as int) + via_cell(
                        vs,
                        self.rules_spec(),
                        i as int,
                        j as int,
                    ));
                    assert(report@.violations =~= after_singles + via_rows_before(
                        vs,
                        self.rules_spec(),
                        i as int,
                    ) + via_cells_before(vs, self.rules_spec(), i as int, j as int + 1));
                }
                j = j + 1;
            }
            proof {
                assert(via_rows_before(vs, self.rules_spec(), i as int + 1) =~= via_rows_before(
                    vs,
                    self.rules_spec(),
                    i as int,
                ) + via_cells_before(vs, self.rules_spec(), i as int, n));
                assert(report@.violations =~= after_singles + via_rows_before(
                    vs,
                    self.rules_spec(),
                    i as int + 1,
                ));
            }
            i = i + 1;
        }
        proof {
            assert(report@.violations =~= old(report)@.violations + spec_via_pass(
                vs,
                self.rules_spec(),
            ));
        }
    }

    /// Check copper-to-edge clearances; runs only when the layout declares a
    /// rectangular outline with known width and height.
    #[verifier::rlimit(60)]
    fn check_edge_clearances(&self, report: &mut DrcReport)
        requires
            self.layout_view().wf(),
            self.rules_spec().wf(),
        ensures
            final(report)@ == (DrcReportView {
                violations: old(report)@.violations + spec_edge_pass(
                    self.layout_view(),
                    self.rules_spec(),
                ),
                ..old(report)@
            }),
    {
        if let Some(outline) = &self.layout.outline {
            if let (Some(board_w), Some(board_h)) = (outline.width, outline.height) {
                let w_nm = to_nm(board_w, outline.unit);
                let h_nm = to_nm(board_h, outline.unit);
                let ghost bw = w_nm as int;
                let ghost bh = h_nm as int;
                let traces = &self.layout.traces;
                let ghost ts = self.layout_view().traces;
                let mut i: usize = 0;
                while i < traces.len()
                    invariant
                        self.layout_view().wf(),
                        self.rules_spec().wf(),
                        ts == self.layout_view().traces,
                        ts.len() == traces.len(),
                        ts == traces.deep_view(),
                        0 <= i <= traces.len(),
                        bw == w_nm as int,
                        bh == h_nm as int,
                        nm_in_range(bw),
                        nm_in_range(bh),
                        report@ == (DrcReportView {
                            violations: old(report)@.violations + edge_traces_before(
                                ts,
                                bw,
                                bh,
                                self.rules_spec(),
                                i as int,
                            ),
                            ..old(report)@
                        }),
                    decreases traces.len() - i,
                {
                    let trace = &traces[i];
                    proof {
                        assert(ts[i as int] == trace@);
                        assert(ts[i as int].wf());
                        lemma_trace_nm_in_range(ts[i as int]);
                    }
                    let sx = to_nm(trace.start.x, trace.start.unit);
                    let sy = to_nm(trace.start.y, trace.start.unit);
                    let ex = to_nm(trace.end.x, trace.end.unit);
                    let ey = to_nm(trace.end.y, trace.end.unit);
                    let w = to_nm(trace.width, trace.unit);
                    let midpoint = trace_midpoint(trace);
                    let min_x = if sx <= ex { sx } else { ex };
                    let max_x = if sx >= ex { sx } else { ex };
                    let min_y = if sy <= ey { sy } else { ey };
                    let max_y = if sy >= ey { sy } else { ey };
                    let limit2 = 2 * self.rules.min_edge_clearance;

                    let left2 = 2 * min_x - w;
                    if left2 < limit2 {
                        report.push(self.edge_violation_at(midpoint, div2_floor(left2)));
                    }
                    let right2 = 2 * (w_nm - max_x) - w;
                    if right2 < limit2 {
                        report.push(self.edge_violation_at(midpoint, div2_floor(right2)));
                    }
                    let bottom2 = 2 * min_y - w;
                    if bottom2 < limit2 {
                        report.push(self.edge_violation_at(midpoint, div2_floor(bottom2)));
                    }
                    let top2 = 2 * (h_nm - max_y) - w;
                    if top2 < limit2 {
                        report.push(self.edge_violation_at(midpoint, div2_floor(top2)));
                    }
                    proof {
                        assert(edge_traces_before(ts, bw, bh, self.rules_spec(), i as int + 1)
                            =~= edge_traces_before(ts, bw, bh, self.rules_spec(), i as int)
                            + trace_edge_cells(ts[i as int], bw, bh, self.rules_spec()));
                        assert(report@.violations =~= old(report)@.violations + edge_traces_before(
                            ts,
                            bw,
                            bh,
                            self.rules_spec(),
                            i as int + 1,
                        ));
                    }
                    i = i + 1;
                }
                proof {
                    assert(report@.violations =~= old(report)@.violations + spec_edge_pass(
                        self.layout_view(),
                        self.rules_spec(),
                    ));
                }
                return ;
            }
        }
        proof {
            assert(report@.violations =~= old(report)@.violations + spec_edge_pass(
                self.layout_view(),
                self.rules_spec(),
            ));
        }
    }

    /// The violation for one failed edge test of one trace.
    fn edge_violation_at(&self, midpoint: Point2D, clearance: i64) -> (v: DrcViolation)
        ensures
            v@ == (DrcViolationView {
                rule: "clearance.edge"@,
                message: spec_msg3(
                    "Track too close to board edge ("@,
                    clearance as int,
                    " nm < "@,
                    self.rules_spec().min_edge_clearance as int,
                    " nm)"@,
                ),
                location: midpoint,
                severity: DrcSeverity::Error,
                values: Some(
                    DrcValuesView {
                        measured: clearance as int,
                        limit: self.rules_spec().min_edge_clearance as int,
                        unit: "nm"@,
                    },
                ),
                fix: None,
            }),
    {
        let message = msg3(
            "Track too close to board edge (",
            clearance,
            " nm < ",
            self.rules.min_edge_clearance,
            " nm)",
        );
        DrcViolation::new("clearance.edge", message, midpoint).with_severity(
            DrcSeverity::Error,
        ).with_values(clearance, self.rules.min_edge_clearance, "nm")
    }

    /// Check component courtyard overlaps: a proximity heuristic over
    /// reference positions, reported as warnings for manual review.
    fn check_courtyard_overlaps(&self, report: &mut DrcReport)
        requires
            self.layout_view().wf(),
            self.rules_spec().wf(),
        ensures
            final(report)@ == (DrcReportView {
                violations: old(report)@.violations + spec_courtyard_pass(
                    self.layout_view().components,
                    self.rules_spec(),
                ),
                ..old(report)@
            }),
    {
        let components = &self.layout.components;
        let ghost cs = self.layout_view().components;
        let ghost n = cs.len() as int;
        let mut i: usize = 0;
        while i < components.len()
            invariant
                self.layout_view().wf(),
                self.rules_spec().wf(),
                cs == self.layout_view().components,
                cs.len() == components.len(),
                cs == components.deep_view(),
                n == cs.len() as int,
                0 <= i <= components.len(),
                report@ == (DrcReportView {
                    violations: old(report)@.violations + courtyard_rows_before(
                        cs,
                        self.rules_spec(),
                        i as int,
                    ),
                    ..old(report)@
                }),
            decreases components.len() - i,
        {
            let mut j: usize = i + 1;
            while j < components.len()
                invariant
                    self.layout_view().wf(),
                    self.rules_spec().wf(),
                    cs == self.layout_view().components,
                    cs.len() == components.len(),
                    cs == components.deep_view(),
                    n == cs.len() as int,
                    0 <= i < j <= components.len(),
                    report@ == (DrcReportView {
                        violations: old(report)@.violations + courtyard_rows_before(
                            cs,
                            self.rules_spec(),
                            i as int,
                        ) + courtyard_cells_before(cs, self.rules_spec(), i as int, j as int),
                        ..old(report)@
                    }),
                decreases components.len() - j,
            {
                let c1 = &components[i];
                let c2 = &components[j];
                proof {
                    assert(cs[i as int] == c1@ && cs[j as int] == c2@);
                    assert(cs[i as int].wf() && cs[j as int].wf());
                }
                if c1.layer == c2.layer {
                    let p1 = position_to_point(&c1.position);
                    let p2 = position_to_point(&c2.position);
                    let d2 = dist2(p1.x, p1.y, p2.x, p2.y);
                    let distance = floored_clearance(d2, 0, 0);
                    proof {
                        lemma_clearance_decision(
                            d2 as int,
                            0,
                            self.rules.min_courtyard_clearance as int,
                        );
                    }
                    if distance < self.rules.min_courtyard_clearance {
                        let message = courtyard_msg(&c1.reference, &c2.reference, distance);
                        report.push(
                            DrcViolation::new("clearance.courtyard", message, p1).with_severity(
                                DrcSeverity::Warning,
                            ).with_values(distance, self.rules.min_courtyard_clearance, "nm"),
                        );
                    }
                }
                proof {
                    assert(courtyard_cells_before(cs, self.rules_spec(), i as int, j as int + 1)
                        =~= courtyard_cells_before(cs, self.rules_spec(), i as int, j as int)
                        + courtyard_cell(cs, self.rules_spec(), i as int, j as int));
                    assert(report@.violations =~= old(report)@.violations + courtyard_rows_before(
                        cs,
                        self.rules_spec(),
                        i as int,
                    ) + courtyard_cells_before(cs, self.rules_spec(), i as int, j as int + 1));
                }
                j = j + 1;
            }
            proof {
                assert(courtyard_rows_before(cs, self.rules_spec(), i as int + 1)
                    =~= courtyard_rows_before(cs, self.rules_spec(), i as int)
                    + courtyard_cells_before(cs, self.rules_spec(), i as int, n));
            }
            i = i + 1;
        }
        proof {
            if components.len() == 0 {
                assert(courtyard_rows_before(cs, self.rules_spec(), 0) =~= Seq::<
                    DrcViolationView,
                >::empty());
            }
        }
    }

    /// Run all PCB DRC checks. The report is a pure function of the layout
    /// and the rules: its subject is `PCB Layout`, its kind `pcb`, and its
    /// violations are exactly [`spec_check_all`] of the inputs.
    pub fn check_all(&self) -> (report: DrcReport)
        requires
            self.layout_view().wf(),
            self.rules_spec().wf(),
        ensures
            report@ == (DrcReportView {
                subject: "PCB Layout"@,
                kind: "pcb"@,
                violations: spec_check_all(self.layout_view(), self.rules_spec()),
            }),
    {
        let mut report = DrcReport::new("PCB Layout", "pcb");
        self.check_track_widths(&mut report);
        self.check_track_clearances(&mut report);
        self.check_via_rules(&mut report);
        self.check_edge_clearances(&mut report);
        self.check_courtyard_overlaps(&mut report);
        proof {
            assert(report@.violations =~= spec_check_all(self.layout_view(), self.rules_spec()));
        }
        report
    }

    /// Get all available PCB DRC rules: a fixed advisory list, independent of
    /// any checker run.
    pub fn available_rules() -> (rules: Vec<DrcRule>)
        ensures
            rules.deep_view() == spec_available_rules(),
    {
        let mut rules: Vec<DrcRule> = Vec::new();
        rules.push(
            mk_rule(
                "clearance.track_to_track",
                "Track-to-Track Clearance",
                "Minimum spacing between copper tracks",
                "Clearance",
                DrcSeverity::Error,
                false,
            ),
        );
        rules.push(
            mk_rule(
                "clearance.track_to_pad",
                "Track-to-Pad Clearance",
                "Minimum spacing between tracks and pads",
                "Clearance",
                DrcSeverity::Error,
                false,
            ),
        );
        rules.push(
            mk_rule(
                "clearance.via_to_via",
                "Via-to-Via Clearance",
                "Minimum spacing between vias",
                "Clearance",
                DrcSeverity::Error,
                false,
            ),
        );
        rules.push(
            mk_rule(
                "clearance.edge",
                "Edge Clearance",
                "Minimum copper distance from board edge",
                "Clearance",
                DrcSeverity::Error,
                false,
            ),
        );
        rules.push(
            mk_rule(
                "clearance.courtyard",
                "Courtyard Clearance",
                "Minimum spacing between component courtyards",
                "Clearance",
                DrcSeverity::Warning,
                true,
            ),
        );
        rules.push(
            mk_rule(
                "width.track",
                "Minimum Track Width",
                "Tracks must meet minimum width requirement",
                "Size",
                DrcSeverity::Error,
                false,
            ),
        );
        rules.push(
            mk_rule(
                "size.via_diameter",
                "Minimum Via Diameter",
                "Vias must meet minimum diameter requirement",
                "Size",
                DrcSeverity::Error,
                false,
            ),
        );
        rules.push(
            mk_rule(
                "size.via_drill",
                "Minimum Via Drill",
                "Via drill holes must meet minimum size",
                "Size",
                DrcSeverity::Error,
                false,
            ),
        );
        rules.push(
            mk_rule(
                "size.annular_ring",
                "Minimum Annular Ring",
                "Copper ring around drill holes must meet minimum",
                "Size",
                DrcSeverity::Error,
                false,
            ),
        );
        rules.push(
            mk_rule(
                "silk.over_pads",
                "Silkscreen Over Pads",
                "Silkscreen should not overlap solder pads",
                "Silkscreen",
                DrcSeverity::Warning,
                true,
            ),
        );
        proof {
            assert(rules.deep_view() =~= spec_available_rules());
        }
        rules
    }
}

/// The fixed rule registry surfaced by [`PcbDrcChecker::available_rules`].
pub open spec fn spec_available_rules() -> Seq<DrcRuleView> {
    seq![
        spec_rule("clearance.track_to_track"@, "Track-to-Track Clearance"@, "Minimum spacing between copper tracks"@, "Clearance"@, DrcSeverity::Error, false),
        spec_rule("clearance.track_to_pad"@, "Track-to-Pad Clearance"@, "Minimum spacing between tracks and pads"@, "Clearance"@, DrcSeverity::Error, false),
        spec_rule("clearance.via_to_via"@, "Via-to-Via Clearance"@, "Minimum spacing between vias"@, "Clearance"@, DrcSeverity::Error, false),
        spec_rule("clearance.edge"@, "Edge Clearance"@, "Minimum copper distance from board edge"@, "Clearance"@, DrcSeverity::Error, false),
        spec_rule("clearance.courtyard"@, "Courtyard Clearance"@, "Minimum spacing between component courtyards"@, "Clearance"@, DrcSeverity::Warning, true),
        spec_rule("width.track"@, "Minimum Track Width"@, "Tracks must meet minimum width requirement"@, "Size"@, DrcSeverity::Error, false),
        spec_rule("size.via_diameter"@, "Minimum Via Diameter"@, "Vias must meet minimum diameter requirement"@, "Size"@, DrcSeverity::Error, false),
        spec_rule("size.via_drill"@, "Minimum Via Drill"@, "Via drill holes must meet minimum size"@, "Size"@, DrcSeverity::Error, false),
        spec_rule("size.annular_ring"@, "Minimum Annular Ring"@, "Copper ring around drill holes must meet minimum"@, "Size"@, DrcSeverity::Error, false),
        spec_rule("silk.over_pads"@, "Silkscreen Over Pads"@, "Silkscreen should not overlap solder pads"@, "Silkscreen"@, DrcSeverity::Warning, true),
    ]
}

/// A rule descriptor value.
pub open spec fn spec_rule(
    id: Seq<char>,
    name: Seq<char>,
    description: Seq<char>,
    category: Seq<char>,
    default_severity: DrcSeverity,
    can_disable: bool,
) -> DrcRuleView {
    DrcRuleView { id, name, description, category, default_severity, can_disable }
}

fn mk_rule(
    id: &str,
    name: &str,
    description: &str,
    category: &str,
    default_severity: DrcSeverity,
    can_disable: bool,
) -> (r: DrcRule)
    ensures
        r@ == spec_rule(id@, name@, description@, category@, default_severity, can_disable),
{
    DrcRule {
        id: String::from_str(id),
        name: String::from_str(name),
        description: String::from_str(description),
        category: String::from_str(category),
        default_severity,
        can_disable,
    }
}

/// Message of a courtyard warning.
fn courtyard_msg(r1: &String, r2: &String, d: i64) -> (r: String)
    ensures
        r@ == spec_courtyard_msg(r1@, r2@, d as int),
{
    let mut s = String::new();
    push_str_part(&mut s, "Components ");
    push_str_part(&mut s, r1.as_str());
    push_str_part(&mut s, " and ");
    push_str_part(&mut s, r2.as_str());
    push_str_part(&mut s, " may overlap (distance: ");
    push_i64(&mut s, d);
    push_str_part(&mut s, " nm)");
    proof {
        assert(s@ =~= spec_courtyard_msg(r1@, r2@, d as int));
    }
    s
}

// ---------------------------------------------------------------------------
// Executable geometry helpers
// ---------------------------------------------------------------------------

/// Calculate the midpoint of a trace, in nanometres.
pub fn trace_midpoint(trace: &crate::layout::Trace) -> (p: Point2D)
    requires
        trace@.wf(),
    ensures
        p == spec_trace_midpoint(trace@),
        p.x as int == trace_mid_x(trace@),
        p.y as int == trace_mid_y(trace@),
        nm_in_range(p.x as int),
        nm_in_range(p.y as int),
{
    proof {
        lemma_trace_nm_in_range(trace@);
    }
    let sx = to_nm(trace.start.x, trace.start.unit);
    let sy = to_nm(trace.start.y, trace.start.unit);
    let ex = to_nm(trace.end.x, trace.end.unit);
    let ey = to_nm(trace.end.y, trace.end.unit);
    Point2D { x: div2_floor(sx + ex), y: div2_floor(sy + ey) }
}

/// Convert a position to a point, in nanometres.
pub fn position_to_point(pos: &Position) -> (p: Point2D)
    requires
        pos.wf(),
    ensures
        p == spec_position_point(*pos),
        p.x as int == pos_x_nm(*pos),
        p.y as int == pos_y_nm(*pos),
        nm_in_range(p.x as int),
        nm_in_range(p.y as int),
{
    proof {
        lemma_pos_nm_in_range(*pos);
    }
    Point2D { x: to_nm(pos.x, pos.unit), y: to_nm(pos.y, pos.unit) }
}

/// Floored clearance between two entities: `sqrt(d2) - (w1+w2)/2`, clamped at
/// zero from below.
fn clamped_clearance(d2: i128, w1: i64, w2: i64) -> (c: i64)
    requires
        0 <= d2 <= 0x8_0000_0000_0000_0000_0000_0000_0000_00,
        nm_in_range(w1 as int),
        nm_in_range(w2 as int),
    ensures
        c as int == trace_pair_clearance_raw(d2 as int, w1 as int + w2 as int),
{
    let t = floor_double_distance(d2);
    let c = div2_floor(t - w1 - w2);
    if c > 0 {
        c
    } else {
        0
    }
}

/// Floored clearance between two entities: `sqrt(d2) - (s1+s2)/2`, not
/// clamped, so it can be negative for overlapping entities.
fn floored_clearance(d2: i128, s1: i64, s2: i64) -> (c: i64)
    requires
        0 <= d2 <= 0x8_0000_0000_0000_0000_0000_0000_0000_00,
        nm_in_range(s1 as int),
        nm_in_range(s2 as int),
    ensures
        c as int == clearance_floor(d2 as int, s1 as int + s2 as int),
{
    let t = floor_double_distance(d2);
    div2_floor(t - s1 - s2)
}

/// Clamped floored clearance from a squared distance and a width sum.
pub open spec fn trace_pair_clearance_raw(d2: int, s: int) -> int {
    let c = clearance_floor(d2, s);
    if c > 0 {
        c
    } else {
        0
    }
}

/// Floor of twice the distance whose square is `d2`.
fn floor_double_distance(d2: i128) -> (t: i64)
    requires
        0 <= d2 <= 0x8_0000_0000_0000_0000_0000_0000_0000_00,
    ensures
        t as int == sqrt_floor(4 * d2 as int),
        0 <= t <= 0x5B00_0000_0000_0000,
{
    let q: u128 = (4 * d2) as u128;
    let t = isqrt_u128(q);
    proof {
        lemma_sqrt_floor_bounds(q as int);
        assert(sqrt_floor(q as int) <= 0x5B00_0000_0000_0000) by {
            if sqrt_floor(q as int) > 0x5B00_0000_0000_0000 {
                let s = sqrt_floor(q as int);
                assert(s * s > 0x5B00_0000_0000_0000 * 0x5B00_0000_0000_0000int) by (nonlinear_arith)
                    requires
                        s > 0x5B00_0000_0000_0000,
                ;
            }
        }
    }
    t as i64
}

} // verus!
