//! Properties of the DRC engine, stated and proved over the same
//! specification functions that [`crate::pcb_drc`]'s contracts use.

use vstd::prelude::*;
use crate::drc::DrcViolationView;
use crate::geom::Point2D;
use crate::layout::{LayoutView, TraceView, ViaView};
use crate::pcb_drc::{annular_ring_bad, annular_ring_violation, clearance_cell,
    clearance_cells_before, clearance_rows_before, clearance_violation, courtyard_cells_before,
    courtyard_rows_before, edge_traces_before, lemma_width_pass_push, spec_check_all,
    spec_clearance_pass, spec_courtyard_pass, spec_edge_pass, spec_position_point,
    spec_trace_midpoint, spec_via_pass, spec_width_pass, trace_mid_x, trace_mid_y,
    trace_pair_bad, via_cells_before, via_diameter_bad, via_diameter_violation, via_drill_bad,
    via_drill_violation, via_rows_before, via_single_cells, via_singles_before, width_bad,
    width_violation};
use crate::rules::PcbDesignRules;

verus! {

/// Number of violations with the given rule id at the given location.
pub open spec fn count_rule_at(vs: Seq<DrcViolationView>, rule: Seq<char>, loc: Point2D) -> int {
    vs.filter(|v: DrcViolationView| v.rule == rule && v.location == loc).len() as int
}

/// Helper: a sequence none of whose elements satisfies the count predicate
/// counts zero.
proof fn lemma_count_rule_at_zero(vs: Seq<DrcViolationView>, rule: Seq<char>, loc: Point2D)
    requires
        forall|i: int| 0 <= i < vs.len() ==> (#[trigger] vs[i]).rule != rule,
    ensures
        count_rule_at(vs, rule, loc) == 0,
{
    let pred = |v: DrcViolationView| v.rule == rule && v.location == loc;
    vs.lemma_all_neg_filter_empty(pred);
}

/// Counting distributes over concatenation.
proof fn lemma_count_rule_at_add(
    a: Seq<DrcViolationView>,
    b: Seq<DrcViolationView>,
    rule: Seq<char>,
    loc: Point2D,
)
    ensures
        count_rule_at(a + b, rule, loc) == count_rule_at(a, rule, loc) + count_rule_at(
            b,
            rule,
            loc,
        ),
{
    let pred = |v: DrcViolationView| v.rule == rule && v.location == loc;
    Seq::filter_distributes_over_add(a, b, pred);
}

// ---------------------------------------------------------------------------
// Which rules each pass can emit
// ---------------------------------------------------------------------------

proof fn lemma_clearance_cells_rule(ts: Seq<TraceView>, r: PcbDesignRules, i: int, j: int)
    ensures
        forall|k: int|
            0 <= k < clearance_cells_before(ts, r, i, j).len() ==> (#[trigger] clearance_cells_before(
                ts,
                r,
                i,
                j,
            )[k]).rule == "clearance.track_to_track"@,
    decreases j - i,
{
    if j > i + 1 {
        lemma_clearance_cells_rule(ts, r, i, j - 1);
    }
}

proof fn lemma_clearance_rows_rule(ts: Seq<TraceView>, r: PcbDesignRules, i: int)
    ensures
        forall|k: int|
            0 <= k < clearance_rows_before(ts, r, i).len() ==> (#[trigger] clearance_rows_before(
                ts,
                r,
                i,
            )[k]).rule == "clearance.track_to_track"@,
    decreases i,
{
    if i > 0 {
        lemma_clearance_rows_rule(ts, r, i - 1);
        lemma_clearance_cells_rule(ts, r, i - 1, ts.len() as int);
    }
}

/// A via's own three checks emit only the three size rules.
proof fn lemma_via_singles_rule(vs: Seq<ViaView>, r: PcbDesignRules, i: int)
    ensures
        forall|k: int|
            0 <= k < via_singles_before(vs, r, i).len() ==> {
                let rule = (#[trigger] via_singles_before(vs, r, i)[k]).rule;
                rule == "size.via_diameter"@ || rule == "size.via_drill"@ || rule
                    == "size.annular_ring"@
            },
    decreases i,
{
    if i > 0 {
        lemma_via_singles_rule(vs, r, i - 1);
    }
}

proof fn lemma_via_cells_rule(vs: Seq<ViaView>, r: PcbDesignRules, i: int, j: int)
    ensures
        forall|k: int|
            0 <= k < via_cells_before(vs, r, i, j).len() ==> (#[trigger] via_cells_before(
                vs,
                r,
                i,
                j,
            )[k]).rule == "clearance.via_to_via"@,
    decreases j - i,
{
    if j > i + 1 {
        lemma_via_cells_rule(vs, r, i, j - 1);
    }
}

proof fn lemma_via_rows_rule(vs: Seq<ViaView>, r: PcbDesignRules, i: int)
    ensures
        forall|k: int|
            0 <= k < via_rows_before(vs, r, i).len() ==> (#[trigger] via_rows_before(
                vs,
                r,
                i,
            )[k]).rule == "clearance.via_to_via"@,
    decreases i,
{
    if i > 0 {
        lemma_via_rows_rule(vs, r, i - 1);
        lemma_via_cells_rule(vs, r, i - 1, vs.len() as int);
    }
}

proof fn lemma_edge_traces_rule(
    ts: Seq<TraceView>,
    bw: int,
    bh: int,
    r: PcbDesignRules,
    i: int,
)
    ensures
        forall|k: int|
            0 <= k < edge_traces_before(ts, bw, bh, r, i).len() ==> (#[trigger] edge_traces_before(
                ts,
                bw,
                bh,
                r,
                i,
            )[k]).rule == "clearance.edge"@,
    decreases i,
{
    if i > 0 {
        lemma_edge_traces_rule(ts, bw, bh, r, i - 1);
    }
}

proof fn lemma_edge_pass_rule(l: LayoutView, r: PcbDesignRules)
    ensures
        forall|k: int|
            0 <= k < spec_edge_pass(l, r).len() ==> (#[trigger] spec_edge_pass(l, r)[k]).rule
                == "clearance.edge"@,
{
    match l.outline {
        Some(o) => match (o.width, o.height) {
            (Some(w), Some(h)) => {
                lemma_edge_traces_rule(
                    l.traces,
                    crate::units::nm_of(w as int, o.unit),
                    crate::units::nm_of(h as int, o.unit),
                    r,
                    l.traces.len() as int,
                );
            },
            _ => {},
        },
        None => {},
    }
}

proof fn lemma_courtyard_cells_rule(
    cs: Seq<crate::layout::PlacedComponentView>,
    r: PcbDesignRules,
    i: int,
    j: int,
)
    ensures
        forall|k: int|
            0 <= k < courtyard_cells_before(cs, r, i, j).len() ==> (#[trigger] courtyard_cells_before(
                cs,
                r,
                i,
                j,
            )[k]).rule == "clearance.courtyard"@,
    decreases j - i,
{
    if j > i + 1 {
        lemma_courtyard_cells_rule(cs, r, i, j - 1);
    }
}

proof fn lemma_courtyard_rows_rule(
    cs: Seq<crate::layout::PlacedComponentView>,
    r: PcbDesignRules,
    i: int,
)
    ensures
        forall|k: int|
            0 <= k < courtyard_rows_before(cs, r, i).len() ==> (#[trigger] courtyard_rows_before(
                cs,
                r,
                i,
            )[k]).rule == "clearance.courtyard"@,
    decreases i,
{
    if i > 0 {
        lemma_courtyard_rows_rule(cs, r, i - 1);
        lemma_courtyard_cells_rule(cs, r, i - 1, cs.len() as int);
    }
}

/// The eight rule identifiers the passes use are pairwise distinct where it
/// matters for counting.
proof fn lemma_rule_literals()
    ensures
        "clearance.track_to_track"@ != "width.track"@,
        "clearance.via_to_via"@ != "width.track"@,
        "clearance.edge"@ != "width.track"@,
        "clearance.courtyard"@ != "width.track"@,
        "size.via_diameter"@ != "width.track"@,
        "size.via_drill"@ != "width.track"@,
        "size.annular_ring"@ != "width.track"@,
        "clearance.track_to_track"@ != "size.annular_ring"@,
        "clearance.via_to_via"@ != "size.annular_ring"@,
        "clearance.edge"@ != "size.annular_ring"@,
        "clearance.courtyard"@ != "size.annular_ring"@,
        "size.via_diameter"@ != "size.annular_ring"@,
        "size.via_drill"@ != "size.annular_ring"@,
        "width.track"@ != "size.annular_ring"@,
{
    broadcast use vstd::string::group_string_axioms;

    reveal_strlit("clearance.track_to_track");
    reveal_strlit("clearance.via_to_via");
    reveal_strlit("clearance.edge");
    reveal_strlit("clearance.courtyard");
    reveal_strlit("size.via_diameter");
    reveal_strlit("size.via_drill");
    reveal_strlit("size.annular_ring");
    reveal_strlit("width.track");
    assert("clearance.track_to_track"@.len() == 24);
    assert("clearance.via_to_via"@.len() == 20);
    assert("clearance.edge"@.len() == 14);
    assert("clearance.courtyard"@.len() == 19);
    assert("size.via_diameter"@.len() == 17);
    assert("size.via_drill"@.len() == 14);
    assert("size.annular_ring"@.len() == 17);
    assert("width.track"@.len() == 11);
    assert("size.via_diameter"@[5] != "size.annular_ring"@[5]);
    assert("clearance.edge"@[0] != "size.via_drill"@[0]);
    assert("clearance.edge"@[0] != "width.track"@[0]);
    assert("size.via_drill"@[0] != "width.track"@[0]);
}

// ---------------------------------------------------------------------------
// Track width: one violation per offending trace
// ---------------------------------------------------------------------------

/// Trace midpoints pairwise distinct, so a midpoint identifies its trace.
pub open spec fn distinct_midpoints(ts: Seq<TraceView>) -> bool {
    forall|a: int, b: int|
        0 <= a < b < ts.len() ==> spec_trace_midpoint(#[trigger] ts[a]) != spec_trace_midpoint(
            #[trigger] ts[b],
        )
}

proof fn lemma_width_count_prefix(
    ts: Seq<TraceView>,
    r: PcbDesignRules,
    k: int,
    i: int,
)
    requires
        0 <= k < ts.len(),
        distinct_midpoints(ts),
        0 <= i <= ts.len(),
    ensures
        count_rule_at(
            spec_width_pass(ts.take(i), r),
            "width.track"@,
            spec_trace_midpoint(ts[k]),
        ) == if k < i && width_bad(ts[k], r) {
            1int
        } else {
            0int
        },
    decreases i,
{
    let rule = "width.track"@;
    let loc = spec_trace_midpoint(ts[k]);
    let pred = |v: DrcViolationView| v.rule == rule && v.location == loc;
    if i == 0 {
        reveal(Seq::filter);
        assert(ts.take(0) =~= Seq::<TraceView>::empty());
        assert(spec_width_pass(ts.take(0), r).len() == 0);
        lemma_count_rule_at_zero(spec_width_pass(ts.take(0), r), rule, loc);
    } else {
        lemma_width_count_prefix(ts, r, k, i - 1);
        assert(ts.take(i) =~= ts.take(i - 1).push(ts[i - 1]));
        lemma_width_pass_push(ts.take(i - 1), ts[i - 1], r);
        if width_bad(ts[i - 1], r) {
            let v = width_violation(ts[i - 1], r);
            spec_width_pass(ts.take(i - 1), r).lemma_filter_push(v, pred);
            if i - 1 == k {
                assert(pred(v));
            } else {
                assert(spec_trace_midpoint(ts[i - 1]) != loc);
                assert(!pred(v));
            }
        }
    }
}

/// A trace narrower than the minimum yields exactly one `width.track`
/// violation at its midpoint in the whole report; a wide-enough trace yields
/// none. Midpoints must be pairwise distinct so a location names one trace.
pub proof fn lemma_track_width_exactly_one(l: LayoutView, r: PcbDesignRules, k: int)
    requires
        0 <= k < l.traces.len(),
        distinct_midpoints(l.traces),
    ensures
        count_rule_at(
            spec_check_all(l, r),
            "width.track"@,
            spec_trace_midpoint(l.traces[k]),
        ) == if width_bad(l.traces[k], r) {
            1int
        } else {
            0int
        },
{
    let rule = "width.track"@;
    let loc = spec_trace_midpoint(l.traces[k]);
    let ts = l.traces;
    let w = spec_width_pass(ts, r);
    let c = spec_clearance_pass(ts, r);
    let v = spec_via_pass(l.vias, r);
    let e = spec_edge_pass(l, r);
    let cy = spec_courtyard_pass(l.components, r);
    lemma_rule_literals();

    assert(ts.take(ts.len() as int) =~= ts);
    lemma_width_count_prefix(ts, r, k, ts.len() as int);

    lemma_clearance_rows_rule(ts, r, ts.len() as int);
    lemma_count_rule_at_zero(c, rule, loc);
    lemma_via_singles_rule(l.vias, r, l.vias.len() as int);
    lemma_via_rows_rule(l.vias, r, l.vias.len() as int);
    lemma_count_rule_at_add(
        via_singles_before(l.vias, r, l.vias.len() as int),
        via_rows_before(l.vias, r, l.vias.len() as int),
        rule,
        loc,
    );
    lemma_count_rule_at_zero(via_singles_before(l.vias, r, l.vias.len() as int), rule, loc);
    lemma_count_rule_at_zero(via_rows_before(l.vias, r, l.vias.len() as int), rule, loc);
    lemma_edge_pass_rule(l, r);
    lemma_count_rule_at_zero(e, rule, loc);
    lemma_courtyard_rows_rule(l.components, r, l.components.len() as int);
    lemma_count_rule_at_zero(cy, rule, loc);

    lemma_count_rule_at_add(w, c, rule, loc);
    lemma_count_rule_at_add(w + c, v, rule, loc);
    lemma_count_rule_at_add(w + c + v, e, rule, loc);
    lemma_count_rule_at_add(w + c + v + e, cy, rule, loc);
}

// ---------------------------------------------------------------------------
// Clearance symmetry and same-net exemption
// ---------------------------------------------------------------------------

/// Swapping the two traces of a pair does not change whether the pair fails
/// the clearance check; the reported location always uses the first trace's
/// midpoint.
pub proof fn lemma_clearance_symmetric(t1: TraceView, t2: TraceView, r: PcbDesignRules)
    ensures
        trace_pair_bad(t1, t2, r) == trace_pair_bad(t2, t1, r),
        trace_pair_bad(t1, t2, r) ==> clearance_violation(t1, t2, r).location
            == spec_trace_midpoint(t1),
{
    let x1 = trace_mid_x(t1);
    let y1 = trace_mid_y(t1);
    let x2 = trace_mid_x(t2);
    let y2 = trace_mid_y(t2);
    assert(crate::geom::spec_dist2(x1, y1, x2, y2) == crate::geom::spec_dist2(x2, y2, x1, y1))
        by (nonlinear_arith);
}

/// Two traces on the same net never produce a `clearance.track_to_track`
/// violation, regardless of geometric proximity.
pub proof fn lemma_same_net_cell_empty(ts: Seq<TraceView>, r: PcbDesignRules, i: int, j: int)
    requires
        0 <= i < ts.len(),
        0 <= j < ts.len(),
        ts[i].net == ts[j].net,
    ensures
        clearance_cell(ts, r, i, j) == Seq::<DrcViolationView>::empty(),
{
}

proof fn lemma_same_net_cells_empty(ts: Seq<TraceView>, r: PcbDesignRules, i: int, j: int)
    requires
        forall|a: int, b: int|
            0 <= a < ts.len() && 0 <= b < ts.len() ==> (#[trigger] ts[a]).net == (
            #[trigger] ts[b]).net,
        0 <= i,
        j <= ts.len(),
    ensures
        clearance_cells_before(ts, r, i, j) == Seq::<DrcViolationView>::empty(),
    decreases j - i,
{
    if j > i + 1 {
        lemma_same_net_cells_empty(ts, r, i, j - 1);
        assert(clearance_cells_before(ts, r, i, j) =~= Seq::<DrcViolationView>::empty());
    }
}

/// In a layout whose traces all share one net, the clearance pass emits
/// nothing at all.
pub proof fn lemma_single_net_no_clearance(ts: Seq<TraceView>, r: PcbDesignRules, i: int)
    requires
        forall|a: int, b: int|
            0 <= a < ts.len() && 0 <= b < ts.len() ==> (#[trigger] ts[a]).net == (
            #[trigger] ts[b]).net,
        0 <= i <= ts.len(),
    ensures
        clearance_rows_before(ts, r, i) == Seq::<DrcViolationView>::empty(),
    decreases i,
{
    if i > 0 {
        lemma_single_net_no_clearance(ts, r, i - 1);
        lemma_same_net_cells_empty(ts, r, i - 1, ts.len() as int);
        assert(clearance_rows_before(ts, r, i) =~= Seq::<DrcViolationView>::empty());
    }
}

// ---------------------------------------------------------------------------
// Annular ring: violation present exactly when the ring is too small
// ---------------------------------------------------------------------------

/// Via positions pairwise distinct, so a location identifies its via.
pub open spec fn distinct_via_positions(vs: Seq<ViaView>) -> bool {
    forall|a: int, b: int|
        0 <= a < b < vs.len() ==> spec_position_point((#[trigger] vs[a]).position)
            != spec_position_point((#[trigger] vs[b]).position)
}

proof fn lemma_ring_count_single(v: ViaView, r: PcbDesignRules, loc: Point2D)
    ensures
        count_rule_at(via_single_cells(v, r), "size.annular_ring"@, loc) == if annular_ring_bad(
            v,
            r,
        ) && spec_position_point(v.position) == loc {
            1int
        } else {
            0int
        },
{
    let rule = "size.annular_ring"@;
    let pred = |x: DrcViolationView| x.rule == rule && x.location == loc;
    lemma_rule_literals();
    let c1: Seq<DrcViolationView> = if via_diameter_bad(v, r) {
        seq![via_diameter_violation(v, r)]
    } else {
        Seq::empty()
    };
    let c2: Seq<DrcViolationView> = if via_drill_bad(v, r) {
        seq![via_drill_violation(v, r)]
    } else {
        Seq::empty()
    };
    let c3: Seq<DrcViolationView> = if annular_ring_bad(v, r) {
        seq![annular_ring_violation(v, r)]
    } else {
        Seq::empty()
    };
    assert(forall|i: int| 0 <= i < c1.len() ==> (#[trigger] c1[i]).rule != rule);
    assert(forall|i: int| 0 <= i < c2.len() ==> (#[trigger] c2[i]).rule != rule);
    lemma_count_rule_at_zero(c1, rule, loc);
    lemma_count_rule_at_zero(c2, rule, loc);
    lemma_count_rule_at_add(c1, c2, rule, loc);
    lemma_count_rule_at_add(c1 + c2, c3, rule, loc);
    if annular_ring_bad(v, r) {
        assert(c3 =~= Seq::<DrcViolationView>::empty().push(annular_ring_violation(v, r)));
        Seq::<DrcViolationView>::empty().lemma_filter_push(annular_ring_violation(v, r), pred);
        Seq::<DrcViolationView>::empty().lemma_all_neg_filter_empty(pred);
        assert(pred(annular_ring_violation(v, r)) == (spec_position_point(v.position) == loc));
    }
}

proof fn lemma_ring_count_prefix(vs: Seq<ViaView>, r: PcbDesignRules, k: int, i: int)
    requires
        0 <= k < vs.len(),
        distinct_via_positions(vs),
        0 <= i <= vs.len(),
    ensures
        count_rule_at(
            via_singles_before(vs, r, i),
            "size.annular_ring"@,
            spec_position_point(vs[k].position),
        ) == if k < i && annular_ring_bad(vs[k], r) {
            1int
        } else {
            0int
        },
    decreases i,
{
    let rule = "size.annular_ring"@;
    let loc = spec_position_point(vs[k].position);
    if i == 0 {
        lemma_count_rule_at_zero(via_singles_before(vs, r, 0), rule, loc);
    } else {
        lemma_ring_count_prefix(vs, r, k, i - 1);
        lemma_count_rule_at_add(via_singles_before(vs, r, i - 1), via_single_cells(vs[i - 1], r), rule, loc);
        lemma_ring_count_single(vs[i - 1], r, loc);
        if i - 1 != k {
            assert(spec_position_point(vs[i - 1].position) != loc);
        }
    }
}

/// A via's annular ring `(pad - drill)/2` is below the minimum exactly when a
/// `size.annular_ring` violation for that via is present in the report.
/// Via positions must be pairwise distinct so a location names one via.
pub proof fn lemma_annular_ring_iff(l: LayoutView, r: PcbDesignRules, k: int)
    requires
        0 <= k < l.vias.len(),
        distinct_via_positions(l.vias),
    ensures
        count_rule_at(
            spec_check_all(l, r),
            "size.annular_ring"@,
            spec_position_point(l.vias[k].position),
        ) == if annular_ring_bad(l.vias[k], r) {
            1int
        } else {
            0int
        },
{
    let rule = "size.annular_ring"@;
    let loc = spec_position_point(l.vias[k].position);
    let vs = l.vias;
    let w = spec_width_pass(l.traces, r);
    let c = spec_clearance_pass(l.traces, r);
    let v = spec_via_pass(vs, r);
    let e = spec_edge_pass(l, r);
    let cy = spec_courtyard_pass(l.components, r);
    lemma_rule_literals();

    // the width pass emits only `width.track`
    let filtered = l.traces.filter(|t: TraceView| width_bad(t, r));
    assert forall|i: int| 0 <= i < w.len() implies (#[trigger] w[i]).rule != rule by {
        assert(w[i] == width_violation(filtered[i], r));
    }
    lemma_count_rule_at_zero(w, rule, loc);
    lemma_clearance_rows_rule(l.traces, r, l.traces.len() as int);
    lemma_count_rule_at_zero(c, rule, loc);
    lemma_edge_pass_rule(l, r);
    lemma_count_rule_at_zero(e, rule, loc);
    lemma_courtyard_rows_rule(l.components, r, l.components.len() as int);
    lemma_count_rule_at_zero(cy, rule, loc);

    lemma_ring_count_prefix(vs, r, k, vs.len() as int);
    lemma_via_rows_rule(vs, r, vs.len() as int);
    lemma_count_rule_at_zero(via_rows_before(vs, r, vs.len() as int), rule, loc);
    lemma_count_rule_at_add(
        via_singles_before(vs, r, vs.len() as int),
        via_rows_before(vs, r, vs.len() as int),
        rule,
        loc,
    );

    lemma_count_rule_at_add(w, c, rule, loc);
    lemma_count_rule_at_add(w + c, v, rule, loc);
    lemma_count_rule_at_add(w + c + v, e, rule, loc);
    lemma_count_rule_at_add(w + c + v + e, cy, rule, loc);
}

// ---------------------------------------------------------------------------
// Idempotence
// ---------------------------------------------------------------------------

/// `check_all` is a pure function of the layout and the rules: any two runs
/// on the same inputs produce reports with identical violation content and
/// order.
pub proof fn lemma_check_all_idempotent(
    first: crate::drc::DrcReportView,
    second: crate::drc::DrcReportView,
    l: LayoutView,
    r: PcbDesignRules,
)
    requires
        first.violations == spec_check_all(l, r),
        second.violations == spec_check_all(l, r),
    ensures
        first.violations == second.violations,
{
}

} // verus!
