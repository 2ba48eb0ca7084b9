use hwt_core::drc::DrcSeverity;
use hwt_core::layout::{Layout, PlacedComponent, Position, Trace, Via, ViaType};
use hwt_core::pcb_drc::PcbDrcChecker;
use hwt_core::rules::PcbDesignRules;
use hwt_core::units::LengthUnit;

// positions and sizes below are micrometres; the checker converts to
// nanometres before comparing
fn make_position(x: i64, y: i64) -> Position {
    Position::new(x, y, LengthUnit::Um)
}

fn make_trace(net: &str, layer: &str, x1: i64, y1: i64, x2: i64, y2: i64, width: i64) -> Trace {
    Trace {
        net: net.to_string(),
        layer: layer.to_string(),
        start: make_position(x1, y1),
        end: make_position(x2, y2),
        width,
        unit: LengthUnit::Um,
    }
}

fn make_via(net: &str, x: i64, y: i64, drill: i64, pad: i64) -> Via {
    Via {
        net: net.to_string(),
        position: make_position(x, y),
        via_type: ViaType::Through,
        drill,
        pad,
        start_layer: Some("F.Cu".to_string()),
        end_layer: Some("B.Cu".to_string()),
        unit: LengthUnit::Um,
    }
}

fn create_test_layout() -> Layout {
    let mut layout = Layout::with_board_size(100_000, 80_000, LengthUnit::Um);
    layout.traces.push(make_trace("VCC", "F.Cu", 10_000, 10_000, 50_000, 10_000, 200));
    layout.traces.push(make_trace("GND", "F.Cu", 10_000, 12_000, 50_000, 12_000, 200));
    layout.vias.push(make_via("VCC", 30_000, 30_000, 300, 600));
    layout
}

#[test]
fn test_pcb_drc_clean_design() {
    let layout = create_test_layout();
    let rules = PcbDesignRules::default();
    let checker = PcbDrcChecker::new(&layout, rules);

    let report = checker.check_all();

    println!("Violations: {:?}", report.violations.len());
}

#[test]
fn test_pcb_drc_track_width_violation() {
    let mut layout = Layout::new();

    // a tenth of a millimetre, below the default minimum of 0.15 mm
    layout.traces.push(make_trace("SIG", "F.Cu", 10_000, 10_000, 50_000, 10_000, 100));

    let rules = PcbDesignRules::default();
    let checker = PcbDrcChecker::new(&layout, rules);
    let report = checker.check_all();

    assert!(report.violations.iter().any(|v| v.rule == "width.track"));
}

#[test]
fn test_pcb_drc_via_violations() {
    let mut layout = Layout::new();

    // large drill and small pad: annular ring is only 0.025 mm
    layout.vias.push(make_via("SIG", 30_000, 30_000, 350, 400));

    let rules = PcbDesignRules::default();
    let checker = PcbDrcChecker::new(&layout, rules);
    let report = checker.check_all();

    assert!(report.violations.iter().any(|v| v.rule == "size.via_diameter"));
    assert!(report.violations.iter().any(|v| v.rule == "size.annular_ring"));
}

#[test]
fn test_pcb_drc_clearance_violation() {
    let mut layout = Layout::new();

    // parallel traces 0.3 mm apart, minus two half-widths of 0.1 mm each,
    // leave 0.1 mm of copper gap against a 0.2 mm minimum
    layout.traces.push(make_trace("NET1", "F.Cu", 10_000, 10_000, 50_000, 10_000, 200));
    layout.traces.push(make_trace("NET2", "F.Cu", 10_000, 10_300, 50_000, 10_300, 200));

    let rules = PcbDesignRules::default();
    let checker = PcbDrcChecker::new(&layout, rules);
    let report = checker.check_all();

    assert!(report.violations.iter().any(|v| v.rule == "clearance.track_to_track"));
}

#[test]
fn test_pcb_drc_clearance_needs_same_layer() {
    let mut layout = Layout::new();
    layout.traces.push(make_trace("NET1", "F.Cu", 10_000, 10_000, 50_000, 10_000, 200));
    layout.traces.push(make_trace("NET2", "B.Cu", 10_000, 10_300, 50_000, 10_300, 200));

    let checker = PcbDrcChecker::new(&layout, PcbDesignRules::default());
    let report = checker.check_all();

    assert!(!report.violations.iter().any(|v| v.rule == "clearance.track_to_track"));
}

#[test]
fn test_pcb_drc_same_net_exempt() {
    let mut layout = Layout::new();
    // touching traces on one net are electrically intentional
    layout.traces.push(make_trace("VCC", "F.Cu", 10_000, 10_000, 50_000, 10_000, 200));
    layout.traces.push(make_trace("VCC", "F.Cu", 10_000, 10_050, 50_000, 10_050, 200));

    let checker = PcbDrcChecker::new(&layout, PcbDesignRules::default());
    let report = checker.check_all();

    assert!(!report.violations.iter().any(|v| v.rule == "clearance.track_to_track"));
}

#[test]
fn test_pcb_drc_jlcpcb_rules() {
    let rules = PcbDesignRules::jlcpcb();

    // thresholds are nanometres: 0.127 mm and 0.2 mm
    assert_eq!(rules.min_track_width, 127_000);
    assert_eq!(rules.min_via_drill, 200_000);
}

#[test]
fn test_pcb_drc_osh_park_rules() {
    let rules = PcbDesignRules::osh_park();
    assert_eq!(rules.min_track_width, 152_000);
}

#[test]
fn test_available_rules() {
    let rules = PcbDrcChecker::available_rules();

    assert!(rules.len() >= 9);
    assert!(rules.iter().any(|r| r.id == "clearance.track_to_track"));
    assert!(rules.iter().any(|r| r.id == "width.track"));
    assert!(rules.iter().any(|r| r.id == "size.annular_ring"));
}

#[test]
fn test_empty_layout_reports_nothing() {
    let layout = Layout::new();
    let checker = PcbDrcChecker::new(&layout, PcbDesignRules::default());
    let report = checker.check_all();

    assert_eq!(report.violations.len(), 0);
    assert_eq!(report.error_count(), 0);
    assert_eq!(report.warning_count(), 0);
    assert_eq!(report.info_count(), 0);
}

#[test]
fn test_check_all_is_deterministic() {
    let layout = create_test_layout();
    let first = PcbDrcChecker::new(&layout, PcbDesignRules::default()).check_all();
    let second = PcbDrcChecker::new(&layout, PcbDesignRules::default()).check_all();

    assert_eq!(first, second);
}

#[test]
fn test_width_violation_details() {
    let mut layout = Layout::new();
    layout.traces.push(make_trace("SIG", "F.Cu", 10_000, 10_000, 50_000, 10_000, 100));

    let report = PcbDrcChecker::new(&layout, PcbDesignRules::default()).check_all();
    assert_eq!(report.violations.len(), 1);
    let v = &report.violations[0];
    assert_eq!(v.rule, "width.track");
    assert_eq!(v.severity, DrcSeverity::Error);
    // midpoint of the trace, in nanometres
    assert_eq!(v.location.x, 30_000_000);
    assert_eq!(v.location.y, 10_000_000);
    let values = v.values.as_ref().unwrap();
    assert_eq!(values.measured, 100_000);
    assert_eq!(values.limit, 150_000);
    assert_eq!(values.unit, "nm");
    assert_eq!(v.message, "Track width 100000 nm is below minimum 150000 nm");
    assert_eq!(v.fix.as_deref(), Some("Increase track width to at least 150000 nm"));
}

#[test]
fn test_via_clearance_violation() {
    let mut layout = Layout::new();
    // pads of 0.6 mm each, centres 0.7 mm apart: 0.1 mm of gap against 0.3 mm
    layout.vias.push(make_via("A", 10_000, 10_000, 300, 600));
    layout.vias.push(make_via("B", 10_700, 10_000, 300, 600));

    let report = PcbDrcChecker::new(&layout, PcbDesignRules::default()).check_all();
    assert!(report.violations.iter().any(|v| v.rule == "clearance.via_to_via"));

    let v = report.violations.iter().find(|v| v.rule == "clearance.via_to_via").unwrap();
    assert_eq!(v.values.as_ref().unwrap().measured, 100_000);
}

#[test]
fn test_edge_clearance_violations() {
    let mut layout = Layout::with_board_size(100_000, 80_000, LengthUnit::Um);
    // a trace hugging the left edge: 0.1 mm from the edge minus half of a
    // 0.2 mm width leaves zero clearance against 0.3 mm
    layout.traces.push(make_trace("SIG", "F.Cu", 100, 40_000, 100, 50_000, 200));

    let report = PcbDrcChecker::new(&layout, PcbDesignRules::default()).check_all();
    assert!(report.violations.iter().any(|v| v.rule == "clearance.edge"));
}

#[test]
fn test_corner_trace_hits_multiple_edges() {
    let mut layout = Layout::with_board_size(400, 400, LengthUnit::Um);
    // a tiny board: one trace near a corner breaks all four edge distances
    layout.traces.push(make_trace("SIG", "F.Cu", 100, 100, 200, 200, 100));

    let report = PcbDrcChecker::new(&layout, PcbDesignRules::default()).check_all();
    let edge_count = report.violations.iter().filter(|v| v.rule == "clearance.edge").count();
    assert_eq!(edge_count, 4);
}

#[test]
fn test_courtyard_warning() {
    let mut layout = Layout::new();
    layout.components.push(PlacedComponent::new("R1", "10K", "R_0603").at(10, 10));
    layout.components.push(PlacedComponent::new("R2", "10K", "R_0603").at(10, 10));

    let report = PcbDrcChecker::new(&layout, PcbDesignRules::default()).check_all();
    let v = report.violations.iter().find(|v| v.rule == "clearance.courtyard").unwrap();
    assert_eq!(v.severity, DrcSeverity::Warning);
    assert!(v.message.contains("R1"));
    assert!(v.message.contains("R2"));
    assert_eq!(report.warning_count(), 1);
}

#[test]
fn test_mixed_units_are_converted() {
    let mut layout = Layout::new();
    // the same too-thin trace, stated in millimetres this time
    layout.traces.push(Trace {
        net: "SIG".to_string(),
        layer: "F.Cu".to_string(),
        start: Position::new(10, 10, LengthUnit::Mm),
        end: Position::new(50, 10, LengthUnit::Mm),
        width: 5080,
        unit: LengthUnit::Mil,
    });

    // 5080 mil of width is 129 mm: far above every minimum
    let report = PcbDrcChecker::new(&layout, PcbDesignRules::default()).check_all();
    assert!(!report.violations.iter().any(|v| v.rule == "width.track"));
}
