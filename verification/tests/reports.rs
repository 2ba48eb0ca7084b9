use hwt_core::bom::{BomConfig, BomError, BomFormat, BomGroupBy, BomReport, BomSortBy};
use hwt_core::layout::{ComponentLayer, Layout, PlacedComponent};
use hwt_core::pnp::{PnpConfig, PnpError, PnpFormat, PnpReport, PnpSide, PnpUnits};

fn create_test_layout() -> Layout {
    let mut layout = Layout::new();

    layout.components.push(PlacedComponent::new("R1", "10K", "Resistor_SMD:R_0603"));
    layout.components.push(PlacedComponent::new("R2", "10K", "Resistor_SMD:R_0603"));
    layout.components.push(PlacedComponent::new("R3", "4.7K", "Resistor_SMD:R_0603"));
    layout.components.push(PlacedComponent::new("C1", "100nF", "Capacitor_SMD:C_0402"));
    layout.components.push(PlacedComponent::new("C2", "100nF", "Capacitor_SMD:C_0402"));
    layout.components.push(PlacedComponent::new("U1", "STM32F407", "Package_QFP:LQFP-100"));

    layout
}

#[test]
fn test_bom_generation() {
    let layout = create_test_layout();
    let config = BomConfig::default();

    let bom = BomReport::from_layout(&layout, &config).unwrap();

    assert_eq!(bom.total_components, 6);
    assert_eq!(bom.unique_parts, 4);
}

#[test]
fn test_bom_grouping_by_value() {
    let layout = create_test_layout();
    let config = BomConfig { group_by: BomGroupBy::Value, ..Default::default() };

    let bom = BomReport::from_layout(&layout, &config).unwrap();

    assert_eq!(bom.unique_parts, 4);

    let r10k = bom.entries.iter().find(|e| e.value == "10K").unwrap();
    assert_eq!(r10k.quantity, 2);
    assert!(r10k.references.contains(&"R1".to_string()));
    assert!(r10k.references.contains(&"R2".to_string()));
}

#[test]
fn test_bom_no_grouping() {
    let layout = create_test_layout();
    let config = BomConfig { group_by: BomGroupBy::Ungrouped, ..Default::default() };

    let bom = BomReport::from_layout(&layout, &config).unwrap();

    assert_eq!(bom.unique_parts, 6);
    assert_eq!(bom.entries.len(), 6);
}

#[test]
fn test_bom_csv_export() {
    let layout = create_test_layout();
    let config = BomConfig::default();

    let bom = BomReport::from_layout(&layout, &config).unwrap();
    let csv = bom.to_csv(&config);

    assert!(csv.contains("Reference,Qty,Value,Footprint,Description"));
    assert!(csv.contains("10K"));
    assert!(csv.contains("STM32F407"));
}

#[test]
fn test_bom_html_export() {
    let layout = create_test_layout();
    let config = BomConfig { format: BomFormat::Html, ..Default::default() };

    let bom = BomReport::from_layout(&layout, &config).unwrap();
    let html = bom.to_html(&config);

    assert!(html.contains("<!DOCTYPE html>"));
    assert!(html.contains("<table>"));
    assert!(html.contains("10K"));
    assert!(html.contains("STM32F407"));
}

#[test]
fn test_bom_sorting() {
    let layout = create_test_layout();
    let config = BomConfig { sort_by: BomSortBy::Quantity, ..Default::default() };

    let bom = BomReport::from_layout(&layout, &config).unwrap();

    assert!(bom.entries[0].quantity >= bom.entries[1].quantity);
}

#[test]
fn bom_test_empty_layout_error() {
    let layout = Layout::new();
    let config = BomConfig::default();

    let result = BomReport::from_layout(&layout, &config);
    assert!(matches!(result, Err(BomError::NoComponents)));
}

#[test]
fn test_bom_natural_reference_order() {
    let mut layout = Layout::new();
    layout.components.push(PlacedComponent::new("R10", "1K", "R_0603"));
    layout.components.push(PlacedComponent::new("R2", "2K", "R_0603"));

    let config = BomConfig::default();
    let bom = BomReport::from_layout(&layout, &config).unwrap();

    // natural order puts R2 before R10, unlike plain lexicographic order
    assert_eq!(bom.entries[0].references[0], "R2");
    assert_eq!(bom.entries[1].references[0], "R10");
}

#[test]
fn test_bom_error_messages() {
    assert_eq!(BomError::NoComponents.message(), "No components found in design");
    assert_eq!(BomError::IoError("disk".to_string()).message(), "IO error: disk");
    assert_eq!(
        BomError::InvalidConfig("bad".to_string()).message(),
        "Invalid configuration: bad"
    );
}

fn create_pnp_layout() -> Layout {
    let mut layout = Layout::new();

    // positions are millimetres here (the default unit of a new component)
    layout.components.push(PlacedComponent::new("R1", "10K", "R_0603").at(10, 20).rotated(0));
    layout.components.push(PlacedComponent::new("R2", "10K", "R_0603").at(15, 20).rotated(90_000));
    layout.components.push(
        PlacedComponent::new("C1", "100nF", "C_0402").at(10, 30).rotated(180_000),
    );
    layout.components.push(
        PlacedComponent::new("U1", "STM32F407", "LQFP-100").at(50, 50).rotated(0),
    );
    layout.components.push(
        PlacedComponent::new("U2", "LM1117", "SOT-223").at(20, 60).rotated(270_000).on_bottom(),
    );

    layout
}

#[test]
fn test_pnp_generation() {
    let layout = create_pnp_layout();
    let config = PnpConfig::default();

    let pnp = PnpReport::from_layout(&layout, &config, Some("Test Board")).unwrap();

    assert_eq!(pnp.entries.len(), 5);
    assert_eq!(pnp.top_count, 4);
    assert_eq!(pnp.bottom_count, 1);
}

#[test]
fn test_pnp_top_only() {
    let layout = create_pnp_layout();
    let config = PnpConfig { side: PnpSide::Top, ..Default::default() };

    let pnp = PnpReport::from_layout(&layout, &config, None).unwrap();

    assert_eq!(pnp.entries.len(), 4);
    assert!(pnp.entries.iter().all(|e| e.side == ComponentLayer::Top));
}

#[test]
fn test_pnp_bottom_only() {
    let layout = create_pnp_layout();
    let config = PnpConfig { side: PnpSide::Bottom, ..Default::default() };

    let pnp = PnpReport::from_layout(&layout, &config, None).unwrap();

    assert_eq!(pnp.entries.len(), 1);
    assert_eq!(pnp.entries[0].reference, "U2");
}

#[test]
fn test_pnp_csv_export() {
    let layout = create_pnp_layout();
    let config = PnpConfig::default();

    let pnp = PnpReport::from_layout(&layout, &config, Some("Test")).unwrap();
    let csv = pnp.to_csv(&config);

    assert!(csv.contains("Ref,Val,Package,PosX,PosY,Rot,Side"));
    assert!(csv.contains("R1"));
    assert!(csv.contains("STM32F407"));
    assert!(csv.contains("top"));
    assert!(csv.contains("bottom"));
}

#[test]
fn test_pnp_ascii_export() {
    let layout = create_pnp_layout();
    let config = PnpConfig { format: PnpFormat::Ascii, ..Default::default() };

    let pnp = PnpReport::from_layout(&layout, &config, None).unwrap();
    let ascii = pnp.to_ascii(&config);

    assert!(ascii.contains("R1"));
    assert!(ascii.contains("U1"));
}

#[test]
fn test_pnp_units_conversion() {
    let layout = create_pnp_layout();
    let config = PnpConfig { units: PnpUnits::Inches, ..Default::default() };

    let pnp = PnpReport::from_layout(&layout, &config, None).unwrap();

    // R1 sits at ten millimetres, which is 393700 millionths of an inch
    let r1 = pnp.entries.iter().find(|e| e.reference == "R1").unwrap();
    assert_eq!(r1.x, 393_700);
}

#[test]
fn test_pnp_separate_files() {
    let layout = create_pnp_layout();
    let config = PnpConfig::default();

    let pnp = PnpReport::from_layout(&layout, &config, Some("Board")).unwrap();

    let top_csv = pnp.export_top(&config);
    let bottom_csv = pnp.export_bottom(&config);

    assert!(top_csv.contains("(Top)"));
    assert!(bottom_csv.contains("(Bottom)"));
    assert!(!top_csv.contains("\"U2\""));
    assert!(bottom_csv.contains("\"U2\""));
}

#[test]
fn pnp_test_empty_layout_error() {
    let layout = Layout::new();
    let config = PnpConfig::default();

    let result = PnpReport::from_layout(&layout, &config, None);
    assert!(matches!(result, Err(PnpError::NoComponents)));
}

#[test]
fn test_pnp_coordinate_rendering() {
    let layout = create_pnp_layout();
    let config = PnpConfig::default();
    let pnp = PnpReport::from_layout(&layout, &config, Some("T")).unwrap();
    let csv = pnp.to_csv(&config);

    // ten millimetres with four decimals
    assert!(csv.contains("10.0000,20.0000"));
    // a quarter turn with two decimals
    assert!(csv.contains("90.00"));
}

#[test]
fn test_pnp_negate_y() {
    let layout = create_pnp_layout();
    let config = PnpConfig { negate_y: true, ..Default::default() };
    let pnp = PnpReport::from_layout(&layout, &config, None).unwrap();
    let r1 = pnp.entries.iter().find(|e| e.reference == "R1").unwrap();
    assert_eq!(r1.y, -20_000_000);
}

#[test]
fn test_pnp_sorted_by_reference() {
    let layout = create_pnp_layout();
    let config = PnpConfig::default();
    let pnp = PnpReport::from_layout(&layout, &config, None).unwrap();
    let refs: Vec<&str> = pnp.entries.iter().map(|e| e.reference.as_str()).collect();
    assert_eq!(refs, vec!["C1", "R1", "R2", "U1", "U2"]);
}

#[test]
fn test_natural_string_sort() {
    let mut v = vec!["R10".to_string(), "R2".to_string(), "R1".to_string()];
    hwt_core::bom::sort_strings_natural(&mut v);
    assert_eq!(v, vec!["R1".to_string(), "R2".to_string(), "R10".to_string()]);
}

#[test]
fn test_pnp_error_messages() {
    assert_eq!(PnpError::NoComponents.message(), "No components found in layout");
    assert_eq!(PnpError::IoError("disk".to_string()).message(), "IO error: disk");
}

#[test]
fn test_pnp_mils_conversion() {
    let layout = create_pnp_layout();
    let config = PnpConfig { units: PnpUnits::Mils, ..Default::default() };
    let pnp = PnpReport::from_layout(&layout, &config, None).unwrap();

    // ten millimetres is about 393.7 mil, in millionths of a mil
    let r1 = pnp.entries.iter().find(|e| e.reference == "R1").unwrap();
    assert_eq!(r1.x, 393_700_787);
}
