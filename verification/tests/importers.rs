use hwt_core::altium::{AltiumError, AltiumLibraryImporter, AltiumPcbImporter,
    AltiumSchematicImporter};
use hwt_core::eagle::{EagleError, EaglePcbImporter, EagleSchematicImporter, SimpleXmlParser,
    XmlElement};
use hwt_core::library::ComponentType;
use hwt_core::props::Props;

#[test]
fn test_altium_error_display() {
    let err = AltiumError::InvalidFormat("test".to_string());
    assert!(err.message().contains("Invalid format"));
}

#[test]
fn test_parse_properties() {
    let record = "RECORD=1|DESIGNATOR=R1|LIBREFERENCE=Resistor|LOCATION.X=10000";
    let props = AltiumSchematicImporter::parse_properties(record);

    assert_eq!(props.get("RECORD"), Some("1".to_string()));
    assert_eq!(props.get("DESIGNATOR"), Some("R1".to_string()));
}

#[test]
fn test_parse_component() {
    let mut props = Props::new();
    props.insert("RECORD".to_string(), "1".to_string());
    props.insert("DESIGNATOR".to_string(), "R1".to_string());
    props.insert("LIBREFERENCE".to_string(), "Resistor".to_string());
    props.insert("LOCATION.X".to_string(), "100000".to_string());
    props.insert("LOCATION.Y".to_string(), "200000".to_string());

    let symbol = AltiumSchematicImporter::parse_component(&props);
    assert!(symbol.is_some());

    let symbol = symbol.unwrap();
    assert_eq!(symbol.reference, "R1");
    // raw value 100000 is ten millimetres, i.e. ten million nanometres
    assert_eq!(symbol.position.x, 10_000_000);
}

#[test]
fn altium_test_parse_wire() {
    let mut props = Props::new();
    props.insert("RECORD".to_string(), "27".to_string());
    props.insert("LOCATION.X".to_string(), "100000".to_string());
    props.insert("LOCATION.Y".to_string(), "100000".to_string());
    props.insert("CORNER.X".to_string(), "200000".to_string());
    props.insert("CORNER.Y".to_string(), "100000".to_string());

    let wire = AltiumSchematicImporter::parse_wire(&props);
    assert!(wire.is_some());

    let wire = wire.unwrap();
    assert_eq!(wire.start.x, 10_000_000);
    assert_eq!(wire.end.x, 20_000_000);
}

#[test]
fn test_parse_net_label() {
    let mut props = Props::new();
    props.insert("RECORD".to_string(), "25".to_string());
    props.insert("TEXT".to_string(), "VCC".to_string());
    props.insert("LOCATION.X".to_string(), "50000".to_string());
    props.insert("LOCATION.Y".to_string(), "50000".to_string());

    let label = AltiumSchematicImporter::parse_net_label(&props);
    assert!(label.is_some());

    let label = label.unwrap();
    assert_eq!(label.name, "VCC");
}

#[test]
fn test_extract_strings() {
    let data = b"some binary\x00data=value\x00more=stuff\x00end";
    let strings = AltiumSchematicImporter::extract_strings(data);

    assert!(strings.iter().any(|s| s.contains("data=value")));
}

#[test]
fn test_import_invalid_data() {
    let result = AltiumSchematicImporter::import_from_bytes(&[0, 1, 2, 3]);
    assert!(result.is_err());
}

#[test]
fn test_import_record_stream() {
    let data = b"RECORD=31|SHEETNAME=TestSheet|RECORD=1|DESIGNATOR=U1|LIBREFERENCE=IC";
    let result = AltiumSchematicImporter::import_from_bytes(data);

    assert!(result.is_ok());
    let sheet = result.unwrap();
    assert_eq!(sheet.name, "TestSheet");
    assert_eq!(sheet.symbols.len(), 1);
}

#[test]
fn test_altium_pcb_import_rejects_non_ole() {
    let result = AltiumPcbImporter::import_from_bytes(b"this is not an OLE document");
    assert!(result.is_err());
}

#[test]
fn test_altium_schlib_rejects_short_input() {
    let result = AltiumLibraryImporter::import_schlib_from_bytes(&[1, 2, 3]);
    assert!(result.is_err());
}

#[test]
fn test_altium_schlib_reads_component_names() {
    let mut data: Vec<u8> = vec![0xd0, 0xcf, 0x11, 0xe0, 0xa1, 0xb1, 0x1a, 0xe1];
    data.extend_from_slice(b"\x00ComponentName=OpAmp\x00junk\x00ComponentName=Diode\x00");
    let components = AltiumLibraryImporter::import_schlib_from_bytes(&data).unwrap();
    assert_eq!(components.len(), 2);
    assert_eq!(components[0].name, "OpAmp");
    assert_eq!(components[1].name, "Diode");
    assert_eq!(components[0].component_type, ComponentType::Symbol);
}

#[test]
fn test_eagle_error_display() {
    let err = EagleError::InvalidFormat("test".to_string());
    assert!(err.message().contains("Invalid format"));
}

#[test]
fn test_parse_rotation() {
    // rotations are read in millidegrees
    assert_eq!(EagleSchematicImporter::parse_rotation("R90"), 90_000);
    assert_eq!(EagleSchematicImporter::parse_rotation("R180"), 180_000);
    assert_eq!(EagleSchematicImporter::parse_rotation("MR90"), 90_000);
    assert_eq!(EagleSchematicImporter::parse_rotation("R0"), 0);
}

#[test]
fn test_simple_xml_parser_attributes() {
    let xml = r#"<part name="R1" library="rcl" deviceset="R-EU_" value="10k"/>"#;
    let parser = SimpleXmlParser::new(xml);

    let elements = parser.find_elements("part");
    assert_eq!(elements.len(), 1);

    let part = &elements[0];
    assert_eq!(part.attributes.get("name"), Some("R1".to_string()));
    assert_eq!(part.attributes.get("library"), Some("rcl".to_string()));
    assert_eq!(part.attributes.get("value"), Some("10k".to_string()));
}

#[test]
fn test_parse_part() {
    let mut attributes = Props::new();
    attributes.insert("name".to_string(), "R1".to_string());
    attributes.insert("library".to_string(), "rcl".to_string());
    attributes.insert("deviceset".to_string(), "R-EU_".to_string());
    attributes.insert("value".to_string(), "10k".to_string());
    let element = XmlElement { tag: "part".to_string(), attributes, content: None };

    let symbol = EagleSchematicImporter::parse_part(&element);
    assert!(symbol.is_some());

    let symbol = symbol.unwrap();
    assert_eq!(symbol.reference, "R1");
    assert_eq!(symbol.value, "10k");
}

#[test]
fn eagle_test_parse_wire() {
    let mut attributes = Props::new();
    attributes.insert("x1".to_string(), "10.0".to_string());
    attributes.insert("y1".to_string(), "20.0".to_string());
    attributes.insert("x2".to_string(), "30.0".to_string());
    attributes.insert("y2".to_string(), "20.0".to_string());
    let element = XmlElement { tag: "wire".to_string(), attributes, content: None };

    let wire = EagleSchematicImporter::parse_wire(&element);
    assert!(wire.is_some());

    // millimetre coordinates parse into nanometres
    let wire = wire.unwrap();
    assert_eq!(wire.start.x, 10_000_000);
    assert_eq!(wire.end.x, 30_000_000);
}

#[test]
fn test_import_simple_schematic() {
    let xml = r#"<?xml version="1.0" encoding="utf-8"?>
<eagle version="9.6.2">
    <schematic name="TestSchematic">
        <parts>
            <part name="R1" library="rcl" deviceset="R-EU_" value="10k"/>
            <part name="C1" library="rcl" deviceset="C-EU" value="100n"/>
        </parts>
        <sheets>
            <sheet>
                <instances>
                    <instance part="R1" x="10" y="20"/>
                    <instance part="C1" x="30" y="20"/>
                </instances>
                <nets>
                    <net name="VCC">
                        <wire x1="10" y1="20" x2="30" y2="20"/>
                    </net>
                </nets>
            </sheet>
        </sheets>
    </schematic>
</eagle>"#;

    let result = EagleSchematicImporter::import_from_string(xml);
    assert!(result.is_ok());

    let sheet = result.unwrap();
    assert_eq!(sheet.name, "TestSchematic");
    assert_eq!(sheet.symbols.len(), 2);
}

#[test]
fn test_import_invalid_xml() {
    let result = EagleSchematicImporter::import_from_string("not xml at all");
    assert!(result.is_err());
}

#[test]
fn test_find_attribute() {
    let xml = r#"<schematic name="MyDesign"><parts></parts></schematic>"#;
    let parser = SimpleXmlParser::new(xml);

    let name = parser.find_attribute("schematic", "name");
    assert_eq!(name, Some("MyDesign".to_string()));
}

#[test]
fn test_eagle_pcb_import() {
    assert!(EaglePcbImporter::import_from_string("<eagle><drawing/></eagle>").is_ok());
    assert!(EaglePcbImporter::import_from_string("nonsense").is_err());
}

#[test]
fn test_eagle_instance_placement() {
    let xml = r#"<?xml version="1.0"?>
<eagle>
    <schematic>
        <parts>
            <part name="R1" library="rcl" deviceset="R-EU_" value="10k"/>
        </parts>
        <instances>
            <instance part="R1" x="1.5" y="-2.25" rot="R90"/>
        </instances>
    </schematic>
</eagle>"#;
    let sheet = EagleSchematicImporter::import_from_string(xml).unwrap();
    assert_eq!(sheet.symbols.len(), 1);
    assert_eq!(sheet.symbols[0].position.x, 1_500_000);
    assert_eq!(sheet.symbols[0].position.y, -2_250_000);
    assert_eq!(sheet.symbols[0].rotation, 90_000);
}

#[test]
fn test_decimal_parsing() {
    let to_chars = |s: &str| s.chars().collect::<Vec<char>>();
    assert_eq!(hwt_core::text::parse_scaled(&to_chars("0.127"), 6), Some(127_000));
    assert_eq!(hwt_core::text::parse_scaled(&to_chars("-1.5"), 3), Some(-1_500));
    assert_eq!(hwt_core::text::parse_scaled(&to_chars("+42"), 0), Some(42));
    assert_eq!(hwt_core::text::parse_scaled(&to_chars("10."), 2), Some(1_000));
    assert_eq!(hwt_core::text::parse_scaled(&to_chars(".5"), 1), Some(5));
    assert_eq!(hwt_core::text::parse_scaled(&to_chars(""), 3), None);
    assert_eq!(hwt_core::text::parse_scaled(&to_chars("."), 3), None);
    assert_eq!(hwt_core::text::parse_scaled(&to_chars("12a"), 3), None);
}

#[test]
fn test_error_messages() {
    assert_eq!(AltiumError::Io("gone".to_string()).message(), "I/O error: gone");
    assert_eq!(AltiumError::ParseError("bad".to_string()).message(), "Parse error: bad");
    assert_eq!(
        AltiumError::UnsupportedVersion("v1".to_string()).message(),
        "Unsupported version: v1"
    );
    assert_eq!(EagleError::Io("gone".to_string()).message(), "I/O error: gone");
    assert_eq!(EagleError::XmlError("broken".to_string()).message(), "XML error: broken");
    assert_eq!(
        EagleError::UnsupportedVersion("v1".to_string()).message(),
        "Unsupported version: v1"
    );
}
