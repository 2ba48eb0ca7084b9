use hwt_core::library::{ComponentType, Library, LibraryComponent, LibrarySearchQuery,
    ValidationSeverity};

#[test]
fn test_library_creation() {
    let mut lib = Library::new("My Components");

    let resistor = LibraryComponent::new("Resistor_0603", ComponentType::Component)
        .with_description("0603 SMD resistor")
        .with_keywords(vec!["resistor".into(), "smd".into(), "0603".into()]);

    lib.add_component(resistor);

    assert_eq!(lib.components.len(), 1);
    assert!(lib.find_by_name("Resistor_0603").is_some());
}

#[test]
fn test_library_search() {
    let mut lib = Library::new("Test");

    lib.add_component(
        LibraryComponent::new("Resistor_0603", ComponentType::Component).with_keywords(vec![
            "resistor".into(),
        ]),
    );
    lib.add_component(
        LibraryComponent::new("Capacitor_0603", ComponentType::Component).with_keywords(vec![
            "capacitor".into(),
        ]),
    );
    lib.add_component(
        LibraryComponent::new("Resistor_0402", ComponentType::Component).with_keywords(vec![
            "resistor".into(),
        ]),
    );

    let results = lib.search("resistor");
    assert_eq!(results.len(), 2);
}

#[test]
fn test_library_search_is_case_insensitive() {
    let mut lib = Library::new("Test");
    lib.add_component(LibraryComponent::new("Resistor_0603", ComponentType::Component));

    // both sides are lower-cased before comparing
    assert_eq!(lib.search("RESISTOR").len(), 1);
    assert_eq!(lib.search("resistor").len(), 1);
    assert_eq!(lib.search("inductor").len(), 0);
}

#[test]
fn test_library_validation() {
    let mut lib = Library::new("Test");
    lib.quality.require_description = true;

    lib.add_component(LibraryComponent::new("NoDesc", ComponentType::Symbol));

    let report = lib.validate();
    assert_eq!(report.warning_count(), 1);
    assert_eq!(report.error_count(), 0);
    assert!(report.is_valid());
}

#[test]
fn test_library_validation_datasheet_is_informational() {
    let mut lib = Library::new("Test");
    lib.quality.require_datasheet = true;

    lib.add_component(
        LibraryComponent::new("NoSheet", ComponentType::Symbol).with_description("plain"),
    );

    let report = lib.validate();
    let info = report
        .issues
        .iter()
        .filter(|i| i.severity == ValidationSeverity::Info)
        .count();
    assert_eq!(info, 1);
    assert_eq!(report.issues[0].message, "Missing datasheet link");
}

#[test]
fn test_library_component_timestamps_match() {
    let c = LibraryComponent::new("Part", ComponentType::Footprint);
    assert_eq!(c.created, c.modified);
    assert!(c.description.is_none());
    assert!(c.keywords.is_empty());
}

#[test]
fn test_search_query_default() {
    let q = LibrarySearchQuery::default();
    assert!(q.text.is_none());
    assert!(q.component_type.is_none());
    assert!(q.limit.is_none());
}

#[test]
fn test_library_browser_new() {
    let browser = hwt_core::browser::LibraryBrowser::new();
    assert_eq!(browser.total_components(), 0);
    assert!(browser.libraries().is_empty());
}

#[test]
fn test_library_browser_add_library() {
    let mut browser = hwt_core::browser::LibraryBrowser::new();

    let mut lib = Library::new("Test Library");
    lib.add_component(
        LibraryComponent::new("Resistor", ComponentType::Component).with_keywords(vec![
            "resistor".into(),
            "passive".into(),
        ]),
    );
    lib.add_component(
        LibraryComponent::new("Capacitor", ComponentType::Component).with_keywords(vec![
            "capacitor".into(),
            "passive".into(),
        ]),
    );

    browser.add_library(lib);

    assert_eq!(browser.total_components(), 2);
    assert_eq!(browser.libraries().len(), 1);
}

#[test]
fn test_library_browser_search() {
    let mut browser = hwt_core::browser::LibraryBrowser::new();

    let mut lib = Library::new("Components");
    lib.add_component(
        LibraryComponent::new("Resistor_0603", ComponentType::Component).with_keywords(vec![
            "resistor".into(),
            "smd".into(),
        ]),
    );
    lib.add_component(
        LibraryComponent::new("Resistor_0402", ComponentType::Component).with_keywords(vec![
            "resistor".into(),
            "smd".into(),
        ]),
    );
    lib.add_component(
        LibraryComponent::new("Capacitor_0603", ComponentType::Component).with_keywords(vec![
            "capacitor".into(),
            "smd".into(),
        ]),
    );

    browser.add_library(lib);

    let results = browser.search("resistor");
    assert_eq!(results.len(), 2);

    let results = browser.search("smd");
    assert_eq!(results.len(), 3);
}

#[test]
fn test_library_browser_categories() {
    let mut browser = hwt_core::browser::LibraryBrowser::new();

    let mut lib = Library::new("Test");
    lib.add_component(LibraryComponent::new("Symbol1", ComponentType::Symbol));
    lib.add_component(LibraryComponent::new("Footprint1", ComponentType::Footprint));
    lib.add_component(LibraryComponent::new("Component1", ComponentType::Component));

    browser.add_library(lib);

    let categories = browser.categories();
    assert!(categories.len() >= 3);

    let symbols = browser.by_category("symbol");
    assert_eq!(symbols.len(), 1);
}

#[test]
fn test_library_browser_recent() {
    let mut browser = hwt_core::browser::LibraryBrowser::new();

    let mut lib = Library::new("Test");
    lib.add_component(LibraryComponent::new("Comp1", ComponentType::Component));
    lib.add_component(LibraryComponent::new("Comp2", ComponentType::Component));

    browser.add_library(lib);

    browser.add_recent(0, 0);
    browser.add_recent(0, 1);

    let recent = browser.recent();
    assert_eq!(recent.len(), 2);
    assert_eq!(recent[0].name, "Comp2");
}

#[test]
fn test_library_browser_favorites() {
    let mut browser = hwt_core::browser::LibraryBrowser::new();

    let mut lib = Library::new("Test");
    lib.add_component(LibraryComponent::new("Comp1", ComponentType::Component));

    browser.add_library(lib);

    assert!(!browser.is_favorite(0, 0));

    let added = browser.toggle_favorite(0, 0);
    assert!(added);
    assert!(browser.is_favorite(0, 0));

    let removed = browser.toggle_favorite(0, 0);
    assert!(!removed);
    assert!(!browser.is_favorite(0, 0));
}

#[test]
fn test_library_browser_filtered_search() {
    let mut browser = hwt_core::browser::LibraryBrowser::new();

    let mut lib = Library::new("Test");
    lib.add_component(
        LibraryComponent::new("Resistor", ComponentType::Component)
            .with_datasheet("http://example.com/datasheet.pdf"),
    );
    lib.add_component(LibraryComponent::new("Capacitor", ComponentType::Component));

    browser.add_library(lib);

    let filter = LibrarySearchQuery {
        has_datasheet: Some(true),
        limit: Some(10),
        ..Default::default()
    };

    let results = browser.search_filtered(&filter);
    assert_eq!(results.len(), 1);
    assert_eq!(results[0].component.name, "Resistor");
}

#[test]
fn test_library_browser_recent_moves_to_front() {
    let mut browser = hwt_core::browser::LibraryBrowser::new();
    let mut lib = Library::new("Test");
    lib.add_component(LibraryComponent::new("Comp1", ComponentType::Component));
    lib.add_component(LibraryComponent::new("Comp2", ComponentType::Component));
    browser.add_library(lib);

    browser.add_recent(0, 0);
    browser.add_recent(0, 1);
    browser.add_recent(0, 0);

    let recent = browser.recent();
    assert_eq!(recent.len(), 2);
    assert_eq!(recent[0].name, "Comp1");
    assert_eq!(recent[1].name, "Comp2");
}
