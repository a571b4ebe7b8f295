use x11_primary_switcher::hint::hint_refers_to;
use x11_primary_switcher::hint::map_hint_to_connector;
use x11_primary_switcher::hint::needs_listing;
use x11_primary_switcher::hint::parse_listing;
use x11_primary_switcher::hint::record_from_row;
use x11_primary_switcher::hint::resolve_in_records;
use x11_primary_switcher::hint::CompositorOutputRecord;

const LISTING: &str = r#"[
  {"name": "DP-2", "make": "Acer Technologies", "model": "Acer XF270H B", "serial": "0x9372943C",
   "description": "Acer Technologies Acer XF270H B 0x9372943C (DP-2)", "active": true},
  {"name": "HDMI-A-1", "make": "Dell Inc.", "model": "DELL U2415", "serial": "XYZ",
   "description": "Dell Inc. DELL U2415 XYZ"},
  {"name": "eDP-1", "make": "Unknown", "model": 7}
]"#;

fn record(name: &str, make: &str, model: &str, serial: &str, description: Option<&str>) -> CompositorOutputRecord {
    CompositorOutputRecord {
        name: name.to_string(),
        make: Some(make.to_string()),
        model: Some(model.to_string()),
        serial: Some(serial.to_string()),
        description: description.map(|d| d.to_string()),
    }
}

#[test]
fn connector_hint_is_returned_as_it_is() {
    for hint in ["DP-2", "eDP-1", "HDMI-A-1", "DVI-D-0", "VGA-1", "USB-C-0", "LVDS-1", "Virtual-1", "X11-1"] {
        assert!(!needs_listing(hint), "{hint}");
        assert_eq!(map_hint_to_connector(hint, None), Some(hint.to_string()));
        assert_eq!(map_hint_to_connector(hint, Some(LISTING)), Some(hint.to_string()));
        assert_eq!(map_hint_to_connector(hint, Some("not json")), Some(hint.to_string()));
    }
}

#[test]
fn other_hints_need_the_listing() {
    for hint in ["Acer Technologies Acer XF270H B 0x9372943C", "DP", "dp-1", " DP-1", "", "HDMI"] {
        assert!(needs_listing(hint), "{hint}");
    }
}

#[test]
fn identity_resolves_to_the_record_name() {
    assert_eq!(
        map_hint_to_connector("Acer Technologies Acer XF270H B 0x9372943C", Some(LISTING)),
        Some("DP-2".to_string())
    );
}

#[test]
fn description_resolves_to_the_record_name() {
    assert_eq!(
        map_hint_to_connector("Dell Inc. DELL U2415 XYZ", Some(LISTING)),
        Some("HDMI-A-1".to_string())
    );
}

#[test]
fn partial_identity_is_trimmed() {
    assert_eq!(map_hint_to_connector("Unknown", Some(LISTING)), Some("eDP-1".to_string()));
}

#[test]
fn unknown_hint_resolves_to_nothing() {
    assert_eq!(map_hint_to_connector("Nobody Nothing 0", Some(LISTING)), None);
    assert_eq!(map_hint_to_connector("", Some(LISTING)), None);
}

#[test]
fn unusable_listing_resolves_to_nothing() {
    assert_eq!(map_hint_to_connector("Dell Inc. DELL U2415 XYZ", None), None);
    assert_eq!(map_hint_to_connector("Dell Inc. DELL U2415 XYZ", Some("{")), None);
    assert_eq!(map_hint_to_connector("Dell Inc. DELL U2415 XYZ", Some("{\"name\": \"DP-1\"}")), None);
    assert_eq!(map_hint_to_connector("Dell Inc. DELL U2415 XYZ", Some("")), None);
}

#[test]
fn listing_is_read_into_records() {
    let records = parse_listing(LISTING).unwrap();
    assert_eq!(records.len(), 3);
    assert_eq!(
        records[0],
        record("DP-2", "Acer Technologies", "Acer XF270H B", "0x9372943C",
            Some("Acer Technologies Acer XF270H B 0x9372943C (DP-2)"))
    );
    assert_eq!(
        records[2],
        CompositorOutputRecord {
            name: "eDP-1".to_string(),
            make: Some("Unknown".to_string()),
            model: None,
            serial: None,
            description: None,
        }
    );
    assert_eq!(parse_listing("[]"), Some(vec![]));
    assert_eq!(parse_listing("[1, \"x\"]").unwrap().len(), 2);
    assert_eq!(parse_listing("[1]").unwrap()[0].name, "");
    assert_eq!(parse_listing("3"), None);
}

#[test]
fn short_rows_have_absent_fields() {
    let row = vec![Some("DP-1".to_string()), None, Some("M".to_string())];
    assert_eq!(
        record_from_row(&row),
        CompositorOutputRecord {
            name: "DP-1".to_string(),
            make: None,
            model: Some("M".to_string()),
            serial: None,
            description: None,
        }
    );
    assert_eq!(record_from_row(&vec![]).name, "");
}

#[test]
fn first_matching_record_wins() {
    let records = vec![
        record("A", "m", "n", "s", Some("other")),
        record("B", "x", "y", "z", Some("m n s")),
        record("C", "m", "n", "s", None),
    ];
    assert_eq!(resolve_in_records("m n s", &records), Some("A".to_string()));
    assert_eq!(resolve_in_records("other", &records), Some("A".to_string()));
    assert_eq!(resolve_in_records("x y z", &records), Some("B".to_string()));
    assert_eq!(resolve_in_records("m n", &records), None);
}

#[test]
fn empty_fields_never_match() {
    let blank = CompositorOutputRecord {
        name: "A".to_string(),
        make: None,
        model: None,
        serial: None,
        description: Some(String::new()),
    };
    let hint: Vec<char> = Vec::new();
    assert!(!hint_refers_to(&hint, &blank));
    let spaces: Vec<char> = "  ".chars().collect();
    assert!(!hint_refers_to(&spaces, &blank));
    let inner = record("A", "", "mid", "", None);
    let mid: Vec<char> = "mid".chars().collect();
    assert!(hint_refers_to(&mid, &inner));
}
