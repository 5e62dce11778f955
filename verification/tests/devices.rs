use layout_tracker::device::InputDevice;
use layout_tracker::fallback::default_layout_commands;
use layout_tracker::snapshot::{all_keyboards_report_layout, snapshot_keyboard_layouts};

fn device(identifier: &str, input_type: &str, active: Option<i32>, names: &[&str]) -> InputDevice {
    InputDevice {
        identifier: identifier.to_string(),
        input_type: input_type.to_string(),
        xkb_active_layout_index: active,
        xkb_layout_names: names.iter().map(|s| s.to_string()).collect(),
    }
}

fn keyboard(identifier: &str, active: i32, names: &[&str]) -> InputDevice {
    device(identifier, "keyboard", Some(active), names)
}

fn entry(device: &str, index: i32) -> (String, i32) {
    (device.to_string(), index)
}

#[test]
fn is_keyboard_goes_by_the_exact_type() {
    assert!(keyboard("D", 0, &[]).is_keyboard());
    assert!(!device("P", "pointer", None, &[]).is_keyboard());
    assert!(!device("P", "Keyboard", None, &[]).is_keyboard());
    assert!(!device("P", "keyboard ", None, &[]).is_keyboard());
    assert!(!device("P", "", None, &[]).is_keyboard());
}

#[test]
fn snapshot_of_no_devices_is_empty() {
    let map = snapshot_keyboard_layouts(&Vec::new());
    assert_eq!(map.len(), 0);
}

#[test]
fn snapshot_records_keyboards_only() {
    let inputs = vec![
        device("P", "pointer", None, &[]),
        keyboard("D", 2, &["de", "us", "fr"]),
        device("T", "touch", Some(9), &[]),
        keyboard("E", 1, &["de", "us"]),
        device("S", "switch", None, &[]),
    ];
    let map = snapshot_keyboard_layouts(&inputs);
    assert_eq!(map.entries(), vec![entry("D", 2), entry("E", 1)]);
}

#[test]
fn snapshot_of_a_repeated_identifier_keeps_the_last_index() {
    let inputs = vec![
        keyboard("D", 2, &[]),
        keyboard("E", 1, &[]),
        keyboard("D", 0, &[]),
    ];
    let map = snapshot_keyboard_layouts(&inputs);
    assert_eq!(map.entries(), vec![entry("D", 0), entry("E", 1)]);
    assert_eq!(map.get("D"), Some(0));
}

#[test]
fn keyboards_without_an_index_are_found() {
    assert!(all_keyboards_report_layout(&Vec::new()));
    assert!(all_keyboards_report_layout(&vec![
        keyboard("D", 0, &[]),
        device("P", "pointer", None, &[]),
    ]));
    assert!(!all_keyboards_report_layout(&vec![
        keyboard("D", 0, &[]),
        device("E", "keyboard", None, &["us"]),
    ]));
    assert!(!all_keyboards_report_layout(&vec![device(
        "E",
        "keyboard",
        None,
        &[]
    )]));
}

#[test]
fn default_layout_switches_the_keyboards_that_have_it() {
    let inputs = vec![
        keyboard("D", 0, &["de", "us", "fr"]),
        keyboard("E", 0, &["de", "fr"]),
    ];
    assert_eq!(
        default_layout_commands("us", &inputs),
        vec!["input D xkb_switch_layout 1".to_string()]
    );
}

#[test]
fn default_layout_at_the_last_position() {
    let inputs = vec![
        keyboard("D", 0, &["de", "fr", "us"]),
        keyboard("E", 1, &["us"]),
    ];
    assert_eq!(
        default_layout_commands("us", &inputs),
        vec![
            "input D xkb_switch_layout 2".to_string(),
            "input E xkb_switch_layout 0".to_string(),
        ]
    );
}

#[test]
fn default_layout_matches_names_exactly() {
    let inputs = vec![keyboard(
        "D",
        0,
        &["English (US)", "us ", "US", "u", "English (US)x"],
    )];
    assert!(default_layout_commands("us", &inputs).is_empty());
    assert_eq!(
        default_layout_commands("English (US)", &inputs),
        vec!["input D xkb_switch_layout 0".to_string()]
    );
}

#[test]
fn default_layout_named_twice_gives_a_command_for_each_position() {
    let inputs = vec![keyboard("D", 0, &["us", "de", "us"])];
    assert_eq!(
        default_layout_commands("us", &inputs),
        vec![
            "input D xkb_switch_layout 0".to_string(),
            "input D xkb_switch_layout 2".to_string(),
        ]
    );
}

#[test]
fn default_layout_leaves_other_device_types_alone() {
    let inputs = vec![
        device("P", "pointer", None, &["us"]),
        keyboard("D", 0, &["us"]),
    ];
    assert_eq!(
        default_layout_commands("us", &inputs),
        vec!["input D xkb_switch_layout 0".to_string()]
    );
}

#[test]
fn default_layout_needs_no_active_index() {
    let inputs = vec![device("D", "keyboard", None, &["de", "us"])];
    assert_eq!(
        default_layout_commands("us", &inputs),
        vec!["input D xkb_switch_layout 1".to_string()]
    );
}

#[test]
fn default_layout_without_devices_gives_no_command() {
    assert!(default_layout_commands("us", &Vec::new()).is_empty());
    assert!(default_layout_commands("us", &vec![keyboard("D", 0, &[])]).is_empty());
}
