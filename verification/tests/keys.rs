use layout_tracker::event::{WindowChange, WindowEvent};
use layout_tracker::key::derive_key;
use layout_tracker::tracker::LayoutState;

fn strings(items: &[&str]) -> Vec<String> {
    items.iter().map(|s| s.to_string()).collect()
}

fn text(s: &str) -> Option<String> {
    Some(s.to_string())
}

#[test]
fn plain_window_is_keyed_by_its_id() {
    let tabbed = strings(&["firefox"]);
    assert_eq!(derive_key(42, &text("kitty"), &text("shell"), &tabbed), "42");
    assert_eq!(derive_key(42, &text("kitty"), &text("other"), &tabbed), "42");
    assert_eq!(derive_key(42, &text("kitty"), &None, &tabbed), "42");
    assert_eq!(derive_key(42, &None, &text("shell"), &tabbed), "42");
    assert_eq!(derive_key(42, &None, &None, &tabbed), "42");
}

#[test]
fn plain_window_key_with_no_tabbed_applications() {
    assert_eq!(derive_key(7, &text("firefox"), &text("News"), &Vec::new()), "7");
    assert_eq!(derive_key(0, &None, &None, &Vec::new()), "0");
    assert_eq!(derive_key(-5, &None, &text("x"), &Vec::new()), "-5");
    assert_eq!(
        derive_key(i64::MAX, &None, &None, &Vec::new()),
        "9223372036854775807"
    );
    assert_eq!(
        derive_key(i64::MIN, &None, &None, &Vec::new()),
        "-9223372036854775808"
    );
}

#[test]
fn tabbed_window_is_keyed_by_id_and_title() {
    let tabbed = strings(&["firefox", "chromium"]);
    assert_eq!(
        derive_key(42, &text("firefox"), &text("News — Mozilla Firefox"), &tabbed),
        "42News — Mozilla Firefox"
    );
    assert_eq!(
        derive_key(42, &text("chromium"), &text(" Mail"), &tabbed),
        "42 Mail"
    );
    assert_eq!(derive_key(42, &text("firefox"), &text(""), &tabbed), "42");
}

#[test]
fn tabbed_window_without_title_is_keyed_by_its_id() {
    let tabbed = strings(&["firefox"]);
    assert_eq!(derive_key(42, &text("firefox"), &None, &tabbed), "42");
}

#[test]
fn tabbed_application_is_matched_exactly() {
    let tabbed = strings(&["firefox"]);
    assert_eq!(derive_key(1, &text("Firefox"), &text("t"), &tabbed), "1");
    assert_eq!(derive_key(1, &text("firefox "), &text("t"), &tabbed), "1");
    assert_eq!(derive_key(1, &text("fire"), &text("t"), &tabbed), "1");
    assert_eq!(derive_key(1, &text(""), &text("t"), &tabbed), "1");
    assert_eq!(derive_key(1, &text(""), &text("t"), &strings(&[""])), "1t");
}

#[test]
fn tabbed_window_key_changes_with_title_and_with_id() {
    let tabbed = strings(&["firefox"]);
    let app = text("firefox");
    let a = derive_key(42, &app, &text("News"), &tabbed);
    assert_eq!(a, derive_key(42, &app, &text("News"), &tabbed));
    assert_ne!(a, derive_key(42, &app, &text("Mail"), &tabbed));
    assert_ne!(a, derive_key(43, &app, &text("News"), &tabbed));
    assert_ne!(a, derive_key(43, &app, &text("Mail"), &tabbed));
}

#[test]
fn title_that_continues_the_id_spells_the_key_of_another_window() {
    let tabbed = strings(&["firefox"]);
    let app = text("firefox");
    assert_eq!(
        derive_key(1, &app, &text("2x"), &tabbed),
        derive_key(12, &app, &text("x"), &tabbed)
    );
}

#[test]
fn tracker_derives_keys_with_its_own_tabbed_list() {
    let tracker = LayoutState::new(None, strings(&["firefox"]));
    let event = WindowEvent {
        change: WindowChange::Focus,
        window_id: 9,
        app_id: text("firefox"),
        window_name: text("Docs"),
    };
    assert_eq!(tracker.make_map_key(&event), "9Docs");
    let event = WindowEvent {
        change: WindowChange::Close,
        window_id: 9,
        app_id: text("kitty"),
        window_name: text("Docs"),
    };
    assert_eq!(tracker.make_map_key(&event), "9");
}
