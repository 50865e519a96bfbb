use easywifi::pagination::{filter_summary_text, pagination_bar};

fn pairs(v: &[(&str, &str)]) -> Vec<(String, String)> {
    v.iter().map(|(a, b)| (a.to_string(), b.to_string())).collect()
}

#[test]
fn pagination_bar_middle_page() {
    let bar = pagination_bar(250, 1, 3, 100, 200);
    assert_eq!(bar.summary, "Showing 101-200 of 250 | Page 2 of 3");
    assert_eq!(bar.page_text, "2");
    assert!(bar.previous_enabled);
    assert!(bar.next_enabled);
    assert!(bar.go_enabled);
}

#[test]
fn pagination_bar_empty_table() {
    let bar = pagination_bar(0, 0, 1, 0, 0);
    assert_eq!(bar.summary, "Showing 0 of 0 | Page 1 of 1");
    assert!(!bar.previous_enabled);
    assert!(!bar.next_enabled);
    assert!(!bar.go_enabled);
}

#[test]
fn pagination_bar_last_page() {
    let bar = pagination_bar(250, 2, 3, 200, 250);
    assert_eq!(bar.summary, "Showing 201-250 of 250 | Page 3 of 3");
    assert!(!bar.next_enabled);
}

#[test]
fn filter_summary_lists_typed_filters_in_column_order() {
    let columns = pairs(&[("ssid", "SSID"), ("bssid", "BSSID"), ("channel", "Channel")]);
    let entries = pairs(&[("channel", " 6 "), ("ssid", "Cafe"), ("bssid", "   ")]);
    assert_eq!(filter_summary_text(&columns, &entries), "SSID: Cafe | Channel: 6");
}

#[test]
fn filter_summary_when_nothing_typed() {
    let columns = pairs(&[("ssid", "SSID")]);
    assert_eq!(filter_summary_text(&columns, &pairs(&[("ssid", "  ")])), "No active column filters");
    assert_eq!(filter_summary_text(&columns, &vec![]), "No active column filters");
}
