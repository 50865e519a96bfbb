use easywifi::table::{
    ap_column_label, column_label, default_sort_descending, migrate_assoc_client_table_layout,
    migrate_legacy_bluetooth_table_layout, paged_indices, pagination_filter_signature,
    pagination_filter_terms, row_matches_column_filters, sanitize_table_layout,
    sortable_header_text, table_filter_columns, toggle_table_sort, SortableTable,
    TableColumnLayout, TableLayout, TableSortState,
};

fn col(id: &str, visible: bool, width: i32) -> TableColumnLayout {
    TableColumnLayout { id: id.to_string(), visible, width_chars: width }
}

fn ap_layout() -> TableLayout {
    TableLayout {
        columns: vec![
            col("watchlist_entry", true, 16),
            col("ssid", true, 18),
            col("bssid", true, 18),
            col("oui", true, 18),
            col("channel", true, 8),
            col("encryption", true, 16),
            col("rssi", true, 8),
        ],
    }
}

fn ids(layout: &TableLayout) -> Vec<(String, bool, i32)> {
    layout.columns.iter().map(|c| (c.id.clone(), c.visible, c.width_chars)).collect()
}

fn pair(a: &str, b: &str) -> (String, String) {
    (a.to_string(), b.to_string())
}

#[test]
fn table_filter_columns_follow_visible_active_layout() {
    let mut layout = ap_layout();
    for column in &mut layout.columns {
        match column.id.as_str() {
            "ssid" => column.width_chars = 23,
            "bssid" => column.visible = false,
            _ => {}
        }
    }

    let columns = table_filter_columns(&layout, SortableTable::AccessPoints);
    assert!(columns.iter().any(|(id, _, width)| id == "ssid" && *width == 23));
    assert!(!columns.iter().any(|(id, _, _)| id == "bssid"));
}

#[test]
fn filter_columns_carry_headings() {
    let columns = table_filter_columns(&ap_layout(), SortableTable::AccessPoints);
    assert_eq!(columns.len(), 7);
    assert_eq!(columns[1], ("ssid".to_string(), "SSID".to_string(), 18));
    assert_eq!(ap_column_label("bssid"), "BSSID");
    assert_eq!(column_label(SortableTable::AccessPoints, "oui"), "OUI Manufacturer");
}

#[test]
fn paging_clamps_page_and_range() {
    assert_eq!(paged_indices(0, 3, 25), (0, 1, 0, 0));
    assert_eq!(paged_indices(100, 1, 25), (1, 4, 25, 50));
    assert_eq!(paged_indices(101, 9, 25), (4, 5, 100, 101));
    assert_eq!(paged_indices(10, 0, 0), (0, 10, 0, 1));
}

#[test]
fn filter_terms_trim_lowercase_and_order_by_column() {
    let entries = vec![pair("ssid", "  Home "), pair("bssid", ""), pair("channel", "6"), pair("oui", "APPLE")];
    let terms = pagination_filter_terms(&entries);
    assert_eq!(terms, vec![pair("channel", "6"), pair("oui", "apple"), pair("ssid", "home")]);
    assert_eq!(pagination_filter_signature(&terms), "channel=6&oui=apple&ssid=home");
    assert_eq!(pagination_filter_signature(&vec![]), "");
}

#[test]
fn row_filters_need_every_value_to_contain_its_needle() {
    let filters = vec![pair("ssid", "home"), pair("channel", "6")];
    assert!(row_matches_column_filters(
        &filters,
        &vec![Some("My HOME net".to_string()), Some("36".to_string())]
    ));
    assert!(!row_matches_column_filters(
        &filters,
        &vec![Some("office".to_string()), Some("6".to_string())]
    ));
    assert!(!row_matches_column_filters(&filters, &vec![Some("home".to_string()), None]));
    assert!(row_matches_column_filters(&vec![], &vec![]));
}

#[test]
fn sanitize_drops_unknown_adds_missing_and_clamps() {
    let defaults = TableLayout { columns: vec![col("a", true, 10), col("b", false, 12), col("c", true, 14)] };
    let mut layout = TableLayout { columns: vec![col("zz", true, 10), col("c", false, 200), col("a", false, 2)] };
    sanitize_table_layout(&mut layout, &defaults);
    assert_eq!(
        ids(&layout),
        vec![("c".to_string(), true, 80), ("a".to_string(), false, 6), ("b".to_string(), false, 12)]
    );

    let mut empty = TableLayout { columns: vec![col("unknown", true, 10)] };
    sanitize_table_layout(&mut empty, &defaults);
    assert_eq!(ids(&empty), ids(&defaults));
}

#[test]
fn legacy_bluetooth_layout_is_replaced() {
    let defaults = TableLayout { columns: vec![col("name", true, 20), col("mac", true, 18)] };
    let legacy: Vec<TableColumnLayout> = ["transport", "mac", "oui", "type", "first_seen", "last_seen"]
        .iter()
        .map(|id| col(id, true, 10))
        .collect();
    let mut layout = TableLayout { columns: legacy };
    migrate_legacy_bluetooth_table_layout(&mut layout, &defaults);
    assert_eq!(ids(&layout), ids(&defaults));

    let mut custom = TableLayout { columns: vec![col("mac", true, 10)] };
    migrate_legacy_bluetooth_table_layout(&mut custom, &defaults);
    assert_eq!(ids(&custom), vec![("mac".to_string(), true, 10)]);
}

#[test]
fn assoc_client_layout_shows_current_columns() {
    let mut layout = TableLayout {
        columns: vec![col("status", true, 10), col("current_ap", false, 18), col("current_ssid", false, 18)],
    };
    migrate_assoc_client_table_layout(&mut layout);
    assert_eq!(
        ids(&layout),
        vec![
            ("status".to_string(), false, 10),
            ("current_ap".to_string(), true, 18),
            ("current_ssid".to_string(), true, 18)
        ]
    );
    let mut partial = TableLayout { columns: vec![col("status", true, 10), col("current_ap", false, 18)] };
    migrate_assoc_client_table_layout(&mut partial);
    assert_eq!(
        ids(&partial),
        vec![("status".to_string(), true, 10), ("current_ap".to_string(), false, 18)]
    );
}

#[test]
fn sort_toggles_and_defaults() {
    assert!(default_sort_descending(SortableTable::AccessPoints, "rssi"));
    assert!(!default_sort_descending(SortableTable::AccessPoints, "ssid"));
    let mut sort = TableSortState { column_id: "ssid".to_string(), descending: false };
    toggle_table_sort(&mut sort, SortableTable::AccessPoints, "ssid".to_string());
    assert!(sort.descending);
    toggle_table_sort(&mut sort, SortableTable::AccessPoints, "last_seen".to_string());
    assert_eq!(sort.column_id, "last_seen");
    assert!(sort.descending);
    assert_eq!(sortable_header_text("last_seen", "Last Seen", &sort), "Last Seen ▼");
    assert_eq!(sortable_header_text("ssid", "SSID", &sort), "SSID");
    sort.descending = false;
    assert_eq!(sortable_header_text("last_seen", "Last Seen", &sort), "Last Seen ▲");
}
