use easywifi::session_export::{snapshot_end_lines, snapshot_start_lines, SnapshotErrors};

fn none() -> SnapshotErrors {
    SnapshotErrors {
        ap_csv: None,
        client_csv: None,
        location_csv: None,
        location_kml: None,
        location_kmz: None,
        summary_json: None,
    }
}

#[test]
fn start_lines_count_devices() {
    let (log, status) = snapshot_start_lines(3, 12, 0);
    assert_eq!(log, "snapshot export start ap=3 clients=12 bt=0");
    assert_eq!(status, "exporting session snapshots: ap=3 clients=12 bt=0");
}

#[test]
fn end_lines_when_all_exports_succeed() {
    let (log, status) = snapshot_end_lines(&none());
    assert_eq!(log, "snapshot export complete");
    assert_eq!(status, "session artifacts refreshed (CSV/KML/KMZ/summary)");
}

#[test]
fn end_lines_list_failures_in_order() {
    let mut e = none();
    e.summary_json = Some("disk full".to_string());
    e.client_csv = Some("denied".to_string());
    let (log, status) = snapshot_end_lines(&e);
    assert_eq!(log, "snapshot export incomplete: client csv: denied | summary json: disk full");
    assert_eq!(status, "session artifact refresh incomplete: client csv: denied | summary json: disk full");
}
