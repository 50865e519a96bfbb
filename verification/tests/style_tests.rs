use easywifi::bluetooth_detail::enumeration_status_markup;
use easywifi::scan_control::scan_buttons_enabled;
use easywifi::settings::{WatchlistDeviceType, WatchlistEntry, WatchlistSettings};
use easywifi::status::gps_status_text;
use easywifi::watch_style::watchlist_css;

fn entry(color: &str) -> WatchlistEntry {
    WatchlistEntry {
        label: "x".to_string(),
        device_type: WatchlistDeviceType::Wifi,
        mac: String::new(),
        name: "x".to_string(),
        color_hex: color.to_string(),
    }
}

#[test]
fn watchlist_css_tints_each_entry() {
    let w = WatchlistSettings { entries: vec![entry("#ff0080"), entry("bogus"), entry("0A0B0CFF")], networks: vec![], devices: vec![] };
    assert_eq!(
        watchlist_css(&w),
        ".watchlist-row-0 { background-color: rgba(255, 0, 128, 0.300); }\n.watchlist-row-1 { background-color: rgba(46, 204, 113, 0.300); }\n.watchlist-row-2 { background-color: rgba(10, 11, 12, 0.300); }"
    );
    let empty = WatchlistSettings { entries: vec![], networks: vec![], devices: vec![] };
    assert_eq!(watchlist_css(&empty), "");
}

#[test]
fn enumeration_markup_variants() {
    assert_eq!(enumeration_status_markup(false, None), "<b>Enumeration status:</b> select a Bluetooth device");
    assert_eq!(enumeration_status_markup(true, None), "<b>Enumeration status:</b> idle");
    assert_eq!(enumeration_status_markup(true, Some(("connected", false))), "<b>Enumeration status:</b> connected");
    assert_eq!(
        enumeration_status_markup(true, Some(("timeout &amp; retry", true))),
        "<span foreground='red'><b>Enumeration status:</b> timeout &amp; retry</span>"
    );
}

#[test]
fn scan_buttons() {
    assert_eq!(scan_buttons_enabled(false, false, false), (true, false));
    assert_eq!(scan_buttons_enabled(true, false, false), (true, true));
    assert_eq!(scan_buttons_enabled(true, true, false), (false, true));
    assert_eq!(scan_buttons_enabled(true, true, true), (false, false));
}

#[test]
fn gps_status_line() {
    assert_eq!(gps_status_text("gpsd", true, Some(946_684_800_000), "3D fix"), "GPS gpsd | Connected | Last Fix: 2000-01-01 00:00:00 UTC | 3D fix");
    assert_eq!(gps_status_text("disabled", false, None, ""), "GPS disabled | Disconnected | Last Fix: No fix | ");
}
