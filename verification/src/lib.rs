//! Core logic of the EasyWiFi passive Wi-Fi / Bluetooth discovery tool:
//! text handling, HTTP request parsing for the web UI, channel and HT-mode
//! rules, device record merging, watchlists, table helpers and the scan
//! watchdog.

pub mod text;
pub mod http;
pub mod sorted;
pub mod channels;
pub mod settings;
pub mod scan_setup;
pub mod records;
pub mod web_state;
pub mod web_actions;
pub mod recency;
pub mod merge;
pub mod watchlist;
pub mod watchdog;
pub mod table;
pub mod display;
pub mod status;
pub mod cells;
pub mod ap_detail;
pub mod desktop;
pub mod table_sort;
pub mod sort_keys;
pub mod wifi_lock;
pub mod bluetooth_detail;
pub mod pagination;
pub mod event_batch;
pub mod scan_control;
pub mod list_signature;
pub mod geiger;
pub mod watch_style;
pub mod list_refresh;
pub mod session_export;
