//! Table helpers: column headings, sort state, paging, column filters and
//! the repair of saved column layouts.

use vstd::prelude::*;
use crate::text::{
    trim, trim_str, str_eq, str_chars, ascii_lower, lower_chars, contains_seq, contains_chars,
    push_str, string_from_chars, string_seqs, join,
};
use crate::sorted::{lex_lt, compare_chars};

verus! {

/// One column of a saved table layout.
#[derive(Debug, Clone)]
pub struct TableColumnLayout {
    pub id: String,
    pub visible: bool,
    pub width_chars: i32,
}

/// The columns of a table, in display order.
#[derive(Debug, Clone)]
pub struct TableLayout {
    pub columns: Vec<TableColumnLayout>,
}

pub open spec fn column_view(c: TableColumnLayout) -> (Seq<char>, bool, i32) {
    (c.id@, c.visible, c.width_chars)
}

pub open spec fn columns_view(s: Seq<TableColumnLayout>) -> Seq<(Seq<char>, bool, i32)> {
    s.map_values(|c: TableColumnLayout| column_view(c))
}

/// The tables whose rows can be sorted.
#[derive(Debug, Clone, Copy, PartialEq, Eq, Structural)]
pub enum SortableTable {
    AccessPoints,
    Clients,
    AssocClients,
    Bluetooth,
}

/// The heading of column `id` of the access point table.
pub open spec fn ap_label_of(id: Seq<char>) -> Seq<char> {
    if id == "watchlist_entry"@ {
        "Watchlist Entry"@
    } else if id == "ssid"@ {
        "SSID"@
    } else if id == "bssid"@ {
        "BSSID"@
    } else if id == "oui"@ {
        "OUI Manufacturer"@
    } else if id == "channel"@ {
        "Channel"@
    } else if id == "encryption"@ {
        "Encryption"@
    } else if id == "rssi"@ {
        "RSSI"@
    } else if id == "wps"@ {
        "WPS"@
    } else if id == "clients"@ {
        "Clients"@
    } else if id == "first_seen"@ {
        "First Seen"@
    } else if id == "last_seen"@ {
        "Last Seen"@
    } else if id == "handshakes"@ {
        "Handshakes"@
    } else if id == "band"@ {
        "Band"@
    } else if id == "frequency"@ {
        "Frequency"@
    } else if id == "country"@ {
        "Country"@
    } else if id == "full_encryption"@ {
        "Full Encryption"@
    } else if id == "hidden_ssid"@ {
        "Hidden SSID"@
    } else if id == "uptime"@ {
        "Uptime"@
    } else if id == "observation_count"@ {
        "Observations"@
    } else if id == "avg_rssi"@ {
        "Avg RSSI"@
    } else if id == "min_rssi"@ {
        "Min RSSI"@
    } else if id == "max_rssi"@ {
        "Max RSSI"@
    } else if id == "packet_total"@ {
        "Packets"@
    } else if id == "notes"@ {
        "Notes"@
    } else if id == "first_location"@ {
        "First Location"@
    } else if id == "last_location"@ {
        "Last Location"@
    } else if id == "strongest_location"@ {
        "Strongest Location"@
    } else {
        "Unknown"@
    }
}

pub fn ap_column_label(id: &str) -> (r: &'static str)
    ensures
        r@ == ap_label_of(id@),
{
    if str_eq(id, "watchlist_entry") {
        "Watchlist Entry"
    } else if str_eq(id, "ssid") {
        "SSID"
    } else if str_eq(id, "bssid") {
        "BSSID"
    } else if str_eq(id, "oui") {
        "OUI Manufacturer"
    } else if str_eq(id, "channel") {
        "Channel"
    } else if str_eq(id, "encryption") {
        "Encryption"
    } else if str_eq(id, "rssi") {
        "RSSI"
    } else if str_eq(id, "wps") {
        "WPS"
    } else if str_eq(id, "clients") {
        "Clients"
    } else if str_eq(id, "first_seen") {
        "First Seen"
    } else if str_eq(id, "last_seen") {
        "Last Seen"
    } else if str_eq(id, "handshakes") {
        "Handshakes"
    } else if str_eq(id, "band") {
        "Band"
    } else if str_eq(id, "frequency") {
        "Frequency"
    } else if str_eq(id, "country") {
        "Country"
    } else if str_eq(id, "full_encryption") {
        "Full Encryption"
    } else if str_eq(id, "hidden_ssid") {
        "Hidden SSID"
    } else if str_eq(id, "uptime") {
        "Uptime"
    } else if str_eq(id, "observation_count") {
        "Observations"
    } else if str_eq(id, "avg_rssi") {
        "Avg RSSI"
    } else if str_eq(id, "min_rssi") {
        "Min RSSI"
    } else if str_eq(id, "max_rssi") {
        "Max RSSI"
    } else if str_eq(id, "packet_total") {
        "Packets"
    } else if str_eq(id, "notes") {
        "Notes"
    } else if str_eq(id, "first_location") {
        "First Location"
    } else if str_eq(id, "last_location") {
        "Last Location"
    } else if str_eq(id, "strongest_location") {
        "Strongest Location"
    } else {
        "Unknown"
    }
}

/// The heading of column `id` of the client table.
pub open spec fn client_label_of(id: Seq<char>) -> Seq<char> {
    if id == "watchlist_entry"@ {
        "Watchlist Entry"@
    } else if id == "mac"@ {
        "MAC"@
    } else if id == "oui"@ {
        "OUI"@
    } else if id == "associated_ap"@ {
        "Associated AP"@
    } else if id == "associated_ssid"@ {
        "Associated SSID"@
    } else if id == "rssi"@ {
        "RSSI"@
    } else if id == "wps"@ {
        "WPS"@
    } else if id == "probes"@ {
        "Probes"@
    } else if id == "first_heard"@ {
        "First Heard"@
    } else if id == "last_heard"@ {
        "Last Heard"@
    } else if id == "data_transferred"@ {
        "Data Transferred"@
    } else if id == "probe_count"@ {
        "Probe Count"@
    } else if id == "seen_ap_count"@ {
        "Seen APs"@
    } else if id == "handshake_network_count"@ {
        "Handshake Nets"@
    } else if id == "observation_count"@ {
        "Observations"@
    } else if id == "avg_rssi"@ {
        "Avg RSSI"@
    } else if id == "min_rssi"@ {
        "Min RSSI"@
    } else if id == "max_rssi"@ {
        "Max RSSI"@
    } else if id == "seen_aps"@ {
        "Seen APs"@
    } else if id == "handshake_networks"@ {
        "Handshake Networks"@
    } else if id == "first_location"@ {
        "First Location"@
    } else if id == "last_location"@ {
        "Last Location"@
    } else if id == "strongest_location"@ {
        "Strongest Location"@
    } else {
        "Unknown"@
    }
}

pub fn client_column_label(id: &str) -> (r: &'static str)
    ensures
        r@ == client_label_of(id@),
{
    if str_eq(id, "watchlist_entry") {
        "Watchlist Entry"
    } else if str_eq(id, "mac") {
        "MAC"
    } else if str_eq(id, "oui") {
        "OUI"
    } else if str_eq(id, "associated_ap") {
        "Associated AP"
    } else if str_eq(id, "associated_ssid") {
        "Associated SSID"
    } else if str_eq(id, "rssi") {
        "RSSI"
    } else if str_eq(id, "wps") {
        "WPS"
    } else if str_eq(id, "probes") {
        "Probes"
    } else if str_eq(id, "first_heard") {
        "First Heard"
    } else if str_eq(id, "last_heard") {
        "Last Heard"
    } else if str_eq(id, "data_transferred") {
        "Data Transferred"
    } else if str_eq(id, "probe_count") {
        "Probe Count"
    } else if str_eq(id, "seen_ap_count") {
        "Seen APs"
    } else if str_eq(id, "handshake_network_count") {
        "Handshake Nets"
    } else if str_eq(id, "observation_count") {
        "Observations"
    } else if str_eq(id, "avg_rssi") {
        "Avg RSSI"
    } else if str_eq(id, "min_rssi") {
        "Min RSSI"
    } else if str_eq(id, "max_rssi") {
        "Max RSSI"
    } else if str_eq(id, "seen_aps") {
        "Seen APs"
    } else if str_eq(id, "handshake_networks") {
        "Handshake Networks"
    } else if str_eq(id, "first_location") {
        "First Location"
    } else if str_eq(id, "last_location") {
        "Last Location"
    } else if str_eq(id, "strongest_location") {
        "Strongest Location"
    } else {
        "Unknown"
    }
}

/// The heading of column `id` of the associated-client table.
pub open spec fn assoc_client_label_of(id: Seq<char>) -> Seq<char> {
    if id == "watchlist_entry"@ {
        "Watchlist Entry"@
    } else if id == "mac"@ {
        "MAC"@
    } else if id == "status"@ {
        "History"@
    } else if id == "current_ap"@ {
        "Current AP"@
    } else if id == "current_ssid"@ {
        "Current SSID"@
    } else if id == "oui"@ {
        "OUI"@
    } else if id == "data_transferred"@ {
        "Data Transferred"@
    } else if id == "rssi"@ {
        "RSSI"@
    } else if id == "first_heard"@ {
        "First Seen"@
    } else if id == "last_heard"@ {
        "Last Seen"@
    } else if id == "wps"@ {
        "WPS"@
    } else if id == "probe_count"@ {
        "Probe Count"@
    } else if id == "seen_ap_count"@ {
        "Seen APs"@
    } else if id == "handshake_network_count"@ {
        "Handshake Nets"@
    } else {
        "Unknown"@
    }
}

pub fn assoc_client_column_label(id: &str) -> (r: &'static str)
    ensures
        r@ == assoc_client_label_of(id@),
{
    if str_eq(id, "watchlist_entry") {
        "Watchlist Entry"
    } else if str_eq(id, "mac") {
        "MAC"
    } else if str_eq(id, "status") {
        "History"
    } else if str_eq(id, "current_ap") {
        "Current AP"
    } else if str_eq(id, "current_ssid") {
        "Current SSID"
    } else if str_eq(id, "oui") {
        "OUI"
    } else if str_eq(id, "data_transferred") {
        "Data Transferred"
    } else if str_eq(id, "rssi") {
        "RSSI"
    } else if str_eq(id, "first_heard") {
        "First Seen"
    } else if str_eq(id, "last_heard") {
        "Last Seen"
    } else if str_eq(id, "wps") {
        "WPS"
    } else if str_eq(id, "probe_count") {
        "Probe Count"
    } else if str_eq(id, "seen_ap_count") {
        "Seen APs"
    } else if str_eq(id, "handshake_network_count") {
        "Handshake Nets"
    } else {
        "Unknown"
    }
}

/// The heading of column `id` of the Bluetooth table.
pub open spec fn bluetooth_label_of(id: Seq<char>) -> Seq<char> {
    if id == "watchlist_entry"@ {
        "Watchlist Entry"@
    } else if id == "transport"@ {
        "BT/BLE"@
    } else if id == "mac"@ {
        "MAC"@
    } else if id == "oui"@ {
        "OUI"@
    } else if id == "name"@ {
        "Name"@
    } else if id == "type"@ {
        "Type"@
    } else if id == "first_seen"@ {
        "First Seen"@
    } else if id == "last_seen"@ {
        "Last Seen"@
    } else if id == "rssi"@ {
        "RSSI"@
    } else if id == "advertised_name"@ {
        "Advertised Name"@
    } else if id == "alias"@ {
        "Alias"@
    } else if id == "address_type"@ {
        "Address Type"@
    } else if id == "class_of_device"@ {
        "Class"@
    } else if id == "mfgr_ids"@ {
        "MFGRID"@
    } else if id == "mfgr_names"@ {
        "MFGR Names"@
    } else if id == "uuids"@ {
        "UUIDs"@
    } else {
        "Unknown"@
    }
}

pub fn bluetooth_column_label(id: &str) -> (r: &'static str)
    ensures
        r@ == bluetooth_label_of(id@),
{
    if str_eq(id, "watchlist_entry") {
        "Watchlist Entry"
    } else if str_eq(id, "transport") {
        "BT/BLE"
    } else if str_eq(id, "mac") {
        "MAC"
    } else if str_eq(id, "oui") {
        "OUI"
    } else if str_eq(id, "name") {
        "Name"
    } else if str_eq(id, "type") {
        "Type"
    } else if str_eq(id, "first_seen") {
        "First Seen"
    } else if str_eq(id, "last_seen") {
        "Last Seen"
    } else if str_eq(id, "rssi") {
        "RSSI"
    } else if str_eq(id, "advertised_name") {
        "Advertised Name"
    } else if str_eq(id, "alias") {
        "Alias"
    } else if str_eq(id, "address_type") {
        "Address Type"
    } else if str_eq(id, "class_of_device") {
        "Class"
    } else if str_eq(id, "mfgr_ids") {
        "MFGRID"
    } else if str_eq(id, "mfgr_names") {
        "MFGR Names"
    } else if str_eq(id, "uuids") {
        "UUIDs"
    } else {
        "Unknown"
    }
}
/// The heading of column `id` in table `table`.
pub open spec fn label_of(table: SortableTable, id: Seq<char>) -> Seq<char> {
    match table {
        SortableTable::AccessPoints => ap_label_of(id),
        SortableTable::Clients => client_label_of(id),
        SortableTable::AssocClients => assoc_client_label_of(id),
        SortableTable::Bluetooth => bluetooth_label_of(id),
    }
}

pub fn column_label(table: SortableTable, id: &str) -> (r: &'static str)
    ensures
        r@ == label_of(table, id@),
{
    match table {
        SortableTable::AccessPoints => ap_column_label(id),
        SortableTable::Clients => client_column_label(id),
        SortableTable::AssocClients => assoc_client_column_label(id),
        SortableTable::Bluetooth => bluetooth_column_label(id),
    }
}

/// The columns of a table that sort largest first when first chosen.
pub open spec fn sorts_descending(table: SortableTable, id: Seq<char>) -> bool {
    match table {
        SortableTable::AccessPoints => {
            ||| id == "channel"@
            ||| id == "frequency"@
            ||| id == "rssi"@
            ||| id == "clients"@
            ||| id == "first_seen"@
            ||| id == "last_seen"@
            ||| id == "handshakes"@
            ||| id == "uptime"@
            ||| id == "observation_count"@
            ||| id == "avg_rssi"@
            ||| id == "min_rssi"@
            ||| id == "max_rssi"@
            ||| id == "packet_total"@
        },
        SortableTable::Clients | SortableTable::AssocClients => {
            ||| id == "rssi"@
            ||| id == "first_heard"@
            ||| id == "last_heard"@
            ||| id == "data_transferred"@
            ||| id == "probe_count"@
            ||| id == "seen_ap_count"@
            ||| id == "handshake_network_count"@
            ||| id == "observation_count"@
            ||| id == "avg_rssi"@
            ||| id == "min_rssi"@
            ||| id == "max_rssi"@
        },
        SortableTable::Bluetooth => {
            ||| id == "first_seen"@
            ||| id == "last_seen"@
            ||| id == "rssi"@
        },
    }
}

pub fn default_sort_descending(table: SortableTable, column_id: &str) -> (r: bool)
    ensures
        r == sorts_descending(table, column_id@),
{
    match table {
        SortableTable::AccessPoints => {
            str_eq(column_id, "channel") || str_eq(column_id, "frequency") || str_eq(column_id, "rssi")
                || str_eq(column_id, "clients") || str_eq(column_id, "first_seen") || str_eq(
                column_id,
                "last_seen",
            ) || str_eq(column_id, "handshakes") || str_eq(column_id, "uptime") || str_eq(
                column_id,
                "observation_count",
            ) || str_eq(column_id, "avg_rssi") || str_eq(column_id, "min_rssi") || str_eq(
                column_id,
                "max_rssi",
            ) || str_eq(column_id, "packet_total")
        },
        SortableTable::Clients | SortableTable::AssocClients => {
            str_eq(column_id, "rssi") || str_eq(column_id, "first_heard") || str_eq(
                column_id,
                "last_heard",
            ) || str_eq(column_id, "data_transferred") || str_eq(column_id, "probe_count")
                || str_eq(column_id, "seen_ap_count") || str_eq(column_id, "handshake_network_count")
                || str_eq(column_id, "observation_count") || str_eq(column_id, "avg_rssi") || str_eq(
                column_id,
                "min_rssi",
            ) || str_eq(column_id, "max_rssi")
        },
        SortableTable::Bluetooth => {
            str_eq(column_id, "first_seen") || str_eq(column_id, "last_seen") || str_eq(
                column_id,
                "rssi",
            )
        },
    }
}

/// The column a table is sorted by, and in which direction.
#[derive(Debug, Clone)]
pub struct TableSortState {
    pub column_id: String,
    pub descending: bool,
}

impl TableSortState {
    pub fn new(column_id: String, descending: bool) -> (r: TableSortState)
        ensures
            r.column_id@ == column_id@,
            r.descending == descending,
    {
        TableSortState { column_id, descending }
    }
}

/// Clicking column `column_id` of `table`: the same column flips direction;
/// another column becomes the sort column in its default direction.
pub fn toggle_table_sort(sort: &mut TableSortState, table: SortableTable, column_id: String)
    ensures
        old(sort).column_id@ == column_id@ ==> final(sort).column_id@ == old(sort).column_id@
            && final(sort).descending == !old(sort).descending,
        old(sort).column_id@ != column_id@ ==> final(sort).column_id@ == column_id@
            && final(sort).descending == sorts_descending(table, column_id@),
{
    if str_eq(sort.column_id.as_str(), column_id.as_str()) {
        sort.descending = !sort.descending;
    } else {
        sort.descending = default_sort_descending(table, column_id.as_str());
        sort.column_id = column_id;
    }
}

/// A column heading, with an arrow giving the direction when the table is
/// sorted by that column.
pub fn sortable_header_text(column_id: &str, label_text: &str, sort: &TableSortState) -> (r: String)
    ensures
        r@ == if sort.column_id@ == column_id@ {
            label_text@ + " "@ + (if sort.descending {
                "▼"@
            } else {
                "▲"@
            })
        } else {
            label_text@
        },
{
    let mut out: Vec<char> = Vec::new();
    push_str(&mut out, label_text);
    if str_eq(sort.column_id.as_str(), column_id) {
        push_str(&mut out, " ");
        if sort.descending {
            push_str(&mut out, "▼");
        } else {
            push_str(&mut out, "▲");
        }
    }
    assert(Seq::<char>::empty() + label_text@ =~= label_text@);
    string_from_chars(out.as_slice())
}

/// The page shown when `requested_page` is asked for: the page (clamped to
/// the last), the number of pages (at least one), and the range of items
/// on it. A page size of 0 counts as 1.
pub open spec fn page_window(total: nat, requested: nat, size: nat) -> (nat, nat, nat, nat) {
    let s = if size == 0 {
        1nat
    } else {
        size
    };
    let t = if total == 0 {
        1nat
    } else {
        total
    };
    let pages = ((t + s - 1) / s as int) as nat;
    let page = if requested < pages {
        requested
    } else {
        (pages - 1) as nat
    };
    let start = if page * s <= total {
        page * s
    } else {
        total
    };
    let end = if start + s <= total {
        start + s
    } else {
        total
    };
    (page, pages, start, end)
}

pub fn paged_indices(total_items: usize, requested_page: usize, page_size: usize) -> (r: (
    usize,
    usize,
    usize,
    usize,
))
    requires
        page_window(total_items as nat, requested_page as nat, page_size as nat).2 + (
        if page_size == 0 {
            1
        } else {
            page_size
        }) <= usize::MAX,
    ensures
        r.0 as nat == page_window(total_items as nat, requested_page as nat, page_size as nat).0,
        r.1 as nat == page_window(total_items as nat, requested_page as nat, page_size as nat).1,
        r.2 as nat == page_window(total_items as nat, requested_page as nat, page_size as nat).2,
        r.3 as nat == page_window(total_items as nat, requested_page as nat, page_size as nat).3,
{
    let size: usize = if page_size == 0 {
        1
    } else {
        page_size
    };
    let t: usize = if total_items == 0 {
        1
    } else {
        total_items
    };
    let q = t / size;
    let rem = t % size;
    assert(rem != 0 ==> q < t) by (nonlinear_arith)
        requires
            size >= 1,
            t >= 1,
            q == t / size,
            rem == t % size,
    ;
    let pages: usize = q + if rem == 0 {
        0
    } else {
        1
    };
    assert(pages as int == (t + size - 1) / size as int) by (nonlinear_arith)
        requires
            size >= 1,
            pages as int == (t / size) as int + if t % size == 0 {
                0int
            } else {
                1int
            },
    ;
    assert(pages >= 1) by (nonlinear_arith)
        requires
            size >= 1,
            t >= 1,
            pages as int == (t + size - 1) / size as int,
    ;
    let page: usize = if requested_page < pages {
        requested_page
    } else {
        pages - 1
    };
    let start: usize = if page <= total_items / size {
        assert(page * size <= total_items) by (nonlinear_arith)
            requires
                page <= (total_items / size) as int,
                size >= 1,
        ;
        page * size
    } else {
        assert(page * size > total_items) by (nonlinear_arith)
            requires
                page > (total_items / size) as int,
                size >= 1,
        ;
        total_items
    };
    let end: usize = if start + size <= total_items {
        start + size
    } else {
        total_items
    };
    (page, pages, start, end)
}

/// The visible columns of a layout with their headings and widths.
pub open spec fn filter_columns(cols: Seq<TableColumnLayout>, table: SortableTable) -> Seq<(Seq<char>, Seq<char>, i32)>
    decreases cols.len(),
{
    if cols.len() == 0 {
        Seq::empty()
    } else {
        let rest = filter_columns(cols.drop_last(), table);
        let c = cols.last();
        if c.visible {
            rest.push((c.id@, label_of(table, c.id@), c.width_chars))
        } else {
            rest
        }
    }
}

pub open spec fn triple_views(s: Seq<(String, String, i32)>) -> Seq<(Seq<char>, Seq<char>, i32)> {
    s.map_values(|t: (String, String, i32)| (t.0@, t.1@, t.2))
}

/// The column filters to offer: one per visible column, with its heading
/// and width.
pub fn table_filter_columns(layout: &TableLayout, table: SortableTable) -> (r: Vec<(String, String, i32)>)
    ensures
        triple_views(r@) == filter_columns(layout.columns@, table),
{
    let mut out: Vec<(String, String, i32)> = Vec::new();
    let mut i: usize = 0;
    let cols = &layout.columns;
    assert(cols@.subrange(0, 0) =~= Seq::<TableColumnLayout>::empty());
    while i < cols.len()
        invariant
            *cols == layout.columns,
            i <= cols@.len(),
            triple_views(out@) == filter_columns(cols@.subrange(0, i as int), table),
        decreases cols@.len() - i,
    {
        proof {
            let pre = cols@.subrange(0, i + 1);
            assert(pre.drop_last() =~= cols@.subrange(0, i as int));
        }
        let c = &cols[i];
        if c.visible {
            let ghost before = triple_views(out@);
            let label = column_label(table, c.id.as_str());
            let item = (c.id.clone(), label.to_string(), c.width_chars);
            out.push(item);
            assert(triple_views(out@) =~= before.push((c.id@, label_of(table, c.id@), c.width_chars)));
        }
        i = i + 1;
    }
    assert(cols@.subrange(0, cols@.len() as int) =~= cols@);
    out
}


/// Paging never loses or repeats items: there is at least one page, the
/// page shown exists, its range lies within the items and is at most a page
/// long, and when there are items the page shown is not empty.
pub proof fn lemma_page_window_bounds(total: nat, requested: nat, size: nat)
    ensures
        ({
            let w = page_window(total, requested, size);
            let s = if size == 0 {
                1nat
            } else {
                size
            };
            &&& w.1 >= 1
            &&& w.0 < w.1
            &&& w.2 <= w.3 <= total
            &&& w.3 - w.2 <= s
            &&& total > 0 ==> w.2 < w.3
            &&& w.1 * s >= total
        }),
{
    let s: nat = if size == 0 {
        1nat
    } else {
        size
    };
    let t: nat = if total == 0 {
        1nat
    } else {
        total
    };
    let pages = ((t + s - 1) / s as int) as nat;
    assert(pages >= 1 && pages * s >= t && (pages - 1) * s < t) by (nonlinear_arith)
        requires
            s >= 1,
            t >= 1,
            pages == (t + s - 1) / s as int,
    ;
    let w = page_window(total, requested, size);
    assert(w.0 <= pages - 1);
    assert(w.0 * s <= (pages - 1) * s) by (nonlinear_arith)
        requires
            w.0 <= pages - 1,
            s >= 1,
    ;
}

pub open spec fn pair_views(s: Seq<(String, String)>) -> Seq<(Seq<char>, Seq<char>)> {
    s.map_values(|p: (String, String)| (p.0@, p.1@))
}

/// The filters typed into the filter boxes (column and text, in box order)
/// that are not blank: trimmed and lower-cased.
pub open spec fn typed_filters(entries: Seq<(Seq<char>, Seq<char>)>) -> Seq<(Seq<char>, Seq<char>)>
    decreases entries.len(),
{
    if entries.len() == 0 {
        Seq::empty()
    } else {
        let rest = typed_filters(entries.drop_last());
        let e = entries.last();
        if trim(e.1).len() > 0 {
            rest.push((e.0, ascii_lower(trim(e.1))))
        } else {
            rest
        }
    }
}

/// Where `x` goes among `s`, looking from `k`: before the first filter whose
/// column sorts after its column.
pub open spec fn column_pos_from(s: Seq<(Seq<char>, Seq<char>)>, x: (Seq<char>, Seq<char>), k: int) -> int
    decreases s.len() - k,
{
    if k < 0 || k >= s.len() {
        s.len() as int
    } else if lex_lt(x.0, s[k].0) {
        k
    } else {
        column_pos_from(s, x, k + 1)
    }
}

/// The filters ordered by column (filters of one column keep their order).
pub open spec fn by_column(s: Seq<(Seq<char>, Seq<char>)>) -> Seq<(Seq<char>, Seq<char>)>
    decreases s.len(),
{
    if s.len() == 0 {
        s
    } else {
        let r = by_column(s.drop_last());
        r.insert(column_pos_from(r, s.last(), 0), s.last())
    }
}

/// The active column filters: those typed (see `typed_filters`), ordered by
/// column.
pub fn pagination_filter_terms(entries: &Vec<(String, String)>) -> (r: Vec<(String, String)>)
    ensures
        pair_views(r@) == by_column(typed_filters(pair_views(entries@))),
{
    let ghost ev = pair_views(entries@);
    let mut out: Vec<(String, String)> = Vec::new();
    let mut i: usize = 0;
    assert(ev.subrange(0, 0) =~= Seq::<(Seq<char>, Seq<char>)>::empty());
    while i < entries.len()
        invariant
            i <= entries@.len(),
            ev == pair_views(entries@),
            pair_views(out@) == by_column(typed_filters(ev.subrange(0, i as int))),
        decreases entries@.len() - i,
    {
        proof {
            let pre = ev.subrange(0, i + 1);
            assert(pre.drop_last() =~= ev.subrange(0, i as int));
            assert(pre.last() == ev[i as int]);
        }
        let t = trim_str(entries[i].1.as_str());
        if !t.as_str().is_empty() {
            let lowered = string_from_chars(lower_chars(str_chars(t.as_str()).as_slice()).as_slice());
            let column = entries[i].0.clone();
            let cc = str_chars(column.as_str());
            let ghost x = (column@, lowered@);
            let mut pos: usize = 0;
            while pos < out.len()
                invariant
                    pos <= out@.len(),
                    cc@ == x.0,
                    column_pos_from(pair_views(out@), x, pos as int) == column_pos_from(
                        pair_views(out@),
                        x,
                        0,
                    ),
                ensures
                    pos <= out@.len(),
                    column_pos_from(pair_views(out@), x, 0) == pos,
                decreases out@.len() - pos,
            {
                let oc = str_chars(out[pos].0.as_str());
                if compare_chars(cc.as_slice(), oc.as_slice()) < 0 {
                    break;
                }
                pos = pos + 1;
            }
            let ghost before = pair_views(out@);
            out.insert(pos, (column, lowered));
            assert(pair_views(out@) =~= before.insert(pos as int, x));
            proof {
                let prefix = ev.subrange(0, i as int);
                let tp = typed_filters(ev.subrange(0, i + 1));
                assert(x == (ev[i as int].0, ascii_lower(trim(ev[i as int].1))));
                assert(tp == typed_filters(prefix).push(x));
                assert(tp.drop_last() =~= typed_filters(prefix));
                assert(tp.last() == x);
            }
        }
        i = i + 1;
    }
    assert(ev.subrange(0, entries@.len() as int) =~= ev);
    out
}

/// The filters as one text: `column=value` joined with `&`.
pub open spec fn filter_signature(filters: Seq<(Seq<char>, Seq<char>)>) -> Seq<char> {
    join(filters.map_values(|f: (Seq<char>, Seq<char>)| f.0 + "="@ + f.1), "&"@)
}

pub fn pagination_filter_signature(filters: &Vec<(String, String)>) -> (r: String)
    ensures
        r@ == filter_signature(pair_views(filters@)),
{
    let ghost fv = pair_views(filters@);
    let ghost parts = fv.map_values(|f: (Seq<char>, Seq<char>)| f.0 + "="@ + f.1);
    let mut out: Vec<char> = Vec::new();
    let mut i: usize = 0;
    assert(parts.subrange(0, 0) =~= Seq::<Seq<char>>::empty());
    while i < filters.len()
        invariant
            i <= filters@.len(),
            fv == pair_views(filters@),
            parts == fv.map_values(|f: (Seq<char>, Seq<char>)| f.0 + "="@ + f.1),
            out@ == join(parts.subrange(0, i as int), "&"@),
        decreases filters@.len() - i,
    {
        proof {
            let pre = parts.subrange(0, i + 1);
            assert(pre.drop_last() =~= parts.subrange(0, i as int));
            assert(pre.last() == parts[i as int]);
        }
        if i > 0 {
            push_str(&mut out, "&");
        }
        let ghost before = out@;
        push_str(&mut out, filters[i].0.as_str());
        push_str(&mut out, "=");
        push_str(&mut out, filters[i].1.as_str());
        proof {
            if i == 0 {
                assert(out@ =~= parts[0]);
            } else {
                assert(out@ =~= join(parts.subrange(0, i as int), "&"@) + "&"@ + parts[i as int]);
            }
        }
        i = i + 1;
    }
    assert(parts.subrange(0, filters@.len() as int) =~= parts);
    string_from_chars(out.as_slice())
}

/// A row passes the filters when every filtered column has a value that
/// contains the filter text, ignoring ASCII case. `values[i]` is the row's
/// value for the column of `filters[i]`.
pub open spec fn row_passes(filters: Seq<(Seq<char>, Seq<char>)>, values: Seq<Option<Seq<char>>>) -> bool {
    forall|i: int|
        0 <= i < filters.len() ==> match #[trigger] values[i] {
            Some(v) => contains_seq(ascii_lower(v), filters[i].1),
            None => false,
        }
}

pub open spec fn opt_views(s: Seq<Option<String>>) -> Seq<Option<Seq<char>>> {
    s.map_values(|o: Option<String>| match o {
        Some(v) => Some(v@),
        None => None,
    })
}

pub fn row_matches_column_filters(filters: &Vec<(String, String)>, values: &Vec<Option<String>>) -> (r: bool)
    requires
        values@.len() == filters@.len(),
    ensures
        r == row_passes(pair_views(filters@), opt_views(values@)),
{
    let mut i: usize = 0;
    while i < filters.len()
        invariant
            i <= filters@.len(),
            values@.len() == filters@.len(),
            forall|k: int|
                0 <= k < i ==> match #[trigger] opt_views(values@)[k] {
                    Some(v) => contains_seq(ascii_lower(v), pair_views(filters@)[k].1),
                    None => false,
                },
        decreases filters@.len() - i,
    {
        let ok = match &values[i] {
            Some(v) => {
                let lowered = lower_chars(str_chars(v.as_str()).as_slice());
                let needle = str_chars(filters[i].1.as_str());
                contains_chars(lowered.as_slice(), needle.as_slice())
            },
            None => false,
        };
        if !ok {
            assert(!match opt_views(values@)[i as int] {
                Some(v) => contains_seq(ascii_lower(v), pair_views(filters@)[i as int].1),
                None => false,
            });
            return false;
        }
        i = i + 1;
    }
    true
}


pub type ColumnView = (Seq<char>, bool, i32);

pub open spec fn has_id(cols: Seq<ColumnView>, id: Seq<char>) -> bool {
    exists|k: int| 0 <= k < cols.len() && (#[trigger] cols[k]).0 == id
}

/// The columns whose id is the id of one of `defaults`.
pub open spec fn known_columns(cols: Seq<ColumnView>, defaults: Seq<ColumnView>) -> Seq<ColumnView>
    decreases cols.len(),
{
    if cols.len() == 0 {
        cols
    } else {
        let rest = known_columns(cols.drop_last(), defaults);
        if has_id(defaults, cols.last().0) {
            rest.push(cols.last())
        } else {
            rest
        }
    }
}

/// `cols` followed by each default column whose id is not there yet.
pub open spec fn with_defaults(cols: Seq<ColumnView>, defaults: Seq<ColumnView>) -> Seq<ColumnView>
    decreases defaults.len(),
{
    if defaults.len() == 0 {
        cols
    } else {
        let d = with_defaults(cols, defaults.drop_last());
        if has_id(d, defaults.last().0) {
            d
        } else {
            d.push(defaults.last())
        }
    }
}

pub open spec fn clamp_width(w: i32) -> i32 {
    if w < 6 {
        6
    } else if w > 80 {
        80
    } else {
        w
    }
}

/// The known columns of `cols`, or all defaults when none is known.
pub open spec fn kept_or_defaults(cols: Seq<ColumnView>, defaults: Seq<ColumnView>) -> Seq<ColumnView> {
    let known = known_columns(cols, defaults);
    if known.len() == 0 {
        defaults
    } else {
        known
    }
}

/// The columns with their widths clamped to 6..=80.
pub open spec fn clamp_columns(cols: Seq<ColumnView>) -> Seq<ColumnView> {
    cols.map_values(|c: ColumnView| (c.0, c.1, clamp_width(c.2)))
}

/// A saved layout repaired against the table's default layout: unknown
/// columns dropped (all defaults when none is left), missing columns
/// appended, widths clamped to 6..=80, and the first column shown when none
/// is.
pub open spec fn sanitized(cols: Seq<ColumnView>, defaults: Seq<ColumnView>) -> Seq<ColumnView> {
    let full = with_defaults(kept_or_defaults(cols, defaults), defaults);
    let clamped = clamp_columns(full);
    if exists|k: int| 0 <= k < clamped.len() && (#[trigger] clamped[k]).1 {
        clamped
    } else if clamped.len() > 0 {
        clamped.update(0, (clamped[0].0, true, clamped[0].2))
    } else {
        clamped
    }
}

fn copy_column(c: &TableColumnLayout) -> (r: TableColumnLayout)
    ensures
        column_view(r) == column_view(*c),
{
    TableColumnLayout { id: c.id.clone(), visible: c.visible, width_chars: c.width_chars }
}

fn has_column(cols: &Vec<TableColumnLayout>, id: &str) -> (r: bool)
    ensures
        r == has_id(columns_view(cols@), id@),
{
    let mut i: usize = 0;
    while i < cols.len()
        invariant
            i <= cols@.len(),
            forall|k: int| 0 <= k < i ==> (#[trigger] cols@[k]).id@ != id@,
        decreases cols@.len() - i,
    {
        if str_eq(cols[i].id.as_str(), id) {
            assert(columns_view(cols@)[i as int].0 == id@);
            return true;
        }
        i = i + 1;
    }
    proof {
        if has_id(columns_view(cols@), id@) {
            let k = choose|k: int|
                0 <= k < columns_view(cols@).len() && (#[trigger] columns_view(cols@)[k]).0 == id@;
            assert(cols@[k].id@ == id@);
        }
    }
    false
}

pub fn sanitize_table_layout(layout: &mut TableLayout, defaults: &TableLayout)
    ensures
        columns_view(final(layout).columns@) == sanitized(
            columns_view(old(layout).columns@),
            columns_view(defaults.columns@),
        ),
{
    let ghost cv = columns_view(layout.columns@);
    let ghost dv = columns_view(defaults.columns@);
    let mut kept: Vec<TableColumnLayout> = Vec::new();
    let mut i: usize = 0;
    assert(cv.subrange(0, 0) =~= Seq::<ColumnView>::empty());
    while i < layout.columns.len()
        invariant
            i <= layout.columns@.len(),
            cv == columns_view(layout.columns@),
            dv == columns_view(defaults.columns@),
            columns_view(kept@) == known_columns(cv.subrange(0, i as int), dv),
        decreases layout.columns@.len() - i,
    {
        proof {
            let pre = cv.subrange(0, i + 1);
            assert(pre.drop_last() =~= cv.subrange(0, i as int));
            assert(pre.last() == cv[i as int]);
        }
        if has_column(&defaults.columns, layout.columns[i].id.as_str()) {
            let ghost before = columns_view(kept@);
            let c = copy_column(&layout.columns[i]);
            kept.push(c);
            assert(columns_view(kept@) =~= before.push(cv[i as int]));
        }
        i = i + 1;
    }
    assert(cv.subrange(0, layout.columns@.len() as int) =~= cv);
    if kept.len() == 0 {
        let mut j: usize = 0;
        while j < defaults.columns.len()
            invariant
                j <= defaults.columns@.len(),
                dv == columns_view(defaults.columns@),
                columns_view(kept@) == dv.subrange(0, j as int),
            decreases defaults.columns@.len() - j,
        {
            let ghost before = columns_view(kept@);
            let c = copy_column(&defaults.columns[j]);
            kept.push(c);
            assert(columns_view(kept@) =~= before.push(dv[j as int]));
            j = j + 1;
            assert(columns_view(kept@) =~= dv.subrange(0, j as int));
        }
        assert(dv.subrange(0, defaults.columns@.len() as int) =~= dv);
    }
    let ghost base = columns_view(kept@);
    assert(base == kept_or_defaults(cv, dv));
    let mut j: usize = 0;
    assert(dv.subrange(0, 0) =~= Seq::<ColumnView>::empty());
    while j < defaults.columns.len()
        invariant
            j <= defaults.columns@.len(),
            dv == columns_view(defaults.columns@),
            columns_view(kept@) == with_defaults(base, dv.subrange(0, j as int)),
        decreases defaults.columns@.len() - j,
    {
        proof {
            let pre = dv.subrange(0, j + 1);
            assert(pre.drop_last() =~= dv.subrange(0, j as int));
            assert(pre.last() == dv[j as int]);
        }
        if !has_column(&kept, defaults.columns[j].id.as_str()) {
            let ghost before = columns_view(kept@);
            let c = copy_column(&defaults.columns[j]);
            kept.push(c);
            assert(columns_view(kept@) =~= before.push(dv[j as int]));
        }
        j = j + 1;
    }
    assert(dv.subrange(0, defaults.columns@.len() as int) =~= dv);
    let ghost full = columns_view(kept@);
    let n = kept.len();
    let mut k: usize = 0;
    let mut any_visible = false;
    while k < n
        invariant
            n == kept@.len(),
            k <= n,
            full.len() == n,
            forall|m: int| 0 <= m < k ==> (#[trigger] columns_view(kept@)[m]) == (
                full[m].0,
                full[m].1,
                clamp_width(full[m].2),
            ),
            forall|m: int| k <= m < n ==> (#[trigger] columns_view(kept@)[m]) == full[m],
            any_visible == exists|m: int| 0 <= m < k && (#[trigger] full[m]).1,
        decreases n - k,
    {
        let ghost kb = kept@;
        assert(columns_view(kb)[k as int] == full[k as int]);
        let mut c = kept.remove(k);
        assert(column_view(c) == full[k as int]);
        c.width_chars = if c.width_chars < 6 {
            6
        } else if c.width_chars > 80 {
            80
        } else {
            c.width_chars
        };
        if c.visible {
            any_visible = true;
        }
        kept.insert(k, c);
        assert(kept@ =~= kb.update(k as int, c));
        proof {
            assert forall|m: int| 0 <= m < k + 1 implies (#[trigger] columns_view(kept@)[m]) == (
                full[m].0,
                full[m].1,
                clamp_width(full[m].2),
            ) by {
                if m < k {
                    assert(columns_view(kept@)[m] == columns_view(kb)[m]);
                }
            }
            assert forall|m: int| k + 1 <= m < n implies (#[trigger] columns_view(kept@)[m])
                == full[m] by {
                assert(columns_view(kept@)[m] == columns_view(kb)[m]);
            }
        }
        k = k + 1;
    }
    let ghost clamped = clamp_columns(full);
    assert(columns_view(kept@) =~= clamped);
    assert(any_visible == exists|m: int| 0 <= m < clamped.len() && (#[trigger] clamped[m]).1) by {
        if any_visible {
            let m = choose|m: int| 0 <= m < n && (#[trigger] full[m]).1;
            assert(clamped[m].1);
        }
        if exists|m: int| 0 <= m < clamped.len() && (#[trigger] clamped[m]).1 {
            let m = choose|m: int| 0 <= m < clamped.len() && (#[trigger] clamped[m]).1;
            assert(full[m].1);
        }
    }
    if !any_visible && kept.len() > 0 {
        let mut c = kept.remove(0);
        c.visible = true;
        kept.insert(0, c);
        assert(columns_view(kept@) =~= clamped.update(0, (clamped[0].0, true, clamped[0].2)));
    }
    proof {
        let base2 = kept_or_defaults(cv, dv);
        assert(full == with_defaults(base2, dv));
        let cl = clamp_columns(with_defaults(base2, dv));
        assert(cl == clamped);
        if any_visible {
            assert(columns_view(kept@) == cl);
            let m = choose|m: int| 0 <= m < cl.len() && (#[trigger] cl[m]).1;
            assert(cl[m].1);
            assert(sanitized(cv, dv) == cl);
        } else if cl.len() > 0 {
            assert(sanitized(cv, dv) == cl.update(0, (cl[0].0, true, cl[0].2)));
        } else {
            assert(sanitized(cv, dv) == cl);
        }
        assert(columns_view(kept@) == sanitized(cv, dv));
    }
    layout.columns = kept;
}


/// The ids of the visible columns, in order.
pub open spec fn visible_ids(cols: Seq<ColumnView>) -> Seq<Seq<char>>
    decreases cols.len(),
{
    if cols.len() == 0 {
        Seq::empty()
    } else {
        let rest = visible_ids(cols.drop_last());
        if cols.last().1 {
            rest.push(cols.last().0)
        } else {
            rest
        }
    }
}

/// The visible columns of the Bluetooth table in earlier versions.
pub open spec fn legacy_bluetooth_columns() -> Seq<Seq<char>> {
    seq!["transport"@, "mac"@, "oui"@, "type"@, "first_seen"@, "last_seen"@]
}

/// The same, after the name and manufacturer columns were appended.
pub open spec fn legacy_bluetooth_columns_named() -> Seq<Seq<char>> {
    legacy_bluetooth_columns().push("name"@).push("mfgr_ids"@)
}

fn visible_id_list(cols: &Vec<TableColumnLayout>) -> (r: Vec<String>)
    ensures
        string_seqs(r@) == visible_ids(columns_view(cols@)),
{
    let ghost cv = columns_view(cols@);
    let mut out: Vec<String> = Vec::new();
    let mut i: usize = 0;
    assert(cv.subrange(0, 0) =~= Seq::<ColumnView>::empty());
    while i < cols.len()
        invariant
            i <= cols@.len(),
            cv == columns_view(cols@),
            string_seqs(out@) == visible_ids(cv.subrange(0, i as int)),
        decreases cols@.len() - i,
    {
        proof {
            let pre = cv.subrange(0, i + 1);
            assert(pre.drop_last() =~= cv.subrange(0, i as int));
            assert(pre.last() == cv[i as int]);
        }
        if cols[i].visible {
            let ghost before = string_seqs(out@);
            out.push(cols[i].id.clone());
            assert(string_seqs(out@) =~= before.push(cv[i as int].0));
        }
        i = i + 1;
    }
    assert(cv.subrange(0, cols@.len() as int) =~= cv);
    out
}

fn ids_are(ids: &Vec<String>, expected: &[&str]) -> (r: bool)
    ensures
        r == (string_seqs(ids@) == expected@.map_values(|e: &str| e@)),
{
    let ghost want = expected@.map_values(|e: &str| e@);
    if ids.len() != expected.len() {
        assert(string_seqs(ids@).len() != want.len());
        return false;
    }
    let mut i: usize = 0;
    while i < ids.len()
        invariant
            ids@.len() == expected@.len(),
            want == expected@.map_values(|e: &str| e@),
            i <= ids@.len(),
            forall|k: int| 0 <= k < i ==> string_seqs(ids@)[k] == want[k],
        decreases ids@.len() - i,
    {
        if !str_eq(ids[i].as_str(), expected[i]) {
            assert(string_seqs(ids@)[i as int] != want[i as int]);
            return false;
        }
        i = i + 1;
    }
    assert(string_seqs(ids@) =~= want);
    true
}

fn copy_layout(l: &TableLayout) -> (r: TableLayout)
    ensures
        columns_view(r.columns@) == columns_view(l.columns@),
{
    let mut out: Vec<TableColumnLayout> = Vec::new();
    let mut i: usize = 0;
    while i < l.columns.len()
        invariant
            i <= l.columns@.len(),
            columns_view(out@) == columns_view(l.columns@).subrange(0, i as int),
        decreases l.columns@.len() - i,
    {
        let ghost before = columns_view(out@);
        let c = copy_column(&l.columns[i]);
        out.push(c);
        assert(columns_view(out@) =~= before.push(columns_view(l.columns@)[i as int]));
        i = i + 1;
        assert(columns_view(out@) =~= columns_view(l.columns@).subrange(0, i as int));
    }
    assert(columns_view(l.columns@).subrange(0, l.columns@.len() as int) =~= columns_view(
        l.columns@,
    ));
    TableLayout { columns: out }
}

/// A Bluetooth table layout still showing exactly the columns of an earlier
/// version's default is replaced by the current default `defaults`.
pub fn migrate_legacy_bluetooth_table_layout(layout: &mut TableLayout, defaults: &TableLayout)
    ensures
        ({
            let ids = visible_ids(columns_view(old(layout).columns@));
            if ids == legacy_bluetooth_columns() || ids == legacy_bluetooth_columns_named() {
                columns_view(final(layout).columns@) == columns_view(defaults.columns@)
            } else {
                columns_view(final(layout).columns@) == columns_view(old(layout).columns@)
            }
        }),
{
    let ids = visible_id_list(&layout.columns);
    let legacy: [&str; 6] = ["transport", "mac", "oui", "type", "first_seen", "last_seen"];
    let legacy_named: [&str; 8] = [
        "transport",
        "mac",
        "oui",
        "type",
        "first_seen",
        "last_seen",
        "name",
        "mfgr_ids",
    ];
    proof {
        reveal_strlit("transport");
        reveal_strlit("mac");
        reveal_strlit("oui");
        reveal_strlit("type");
        reveal_strlit("first_seen");
        reveal_strlit("last_seen");
        reveal_strlit("name");
        reveal_strlit("mfgr_ids");
        assert(legacy@.map_values(|e: &str| e@) =~= legacy_bluetooth_columns());
        assert(legacy_named@.map_values(|e: &str| e@) =~= legacy_bluetooth_columns_named());
    }
    if ids_are(&ids, &legacy) || ids_are(&ids, &legacy_named) {
        *layout = copy_layout(defaults);
    }
}

/// `cols` with the first column named `id` shown or hidden.
pub open spec fn set_visible(cols: Seq<ColumnView>, id: Seq<char>, visible: bool) -> Seq<ColumnView> {
    match first_column(cols, id) {
        Some(k) => cols.update(k, (cols[k].0, visible, cols[k].2)),
        None => cols,
    }
}

pub open spec fn first_column(cols: Seq<ColumnView>, id: Seq<char>) -> Option<int>
    decreases cols.len(),
{
    if cols.len() == 0 {
        None
    } else if cols[0].0 == id {
        Some(0)
    } else {
        match first_column(cols.drop_first(), id) {
            Some(k) => Some(k + 1),
            None => None,
        }
    }
}

proof fn lemma_first_column(cols: Seq<ColumnView>, id: Seq<char>)
    ensures
        match first_column(cols, id) {
            Some(k) => 0 <= k < cols.len() && cols[k].0 == id && forall|j: int|
                0 <= j < k ==> (#[trigger] cols[j]).0 != id,
            None => forall|j: int| 0 <= j < cols.len() ==> (#[trigger] cols[j]).0 != id,
        },
        first_column(cols, id) is Some <==> has_id(cols, id),
    decreases cols.len(),
{
    if cols.len() > 0 && cols[0].0 != id {
        lemma_first_column(cols.drop_first(), id);
        assert forall|j: int| 0 < j < cols.len() implies cols[j] == cols.drop_first()[j - 1] by {}
        if has_id(cols, id) {
            let k = choose|k: int| 0 <= k < cols.len() && (#[trigger] cols[k]).0 == id;
            assert(cols.drop_first()[k - 1].0 == id);
        }
    }
}

fn set_column_visible(cols: &mut Vec<TableColumnLayout>, id: &str, visible: bool)
    ensures
        columns_view(final(cols)@) == set_visible(columns_view(old(cols)@), id@, visible),
{
    let ghost cv = columns_view(cols@);
    proof {
        lemma_first_column(cv, id@);
    }
    let mut i: usize = 0;
    while i < cols.len()
        invariant
            i <= cols@.len(),
            cv == columns_view(cols@),
            cols@ == old(cols)@,
            forall|j: int| 0 <= j < i ==> (#[trigger] cv[j]).0 != id@,
        decreases cols@.len() - i,
    {
        if str_eq(cols[i].id.as_str(), id) {
            proof {
                lemma_first_column(cv, id@);
                match first_column(cv, id@) {
                    Some(k) => {
                        if k > i {
                            assert(cv[i as int].0 == id@);
                        }
                        if k < i {
                            assert(cv[k].0 != id@);
                        }
                    },
                    None => {
                        assert(cv[i as int].0 == id@);
                    },
                }
            }
            let mut c = cols.remove(i);
            c.visible = visible;
            cols.insert(i, c);
            assert(columns_view(cols@) =~= set_visible(cv, id@, visible));
            return;
        }
        i = i + 1;
    }
    proof {
        lemma_first_column(cv, id@);
        match first_column(cv, id@) {
            Some(k) => {
                assert(cv[k].0 != id@);
            },
            None => {},
        }
    }
}

/// An associated-client table layout that has both the current access point
/// and current SSID columns shows them and hides the history column.
pub fn migrate_assoc_client_table_layout(layout: &mut TableLayout)
    ensures
        ({
            let cv = columns_view(old(layout).columns@);
            if has_id(cv, "current_ap"@) && has_id(cv, "current_ssid"@) {
                columns_view(final(layout).columns@) == set_visible(
                    set_visible(set_visible(cv, "status"@, false), "current_ap"@, true),
                    "current_ssid"@,
                    true,
                )
            } else {
                columns_view(final(layout).columns@) == cv
            }
        }),
{
    if !has_column(&layout.columns, "current_ap") || !has_column(&layout.columns, "current_ssid") {
        return;
    }
    set_column_visible(&mut layout.columns, "status", false);
    set_column_visible(&mut layout.columns, "current_ap", true);
    set_column_visible(&mut layout.columns, "current_ssid", true);
}

} // verus!
