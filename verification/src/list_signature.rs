//! Signatures of the shown page of each device table: the page window, the
//! filters and, for each row on the page, its key and the cells of the
//! visible columns. The tables are redrawn only when a signature changes.

use vstd::prelude::*;
use crate::table::{
    TableLayout, TableColumnLayout, TableSortState, page_window, paged_indices, filter_signature,
    pair_views, pagination_filter_signature, row_passes, opt_views, row_matches_column_filters,
};
use crate::text::{
    decimal, join, string_seqs, push_str, push_decimal, push_decimal_i64, string_from_chars,
    str_chars, str_eq, decimal_int,
};
use crate::display::push_joined;
use crate::cells::{
    LocationCells, ap_cell, client_cell, bluetooth_cell, ap_watch_label, client_watch_label,
    bluetooth_watch_label, ap_column_value_with_watchlist, client_column_value_with_watchlist,
    bluetooth_column_value_with_watchlist, assoc_client_cell,
    assoc_client_column_value_with_watchlist,
};
use crate::records::{AccessPointRecord, ClientRecord, BluetoothDeviceRecord};
use crate::settings::WatchlistSettings;
use crate::sort_keys::{
    SortFacts, ap_key, client_key, bluetooth_key, access_point_sort_key, client_sort_key,
    bluetooth_sort_key, assoc_own_column, assoc_key, is_current, assoc_sort_key, reverse_vec,
};
use crate::table_sort::{
    RowKey, RowView, stable_sorted, row_views, row_items, sort_rows, unzip_rows,
    lemma_stable_sorted_permutes, lemma_stable_sorted_rows_from_input,
};
use crate::watchlist::{
    first_ap_hit, first_client_hit, first_bluetooth_hit, associated_ssid, ap_watchlist_match,
    client_watchlist_match, bluetooth_watchlist_match,
};

verus! {

/// Separates the cells of a row.
pub open spec fn cell_sep() -> Seq<char> {
    "\u{1f}"@
}

/// Separates the rows of a signature.
pub open spec fn row_sep() -> Seq<char> {
    "\u{1e}"@
}

/// `true` or `false`, as `bool` displays.
pub open spec fn bool_display(b: bool) -> Seq<char> {
    if b {
        "true"@
    } else {
        "false"@
    }
}

/// The cells of the visible columns that have one, in column order;
/// `values[k]` is the cell of `columns[k]`.
pub open spec fn visible_cells(
    columns: Seq<TableColumnLayout>,
    values: Seq<Option<Seq<char>>>,
) -> Seq<Seq<char>>
    decreases columns.len(),
{
    if columns.len() == 0 {
        Seq::empty()
    } else {
        let rest = visible_cells(columns.drop_last(), values);
        let k = columns.len() - 1;
        if columns[k].visible {
            match values[k] {
                Some(v) => rest.push(v),
                None => rest,
            }
        } else {
            rest
        }
    }
}

/// The visible cells joined by the cell separator.
pub fn visible_cells_text(layout: &TableLayout, values: &Vec<Option<String>>) -> (r: String)
    requires
        values@.len() == layout.columns@.len(),
    ensures
        r@ == join(visible_cells(layout.columns@, opt_views(values@)), cell_sep()),
{
    let ghost cols = layout.columns@;
    let ghost vals = opt_views(values@);
    let mut parts: Vec<String> = Vec::new();
    let mut k: usize = 0;
    while k < layout.columns.len()
        invariant
            k <= cols.len(),
            cols == layout.columns@,
            vals == opt_views(values@),
            values@.len() == cols.len(),
            string_seqs(parts@) == visible_cells(cols.subrange(0, k as int), vals),
        decreases cols.len() - k,
    {
        proof {
            let pre = cols.subrange(0, k + 1);
            assert(pre.drop_last() =~= cols.subrange(0, k as int));
            assert(pre[k as int] == cols[k as int]);
        }
        if layout.columns[k].visible {
            match &values[k] {
                Some(v) => {
                    let ghost prev = parts@;
                    parts.push(v.clone());
                    assert(string_seqs(parts@) =~= string_seqs(prev).push(v@));
                },
                None => {},
            }
        }
        k = k + 1;
    }
    assert(cols.subrange(0, cols.len() as int) =~= cols);
    let mut out: Vec<char> = Vec::new();
    push_joined(&mut out, &parts, "\u{1f}");
    assert(out@ =~= join(string_seqs(parts@), cell_sep()));
    string_from_chars(out.as_slice())
}

/// The rows of `order` that pass the filters, in order.
pub open spec fn kept_rows(order: Seq<usize>, passes: Seq<bool>) -> Seq<usize>
    decreases order.len(),
{
    if order.len() == 0 {
        Seq::empty()
    } else {
        let rest = kept_rows(order.drop_last(), passes);
        if passes[order.last() as int] {
            rest.push(order.last())
        } else {
            rest
        }
    }
}

proof fn lemma_kept_rows_bounded(order: Seq<usize>, passes: Seq<bool>, n: nat)
    requires
        forall|i: int| 0 <= i < order.len() ==> (#[trigger] order[i]) < n,
    ensures
        kept_rows(order, passes).len() <= order.len(),
        forall|i: int| 0 <= i < kept_rows(order, passes).len() ==> (#[trigger] kept_rows(order, passes)[i]) < n,
    decreases order.len(),
{
    if order.len() > 0 {
        lemma_kept_rows_bounded(order.drop_last(), passes, n);
    }
}

/// The shown page of `total` rows can be computed without overflow: its
/// first row plus the page size (at least 1) fits in a `usize`.
pub open spec fn window_fits(total: nat, requested: nat, size: nat) -> bool {
    page_window(total, requested, size).2 + (if size == 0 {
        1
    } else {
        size
    }) <= usize::MAX
}

/// The first part of a signature: the page shown, the page size asked
/// for, the number of rows that pass the filters, and the filters.
pub open spec fn window_head(
    page: nat,
    size: nat,
    total: nat,
    filters: Seq<(Seq<char>, Seq<char>)>,
) -> Seq<char> {
    "page="@ + decimal(page) + "|size="@ + decimal(size) + "|total="@ + decimal(total) + "|filters="@
        + filter_signature(filters)
}

/// The signature of the page `requested` (of `size` rows) of a table whose
/// rows, in display order, are `order`; `passes[i]` says whether row `i`
/// passes the filters and `lines[i]` is its text.
pub open spec fn paged_text(
    order: Seq<usize>,
    passes: Seq<bool>,
    lines: Seq<Seq<char>>,
    requested: nat,
    size: nat,
    filters: Seq<(Seq<char>, Seq<char>)>,
) -> Seq<char> {
    let kept = kept_rows(order, passes);
    let w = page_window(kept.len(), requested, size);
    join(
        seq![window_head(w.0, size, kept.len(), filters)] + kept.subrange(w.2 as int, w.3 as int).map_values(
            |i: usize| lines[i as int],
        ),
        row_sep(),
    )
}

/// The signature of one page of a table (see `paged_text`).
pub fn paged_signature(
    order: &Vec<usize>,
    passes: &Vec<bool>,
    lines: &Vec<String>,
    requested_page: usize,
    page_size: usize,
    filters: &Vec<(String, String)>,
) -> (r: String)
    requires
        passes@.len() == lines@.len(),
        forall|i: int| 0 <= i < order@.len() ==> (#[trigger] order@[i]) < lines@.len(),
        window_fits(kept_rows(order@, passes@).len(), requested_page as nat, page_size as nat),
    ensures
        r@ == paged_text(
            order@,
            passes@,
            string_seqs(lines@),
            requested_page as nat,
            page_size as nat,
            pair_views(filters@),
        ),
{
    let ghost lv = string_seqs(lines@);
    let mut kept: Vec<usize> = Vec::new();
    let mut i: usize = 0;
    while i < order.len()
        invariant
            i <= order@.len(),
            passes@.len() == lines@.len(),
            forall|j: int| 0 <= j < order@.len() ==> (#[trigger] order@[j]) < lines@.len(),
            kept@ == kept_rows(order@.subrange(0, i as int), passes@),
        decreases order@.len() - i,
    {
        proof {
            let pre = order@.subrange(0, i + 1);
            assert(pre.drop_last() =~= order@.subrange(0, i as int));
            assert(pre.last() == order@[i as int]);
        }
        let row = order[i];
        if passes[row] {
            kept.push(row);
        }
        i = i + 1;
    }
    assert(order@.subrange(0, order@.len() as int) =~= order@);
    proof {
        lemma_kept_rows_bounded(order@, passes@, lines@.len());
    }
    let total = kept.len();
    assert(page_window(total as nat, requested_page as nat, page_size as nat).2 <= total);
    let (page, _pages, start, end) = paged_indices(total, requested_page, page_size);
    let mut head: Vec<char> = Vec::new();
    push_str(&mut head, "page=");
    push_decimal(&mut head, page as u64);
    push_str(&mut head, "|size=");
    push_decimal(&mut head, page_size as u64);
    push_str(&mut head, "|total=");
    push_decimal(&mut head, total as u64);
    push_str(&mut head, "|filters=");
    let fsig = pagination_filter_signature(filters);
    push_str(&mut head, fsig.as_str());
    let ghost w = page_window(total as nat, requested_page as nat, page_size as nat);
    assert(head@ =~= window_head(w.0, page_size as nat, total as nat, pair_views(filters@)));
    let mut parts: Vec<String> = Vec::new();
    parts.push(string_from_chars(head.as_slice()));
    let ghost shown = kept@.subrange(start as int, end as int).map_values(|i: usize| lv[i as int]);
    let mut j: usize = start;
    while j < end
        invariant
            start <= j <= end <= kept@.len(),
            w == page_window(total as nat, requested_page as nat, page_size as nat),
            total == kept@.len(),
            forall|m: int| 0 <= m < kept@.len() ==> (#[trigger] kept@[m]) < lines@.len(),
            lv == string_seqs(lines@),
            shown == kept@.subrange(start as int, end as int).map_values(|i: usize| lv[i as int]),
            string_seqs(parts@) == seq![window_head(w.0, page_size as nat, total as nat, pair_views(filters@))]
                + shown.subrange(0, j - start),
        decreases end - j,
    {
        let row = kept[j];
        let ghost prev = parts@;
        parts.push(lines[row].clone());
        assert(string_seqs(parts@) =~= string_seqs(prev).push(lv[row as int]));
        j = j + 1;
        assert(shown.subrange(0, j - start) =~= shown.subrange(0, j - 1 - start).push(lv[row as int]));
    }
    assert(shown.subrange(0, end - start) =~= shown);
    let mut out: Vec<char> = Vec::new();
    push_joined(&mut out, &parts, "\u{1e}");
    assert(out@ =~= join(string_seqs(parts@), row_sep()));
    string_from_chars(out.as_slice())
}

/// The ids of a layout's columns, in order.
fn column_ids(layout: &TableLayout) -> (r: Vec<String>)
    ensures
        string_seqs(r@) == layout.columns@.map_values(|c: TableColumnLayout| c.id@),
{
    let mut r: Vec<String> = Vec::new();
    let mut k: usize = 0;
    while k < layout.columns.len()
        invariant
            k <= layout.columns@.len(),
            string_seqs(r@) == layout.columns@.subrange(0, k as int).map_values(|c: TableColumnLayout| c.id@),
        decreases layout.columns@.len() - k,
    {
        let ghost prev = r@;
        let id = layout.columns[k].id.clone();
        r.push(id);
        assert(string_seqs(r@) =~= string_seqs(prev).push(layout.columns@[k as int].id@));
        k = k + 1;
        assert(string_seqs(r@) =~= layout.columns@.subrange(0, k as int).map_values(|c: TableColumnLayout| c.id@));
    }
    assert(layout.columns@.subrange(0, layout.columns@.len() as int) =~= layout.columns@);
    r
}

/// The columns the filters are on, in order.
fn filter_ids(filters: &Vec<(String, String)>) -> (r: Vec<String>)
    ensures
        string_seqs(r@) == pair_views(filters@).map_values(|f: (Seq<char>, Seq<char>)| f.0),
{
    let mut r: Vec<String> = Vec::new();
    let mut k: usize = 0;
    while k < filters.len()
        invariant
            k <= filters@.len(),
            string_seqs(r@) == pair_views(filters@).subrange(0, k as int).map_values(|f: (Seq<char>, Seq<char>)| f.0),
        decreases filters@.len() - k,
    {
        let ghost prev = r@;
        let id = filters[k].0.clone();
        r.push(id);
        assert(string_seqs(r@) =~= string_seqs(prev).push(pair_views(filters@)[k as int].0));
        k = k + 1;
        assert(string_seqs(r@) =~= pair_views(filters@).subrange(0, k as int).map_values(|f: (Seq<char>, Seq<char>)| f.0));
    }
    assert(pair_views(filters@).subrange(0, filters@.len() as int) =~= pair_views(filters@));
    r
}

fn push_bool_display(out: &mut Vec<char>, b: bool)
    ensures
        final(out)@ == old(out)@ + bool_display(b),
{
    if b {
        push_str(out, "true");
    } else {
        push_str(out, "false");
    }
}

/// The access point table cell of column `id`, the watchlist column included.
pub open spec fn ap_cell_w(
    ap: AccessPointRecord,
    id: Seq<char>,
    w: WatchlistSettings,
    loc: LocationCells,
) -> Option<Seq<char>> {
    if id == "watchlist_entry"@ {
        Some(ap_watch_label(ap, w))
    } else {
        ap_cell(ap, id, loc)
    }
}

/// The cells of `ap` for the column ids `ids`.
pub open spec fn ap_cells(
    ap: AccessPointRecord,
    w: WatchlistSettings,
    loc: LocationCells,
    ids: Seq<Seq<char>>,
) -> Seq<Option<Seq<char>>> {
    Seq::new(ids.len(), |k: int| ap_cell_w(ap, ids[k], w, loc))
}

/// Whether `ap` passes the filters.
pub open spec fn ap_passes(
    ap: AccessPointRecord,
    w: WatchlistSettings,
    loc: LocationCells,
    filters: Seq<(Seq<char>, Seq<char>)>,
) -> bool {
    row_passes(filters, ap_cells(ap, w, loc, filters.map_values(|f: (Seq<char>, Seq<char>)| f.0)))
}

/// The text of `ap`'s row: BSSID, whether it is on the watchlist, whether a handshake was captured, and the cells of the visible columns.
pub open spec fn ap_line(
    ap: AccessPointRecord,
    w: WatchlistSettings,
    loc: LocationCells,
    columns: Seq<TableColumnLayout>,
) -> Seq<char> {
    ap.bssid@ + "|"@ + bool_display(first_ap_hit(w.entries@, ap) is Some) + "|"@ + bool_display(ap.handshake_count > 0) + "|"@ + join(
        visible_cells(columns, ap_cells(ap, w, loc, columns.map_values(|c: TableColumnLayout| c.id@))),
        cell_sep(),
    )
}

fn ap_cell_values(
    ap: &AccessPointRecord,
    watchlists: &WatchlistSettings,
    locations: &LocationCells,
    ids: &Vec<String>,
) -> (r: Vec<Option<String>>)
    ensures
        r@.len() == ids@.len(),
        opt_views(r@) == ap_cells(*ap, *watchlists, *locations, string_seqs(ids@)),
{
    let ghost want = ap_cells(*ap, *watchlists, *locations, string_seqs(ids@));
    let mut r: Vec<Option<String>> = Vec::new();
    let mut k: usize = 0;
    while k < ids.len()
        invariant
            k <= ids@.len(),
            want == ap_cells(*ap, *watchlists, *locations, string_seqs(ids@)),
            opt_views(r@) == want.subrange(0, k as int),
        decreases ids@.len() - k,
    {
        let v = ap_column_value_with_watchlist(ap, ids[k].as_str(), watchlists, locations);
        let ghost prev = r@;
        r.push(v);
        assert(opt_views(r@) =~= opt_views(prev).push(want[k as int]));
        k = k + 1;
    }
    assert(want.subrange(0, ids@.len() as int) =~= want);
    r
}

fn ap_row_line(
    ap: &AccessPointRecord,
    watchlists: &WatchlistSettings,
    locations: &LocationCells,
    layout: &TableLayout,
) -> (r: String)
    ensures
        r@ == ap_line(*ap, *watchlists, *locations, layout.columns@),
{
    let ids = column_ids(layout);
    let values = ap_cell_values(ap, watchlists, locations, &ids);
    assert(string_seqs(ids@) =~= layout.columns@.map_values(|c: TableColumnLayout| c.id@));
    let cells = visible_cells_text(layout, &values);
    let mut out: Vec<char> = Vec::new();
    push_str(&mut out, ap.bssid.as_str());
    push_str(&mut out, "|");
    let hit = ap_watchlist_match(ap, watchlists);
    push_bool_display(&mut out, hit.is_some());
    push_str(&mut out, "|");
    push_bool_display(&mut out, ap.handshake_count > 0);
    push_str(&mut out, "|");
    push_str(&mut out, cells.as_str());
    assert(out@ =~= ap_line(*ap, *watchlists, *locations, layout.columns@));
    string_from_chars(out.as_slice())
}

fn ap_row_passes(
    ap: &AccessPointRecord,
    watchlists: &WatchlistSettings,
    locations: &LocationCells,
    filters: &Vec<(String, String)>,
) -> (r: bool)
    ensures
        r == ap_passes(*ap, *watchlists, *locations, pair_views(filters@)),
{
    let ids = filter_ids(filters);
    let values = ap_cell_values(ap, watchlists, locations, &ids);
    assert(string_seqs(ids@) =~= pair_views(filters@).map_values(|f: (Seq<char>, Seq<char>)| f.0));
    row_matches_column_filters(filters, &values)
}

/// The client table cell of column `id`, the watchlist column included.
pub open spec fn client_cell_w(
    c: ClientRecord,
    aps: Seq<AccessPointRecord>,
    id: Seq<char>,
    w: WatchlistSettings,
    retry_rate: Seq<char>,
    loc: LocationCells,
) -> Option<Seq<char>> {
    if id == "watchlist_entry"@ {
        Some(client_watch_label(c, aps, w))
    } else {
        client_cell(c, aps, id, retry_rate, loc)
    }
}

/// The cells of `c` for the column ids `ids`.
pub open spec fn client_cells(
    c: ClientRecord,
    aps: Seq<AccessPointRecord>,
    w: WatchlistSettings,
    retry_rate: Seq<char>,
    loc: LocationCells,
    ids: Seq<Seq<char>>,
) -> Seq<Option<Seq<char>>> {
    Seq::new(ids.len(), |k: int| client_cell_w(c, aps, ids[k], w, retry_rate, loc))
}

/// Whether `c` passes the filters.
pub open spec fn client_passes(
    c: ClientRecord,
    aps: Seq<AccessPointRecord>,
    w: WatchlistSettings,
    retry_rate: Seq<char>,
    loc: LocationCells,
    filters: Seq<(Seq<char>, Seq<char>)>,
) -> bool {
    row_passes(filters, client_cells(c, aps, w, retry_rate, loc, filters.map_values(|f: (Seq<char>, Seq<char>)| f.0)))
}

/// The text of `c`'s row: MAC address and whether it is on the watchlist, and the cells of the visible columns.
pub open spec fn client_line(
    c: ClientRecord,
    aps: Seq<AccessPointRecord>,
    w: WatchlistSettings,
    retry_rate: Seq<char>,
    loc: LocationCells,
    columns: Seq<TableColumnLayout>,
) -> Seq<char> {
    c.mac@ + "|"@ + bool_display(first_client_hit(w.entries@, c, associated_ssid(aps, c)) is Some) + "|"@ + join(
        visible_cells(columns, client_cells(c, aps, w, retry_rate, loc, columns.map_values(|c: TableColumnLayout| c.id@))),
        cell_sep(),
    )
}

fn client_cell_values(
    client: &ClientRecord,
    aps: &[AccessPointRecord],
    watchlists: &WatchlistSettings,
    retry_rate: &str,
    locations: &LocationCells,
    ids: &Vec<String>,
) -> (r: Vec<Option<String>>)
    ensures
        r@.len() == ids@.len(),
        opt_views(r@) == client_cells(*client, aps@, *watchlists, retry_rate@, *locations, string_seqs(ids@)),
{
    let ghost want = client_cells(*client, aps@, *watchlists, retry_rate@, *locations, string_seqs(ids@));
    let mut r: Vec<Option<String>> = Vec::new();
    let mut k: usize = 0;
    while k < ids.len()
        invariant
            k <= ids@.len(),
            want == client_cells(*client, aps@, *watchlists, retry_rate@, *locations, string_seqs(ids@)),
            opt_views(r@) == want.subrange(0, k as int),
        decreases ids@.len() - k,
    {
        let v = client_column_value_with_watchlist(client, aps, ids[k].as_str(), watchlists, retry_rate, locations);
        let ghost prev = r@;
        r.push(v);
        assert(opt_views(r@) =~= opt_views(prev).push(want[k as int]));
        k = k + 1;
    }
    assert(want.subrange(0, ids@.len() as int) =~= want);
    r
}

fn client_row_line(
    client: &ClientRecord,
    aps: &[AccessPointRecord],
    watchlists: &WatchlistSettings,
    retry_rate: &str,
    locations: &LocationCells,
    layout: &TableLayout,
) -> (r: String)
    ensures
        r@ == client_line(*client, aps@, *watchlists, retry_rate@, *locations, layout.columns@),
{
    let ids = column_ids(layout);
    let values = client_cell_values(client, aps, watchlists, retry_rate, locations, &ids);
    assert(string_seqs(ids@) =~= layout.columns@.map_values(|c: TableColumnLayout| c.id@));
    let cells = visible_cells_text(layout, &values);
    let mut out: Vec<char> = Vec::new();
    push_str(&mut out, client.mac.as_str());
    push_str(&mut out, "|");
    let hit = client_watchlist_match(client, aps, watchlists);
    push_bool_display(&mut out, hit.is_some());
    push_str(&mut out, "|");
    push_str(&mut out, cells.as_str());
    assert(out@ =~= client_line(*client, aps@, *watchlists, retry_rate@, *locations, layout.columns@));
    string_from_chars(out.as_slice())
}

fn client_row_passes(
    client: &ClientRecord,
    aps: &[AccessPointRecord],
    watchlists: &WatchlistSettings,
    retry_rate: &str,
    locations: &LocationCells,
    filters: &Vec<(String, String)>,
) -> (r: bool)
    ensures
        r == client_passes(*client, aps@, *watchlists, retry_rate@, *locations, pair_views(filters@)),
{
    let ids = filter_ids(filters);
    let values = client_cell_values(client, aps, watchlists, retry_rate, locations, &ids);
    assert(string_seqs(ids@) =~= pair_views(filters@).map_values(|f: (Seq<char>, Seq<char>)| f.0));
    row_matches_column_filters(filters, &values)
}

/// The Bluetooth table cell of column `id`, the watchlist column included.
pub open spec fn bluetooth_cell_w(
    d: BluetoothDeviceRecord,
    id: Seq<char>,
    w: WatchlistSettings,
) -> Option<Seq<char>> {
    if id == "watchlist_entry"@ {
        Some(bluetooth_watch_label(d, w))
    } else {
        bluetooth_cell(d, id)
    }
}

/// The cells of `d` for the column ids `ids`.
pub open spec fn bluetooth_cells(
    d: BluetoothDeviceRecord,
    w: WatchlistSettings,
    ids: Seq<Seq<char>>,
) -> Seq<Option<Seq<char>>> {
    Seq::new(ids.len(), |k: int| bluetooth_cell_w(d, ids[k], w))
}

/// Whether `d` passes the filters.
pub open spec fn bluetooth_passes(
    d: BluetoothDeviceRecord,
    w: WatchlistSettings,
    filters: Seq<(Seq<char>, Seq<char>)>,
) -> bool {
    row_passes(filters, bluetooth_cells(d, w, filters.map_values(|f: (Seq<char>, Seq<char>)| f.0)))
}

/// The text of `d`'s row: MAC address and whether it is on the watchlist, and the cells of the visible columns.
pub open spec fn bluetooth_line(
    d: BluetoothDeviceRecord,
    w: WatchlistSettings,
    columns: Seq<TableColumnLayout>,
) -> Seq<char> {
    d.mac@ + "|"@ + bool_display(first_bluetooth_hit(w.entries@, d) is Some) + "|"@ + join(
        visible_cells(columns, bluetooth_cells(d, w, columns.map_values(|c: TableColumnLayout| c.id@))),
        cell_sep(),
    )
}

fn bluetooth_cell_values(
    device: &BluetoothDeviceRecord,
    watchlists: &WatchlistSettings,
    ids: &Vec<String>,
) -> (r: Vec<Option<String>>)
    ensures
        r@.len() == ids@.len(),
        opt_views(r@) == bluetooth_cells(*device, *watchlists, string_seqs(ids@)),
{
    let ghost want = bluetooth_cells(*device, *watchlists, string_seqs(ids@));
    let mut r: Vec<Option<String>> = Vec::new();
    let mut k: usize = 0;
    while k < ids.len()
        invariant
            k <= ids@.len(),
            want == bluetooth_cells(*device, *watchlists, string_seqs(ids@)),
            opt_views(r@) == want.subrange(0, k as int),
        decreases ids@.len() - k,
    {
        let v = bluetooth_column_value_with_watchlist(device, ids[k].as_str(), watchlists);
        let ghost prev = r@;
        r.push(v);
        assert(opt_views(r@) =~= opt_views(prev).push(want[k as int]));
        k = k + 1;
    }
    assert(want.subrange(0, ids@.len() as int) =~= want);
    r
}

fn bluetooth_row_line(
    device: &BluetoothDeviceRecord,
    watchlists: &WatchlistSettings,
    layout: &TableLayout,
) -> (r: String)
    ensures
        r@ == bluetooth_line(*device, *watchlists, layout.columns@),
{
    let ids = column_ids(layout);
    let values = bluetooth_cell_values(device, watchlists, &ids);
    assert(string_seqs(ids@) =~= layout.columns@.map_values(|c: TableColumnLayout| c.id@));
    let cells = visible_cells_text(layout, &values);
    let mut out: Vec<char> = Vec::new();
    push_str(&mut out, device.mac.as_str());
    push_str(&mut out, "|");
    let hit = bluetooth_watchlist_match(device, watchlists);
    push_bool_display(&mut out, hit.is_some());
    push_str(&mut out, "|");
    push_str(&mut out, cells.as_str());
    assert(out@ =~= bluetooth_line(*device, *watchlists, layout.columns@));
    string_from_chars(out.as_slice())
}

fn bluetooth_row_passes(
    device: &BluetoothDeviceRecord,
    watchlists: &WatchlistSettings,
    filters: &Vec<(String, String)>,
) -> (r: bool)
    ensures
        r == bluetooth_passes(*device, *watchlists, pair_views(filters@)),
{
    let ids = filter_ids(filters);
    let values = bluetooth_cell_values(device, watchlists, &ids);
    assert(string_seqs(ids@) =~= pair_views(filters@).map_values(|f: (Seq<char>, Seq<char>)| f.0));
    row_matches_column_filters(filters, &values)
}

/// The access point table rows (as indices) with their sort keys for column `id`.
pub open spec fn ap_index_rows(
    aps: Seq<AccessPointRecord>,
    facts: Seq<SortFacts>,
    locs: Seq<LocationCells>,
    id: Seq<char>,
    w: WatchlistSettings,
) -> Seq<(RowView, usize)> {
    Seq::new(
        aps.len(),
        |i: int| ((ap_key(aps[i], id, w, facts[i]), aps[i].last_seen as int, aps[i].bssid@), i as usize),
    )
}

/// The rows of the access point table (as indices), in display order.
pub open spec fn ap_order(
    aps: Seq<AccessPointRecord>,
    facts: Seq<SortFacts>,
    locs: Seq<LocationCells>,
    id: Seq<char>,
    w: WatchlistSettings,
    descending: bool,
) -> Seq<usize> {
    row_items(stable_sorted(ap_index_rows(aps, facts, locs, id, w), descending))
}

/// Whether each row of the access point table passes the filters.
pub open spec fn ap_all_pass(
    aps: Seq<AccessPointRecord>,
    facts: Seq<SortFacts>,
    locs: Seq<LocationCells>,
    w: WatchlistSettings,
    filters: Seq<(Seq<char>, Seq<char>)>,
) -> Seq<bool> {
    Seq::new(aps.len(), |i: int| ap_passes(aps[i], w, locs[i], filters))
}

/// The text of each row of the access point table.
pub open spec fn ap_all_lines(
    aps: Seq<AccessPointRecord>,
    facts: Seq<SortFacts>,
    locs: Seq<LocationCells>,
    w: WatchlistSettings,
    columns: Seq<TableColumnLayout>,
) -> Seq<Seq<char>> {
    Seq::new(aps.len(), |i: int| ap_line(aps[i], w, locs[i], columns))
}

/// The signature of the shown page of the access point table: its rows sorted by
/// `sort`, those passing `filters`, page `current_page` of `page_size` rows.
/// `facts[i]` and `locations[i]` belong to `aps[i]`.
pub fn ap_list_signature(
    aps: &Vec<AccessPointRecord>,
    layout: &TableLayout,
    watchlists: &WatchlistSettings,
    facts: &Vec<SortFacts>,
    locations: &Vec<LocationCells>,
    sort: &TableSortState,
    current_page: usize,
    page_size: usize,
    filters: &Vec<(String, String)>,
) -> (r: String)
    requires
        facts@.len() == aps@.len(),
        locations@.len() == aps@.len(),
        window_fits(
            kept_rows(
                ap_order(aps@, facts@, locations@, sort.column_id@, *watchlists, sort.descending),
                ap_all_pass(aps@, facts@, locations@, *watchlists, pair_views(filters@)),
            ).len(),
            current_page as nat,
            page_size as nat,
        ),
    ensures
        r@ == paged_text(
            ap_order(aps@, facts@, locations@, sort.column_id@, *watchlists, sort.descending),
            ap_all_pass(aps@, facts@, locations@, *watchlists, pair_views(filters@)),
            ap_all_lines(aps@, facts@, locations@, *watchlists, layout.columns@),
            current_page as nat,
            page_size as nat,
            pair_views(filters@),
        ),
{
    let n = aps.len();
    let ghost all = ap_index_rows(aps@, facts@, locations@, sort.column_id@, *watchlists);
    let mut rows: Vec<(RowKey, usize)> = Vec::new();
    let mut i: usize = 0;
    while i < n
        invariant
            i <= n,
            n == aps@.len(),
            facts@.len() == n,
            locations@.len() == n,
            all == ap_index_rows(aps@, facts@, locations@, sort.column_id@, *watchlists),
            row_views(rows@) == all.subrange(0, i as int),
        decreases n - i,
    {
        let key = access_point_sort_key(&aps[i], sort.column_id.as_str(), watchlists, &facts[i]);
        let rk = RowKey { key, last_seen: aps[i].last_seen, id: str_chars(aps[i].bssid.as_str()) };
        let ghost prev = rows@;
        rows.push((rk, i));
        assert(row_views(rows@) =~= row_views(prev).push(all[i as int]));
        i = i + 1;
        assert(row_views(rows@) =~= all.subrange(0, i as int));
    }
    assert(all.subrange(0, n as int) =~= all);
    let sorted = sort_rows(rows, sort.descending);
    let order = unzip_rows(sorted);
    proof {
        lemma_stable_sorted_permutes(all, sort.descending);
        lemma_stable_sorted_rows_from_input(all, sort.descending);
        let st = stable_sorted(all, sort.descending);
        assert forall|j: int| 0 <= j < order@.len() implies (#[trigger] order@[j]) < n by {
            assert(order@[j] == st[j].1);
            assert(all.contains(st[j]));
            let m = choose|m: int| 0 <= m < all.len() && all[m] == st[j];
            assert(all[m].1 == m as usize);
        }
    }
    let ghost want_pass = ap_all_pass(aps@, facts@, locations@, *watchlists, pair_views(filters@));
    let ghost want_lines = ap_all_lines(aps@, facts@, locations@, *watchlists, layout.columns@);
    let mut passes: Vec<bool> = Vec::new();
    let mut lines: Vec<String> = Vec::new();
    let mut k: usize = 0;
    while k < n
        invariant
            k <= n,
            n == aps@.len(),
            facts@.len() == n,
            locations@.len() == n,
            want_pass == ap_all_pass(aps@, facts@, locations@, *watchlists, pair_views(filters@)),
            want_lines == ap_all_lines(aps@, facts@, locations@, *watchlists, layout.columns@),
            passes@ == want_pass.subrange(0, k as int),
            string_seqs(lines@) == want_lines.subrange(0, k as int),
        decreases n - k,
    {
        let ok = ap_row_passes(&aps[k], watchlists, &locations[k], filters);
        passes.push(ok);
        let line = ap_row_line(&aps[k], watchlists, &locations[k], layout);
        let ghost prev = lines@;
        lines.push(line);
        assert(string_seqs(lines@) =~= string_seqs(prev).push(line@));
        k = k + 1;
        assert(passes@ =~= want_pass.subrange(0, k as int));
        assert(string_seqs(lines@) =~= want_lines.subrange(0, k as int));
    }
    assert(passes@ =~= want_pass);
    assert(string_seqs(lines@) =~= want_lines);
    paged_signature(&order, &passes, &lines, current_page, page_size, filters)
}

/// The client table rows (as indices) with their sort keys for column `id`.
pub open spec fn client_index_rows(
    clients: Seq<ClientRecord>,
    aps: Seq<AccessPointRecord>,
    facts: Seq<SortFacts>,
    locs: Seq<LocationCells>,
    id: Seq<char>,
    w: WatchlistSettings,
) -> Seq<(RowView, usize)> {
    Seq::new(
        clients.len(),
        |i: int| ((client_key(clients[i], aps, id, w, facts[i]), clients[i].last_seen as int, clients[i].mac@), i as usize),
    )
}

/// The rows of the client table (as indices), in display order.
pub open spec fn client_order(
    clients: Seq<ClientRecord>,
    aps: Seq<AccessPointRecord>,
    facts: Seq<SortFacts>,
    locs: Seq<LocationCells>,
    id: Seq<char>,
    w: WatchlistSettings,
    descending: bool,
) -> Seq<usize> {
    row_items(stable_sorted(client_index_rows(clients, aps, facts, locs, id, w), descending))
}

/// Whether each row of the client table passes the filters.
pub open spec fn client_all_pass(
    clients: Seq<ClientRecord>,
    aps: Seq<AccessPointRecord>,
    facts: Seq<SortFacts>,
    locs: Seq<LocationCells>,
    w: WatchlistSettings,
    filters: Seq<(Seq<char>, Seq<char>)>,
) -> Seq<bool> {
    Seq::new(clients.len(), |i: int| client_passes(clients[i], aps, w, facts[i].retry_rate@, locs[i], filters))
}

/// The text of each row of the client table.
pub open spec fn client_all_lines(
    clients: Seq<ClientRecord>,
    aps: Seq<AccessPointRecord>,
    facts: Seq<SortFacts>,
    locs: Seq<LocationCells>,
    w: WatchlistSettings,
    columns: Seq<TableColumnLayout>,
) -> Seq<Seq<char>> {
    Seq::new(clients.len(), |i: int| client_line(clients[i], aps, w, facts[i].retry_rate@, locs[i], columns))
}

/// The signature of the shown page of the client table: its rows sorted by
/// `sort`, those passing `filters`, page `current_page` of `page_size` rows.
/// `facts[i]` (its retry rate cell included) and `locations[i]` belong
/// to `clients[i]`; `aps` are the known access points.
pub fn client_list_signature(
    clients: &Vec<ClientRecord>,
    aps: &Vec<AccessPointRecord>,
    layout: &TableLayout,
    watchlists: &WatchlistSettings,
    facts: &Vec<SortFacts>,
    locations: &Vec<LocationCells>,
    sort: &TableSortState,
    current_page: usize,
    page_size: usize,
    filters: &Vec<(String, String)>,
) -> (r: String)
    requires
        facts@.len() == clients@.len(),
        locations@.len() == clients@.len(),
        window_fits(
            kept_rows(
                client_order(clients@, aps@, facts@, locations@, sort.column_id@, *watchlists, sort.descending),
                client_all_pass(clients@, aps@, facts@, locations@, *watchlists, pair_views(filters@)),
            ).len(),
            current_page as nat,
            page_size as nat,
        ),
    ensures
        r@ == paged_text(
            client_order(clients@, aps@, facts@, locations@, sort.column_id@, *watchlists, sort.descending),
            client_all_pass(clients@, aps@, facts@, locations@, *watchlists, pair_views(filters@)),
            client_all_lines(clients@, aps@, facts@, locations@, *watchlists, layout.columns@),
            current_page as nat,
            page_size as nat,
            pair_views(filters@),
        ),
{
    let n = clients.len();
    let ghost all = client_index_rows(clients@, aps@, facts@, locations@, sort.column_id@, *watchlists);
    let mut rows: Vec<(RowKey, usize)> = Vec::new();
    let mut i: usize = 0;
    while i < n
        invariant
            i <= n,
            n == clients@.len(),
            facts@.len() == n,
            locations@.len() == n,
            all == client_index_rows(clients@, aps@, facts@, locations@, sort.column_id@, *watchlists),
            row_views(rows@) == all.subrange(0, i as int),
        decreases n - i,
    {
        let key = client_sort_key(&clients[i], aps.as_slice(), sort.column_id.as_str(), watchlists, &facts[i]);
        let rk = RowKey { key, last_seen: clients[i].last_seen, id: str_chars(clients[i].mac.as_str()) };
        let ghost prev = rows@;
        rows.push((rk, i));
        assert(row_views(rows@) =~= row_views(prev).push(all[i as int]));
        i = i + 1;
        assert(row_views(rows@) =~= all.subrange(0, i as int));
    }
    assert(all.subrange(0, n as int) =~= all);
    let sorted = sort_rows(rows, sort.descending);
    let order = unzip_rows(sorted);
    proof {
        lemma_stable_sorted_permutes(all, sort.descending);
        lemma_stable_sorted_rows_from_input(all, sort.descending);
        let st = stable_sorted(all, sort.descending);
        assert forall|j: int| 0 <= j < order@.len() implies (#[trigger] order@[j]) < n by {
            assert(order@[j] == st[j].1);
            assert(all.contains(st[j]));
            let m = choose|m: int| 0 <= m < all.len() && all[m] == st[j];
            assert(all[m].1 == m as usize);
        }
    }
    let ghost want_pass = client_all_pass(clients@, aps@, facts@, locations@, *watchlists, pair_views(filters@));
    let ghost want_lines = client_all_lines(clients@, aps@, facts@, locations@, *watchlists, layout.columns@);
    let mut passes: Vec<bool> = Vec::new();
    let mut lines: Vec<String> = Vec::new();
    let mut k: usize = 0;
    while k < n
        invariant
            k <= n,
            n == clients@.len(),
            facts@.len() == n,
            locations@.len() == n,
            want_pass == client_all_pass(clients@, aps@, facts@, locations@, *watchlists, pair_views(filters@)),
            want_lines == client_all_lines(clients@, aps@, facts@, locations@, *watchlists, layout.columns@),
            passes@ == want_pass.subrange(0, k as int),
            string_seqs(lines@) == want_lines.subrange(0, k as int),
        decreases n - k,
    {
        let ok = client_row_passes(&clients[k], aps.as_slice(), watchlists, facts[k].retry_rate.as_str(), &locations[k], filters);
        passes.push(ok);
        let line = client_row_line(&clients[k], aps.as_slice(), watchlists, facts[k].retry_rate.as_str(), &locations[k], layout);
        let ghost prev = lines@;
        lines.push(line);
        assert(string_seqs(lines@) =~= string_seqs(prev).push(line@));
        k = k + 1;
        assert(passes@ =~= want_pass.subrange(0, k as int));
        assert(string_seqs(lines@) =~= want_lines.subrange(0, k as int));
    }
    assert(passes@ =~= want_pass);
    assert(string_seqs(lines@) =~= want_lines);
    paged_signature(&order, &passes, &lines, current_page, page_size, filters)
}

/// The Bluetooth table rows (as indices) with their sort keys for column `id`.
pub open spec fn bluetooth_index_rows(
    devices: Seq<BluetoothDeviceRecord>,
    id: Seq<char>,
    w: WatchlistSettings,
) -> Seq<(RowView, usize)> {
    Seq::new(
        devices.len(),
        |i: int| ((bluetooth_key(devices[i], id, w), devices[i].last_seen as int, devices[i].mac@), i as usize),
    )
}

/// The rows of the Bluetooth table (as indices), in display order.
pub open spec fn bluetooth_order(
    devices: Seq<BluetoothDeviceRecord>,
    id: Seq<char>,
    w: WatchlistSettings,
    descending: bool,
) -> Seq<usize> {
    row_items(stable_sorted(bluetooth_index_rows(devices, id, w), descending))
}

/// Whether each row of the Bluetooth table passes the filters.
pub open spec fn bluetooth_all_pass(
    devices: Seq<BluetoothDeviceRecord>,
    w: WatchlistSettings,
    filters: Seq<(Seq<char>, Seq<char>)>,
) -> Seq<bool> {
    Seq::new(devices.len(), |i: int| bluetooth_passes(devices[i], w, filters))
}

/// The text of each row of the Bluetooth table.
pub open spec fn bluetooth_all_lines(
    devices: Seq<BluetoothDeviceRecord>,
    w: WatchlistSettings,
    columns: Seq<TableColumnLayout>,
) -> Seq<Seq<char>> {
    Seq::new(devices.len(), |i: int| bluetooth_line(devices[i], w, columns))
}

/// The signature of the shown page of the Bluetooth table: its rows sorted by
/// `sort`, those passing `filters`, page `current_page` of `page_size` rows.
pub fn bluetooth_list_signature(
    devices: &Vec<BluetoothDeviceRecord>,
    layout: &TableLayout,
    watchlists: &WatchlistSettings,
    sort: &TableSortState,
    current_page: usize,
    page_size: usize,
    filters: &Vec<(String, String)>,
) -> (r: String)
    requires
        window_fits(
            kept_rows(
                bluetooth_order(devices@, sort.column_id@, *watchlists, sort.descending),
                bluetooth_all_pass(devices@, *watchlists, pair_views(filters@)),
            ).len(),
            current_page as nat,
            page_size as nat,
        ),
    ensures
        r@ == paged_text(
            bluetooth_order(devices@, sort.column_id@, *watchlists, sort.descending),
            bluetooth_all_pass(devices@, *watchlists, pair_views(filters@)),
            bluetooth_all_lines(devices@, *watchlists, layout.columns@),
            current_page as nat,
            page_size as nat,
            pair_views(filters@),
        ),
{
    let n = devices.len();
    let ghost all = bluetooth_index_rows(devices@, sort.column_id@, *watchlists);
    let mut rows: Vec<(RowKey, usize)> = Vec::new();
    let mut i: usize = 0;
    while i < n
        invariant
            i <= n,
            n == devices@.len(),
            all == bluetooth_index_rows(devices@, sort.column_id@, *watchlists),
            row_views(rows@) == all.subrange(0, i as int),
        decreases n - i,
    {
        let key = bluetooth_sort_key(&devices[i], sort.column_id.as_str(), watchlists);
        let rk = RowKey { key, last_seen: devices[i].last_seen, id: str_chars(devices[i].mac.as_str()) };
        let ghost prev = rows@;
        rows.push((rk, i));
        assert(row_views(rows@) =~= row_views(prev).push(all[i as int]));
        i = i + 1;
        assert(row_views(rows@) =~= all.subrange(0, i as int));
    }
    assert(all.subrange(0, n as int) =~= all);
    let sorted = sort_rows(rows, sort.descending);
    let order = unzip_rows(sorted);
    proof {
        lemma_stable_sorted_permutes(all, sort.descending);
        lemma_stable_sorted_rows_from_input(all, sort.descending);
        let st = stable_sorted(all, sort.descending);
        assert forall|j: int| 0 <= j < order@.len() implies (#[trigger] order@[j]) < n by {
            assert(order@[j] == st[j].1);
            assert(all.contains(st[j]));
            let m = choose|m: int| 0 <= m < all.len() && all[m] == st[j];
            assert(all[m].1 == m as usize);
        }
    }
    let ghost want_pass = bluetooth_all_pass(devices@, *watchlists, pair_views(filters@));
    let ghost want_lines = bluetooth_all_lines(devices@, *watchlists, layout.columns@);
    let mut passes: Vec<bool> = Vec::new();
    let mut lines: Vec<String> = Vec::new();
    let mut k: usize = 0;
    while k < n
        invariant
            k <= n,
            n == devices@.len(),
            want_pass == bluetooth_all_pass(devices@, *watchlists, pair_views(filters@)),
            want_lines == bluetooth_all_lines(devices@, *watchlists, layout.columns@),
            passes@ == want_pass.subrange(0, k as int),
            string_seqs(lines@) == want_lines.subrange(0, k as int),
        decreases n - k,
    {
        let ok = bluetooth_row_passes(&devices[k], watchlists, filters);
        passes.push(ok);
        let line = bluetooth_row_line(&devices[k], watchlists, layout);
        let ghost prev = lines@;
        lines.push(line);
        assert(string_seqs(lines@) =~= string_seqs(prev).push(line@));
        k = k + 1;
        assert(passes@ =~= want_pass.subrange(0, k as int));
        assert(string_seqs(lines@) =~= want_lines.subrange(0, k as int));
    }
    assert(passes@ =~= want_pass);
    assert(string_seqs(lines@) =~= want_lines);
    paged_signature(&order, &passes, &lines, current_page, page_size, filters)
}

/// The associated-clients table cell of column `id`, the watchlist
/// column included.
pub open spec fn assoc_cell_w(
    c: ClientRecord,
    ap_bssid: Seq<char>,
    aps: Seq<AccessPointRecord>,
    id: Seq<char>,
    w: WatchlistSettings,
) -> Option<Seq<char>> {
    if id == "watchlist_entry"@ {
        Some(client_watch_label(c, aps, w))
    } else {
        assoc_client_cell(c, ap_bssid, aps, id)
    }
}

pub open spec fn assoc_cells(
    c: ClientRecord,
    ap_bssid: Seq<char>,
    aps: Seq<AccessPointRecord>,
    w: WatchlistSettings,
    ids: Seq<Seq<char>>,
) -> Seq<Option<Seq<char>>> {
    Seq::new(ids.len(), |k: int| assoc_cell_w(c, ap_bssid, aps, ids[k], w))
}

pub open spec fn assoc_passes(
    c: ClientRecord,
    ap_bssid: Seq<char>,
    aps: Seq<AccessPointRecord>,
    w: WatchlistSettings,
    filters: Seq<(Seq<char>, Seq<char>)>,
) -> bool {
    row_passes(filters, assoc_cells(c, ap_bssid, aps, w, filters.map_values(|f: (Seq<char>, Seq<char>)| f.0)))
}

/// A row of the associated-clients signature: MAC address, whether the
/// client is on the access point now, and the cells of the visible columns.
pub open spec fn assoc_line(
    c: ClientRecord,
    ap_bssid: Seq<char>,
    aps: Seq<AccessPointRecord>,
    w: WatchlistSettings,
    columns: Seq<TableColumnLayout>,
) -> Seq<char> {
    c.mac@ + ":"@ + (if is_current(c, ap_bssid) {
        "current"@
    } else {
        "historical"@
    }) + ":"@ + join(
        visible_cells(columns, assoc_cells(c, ap_bssid, aps, w, columns.map_values(|k: TableColumnLayout| k.id@))),
        cell_sep(),
    )
}

fn assoc_cell_values(
    client: &ClientRecord,
    ap_bssid: &str,
    aps: &[AccessPointRecord],
    watchlists: &WatchlistSettings,
    ids: &Vec<String>,
) -> (r: Vec<Option<String>>)
    ensures
        r@.len() == ids@.len(),
        opt_views(r@) == assoc_cells(*client, ap_bssid@, aps@, *watchlists, string_seqs(ids@)),
{
    let ghost want = assoc_cells(*client, ap_bssid@, aps@, *watchlists, string_seqs(ids@));
    let mut r: Vec<Option<String>> = Vec::new();
    let mut k: usize = 0;
    while k < ids.len()
        invariant
            k <= ids@.len(),
            want == assoc_cells(*client, ap_bssid@, aps@, *watchlists, string_seqs(ids@)),
            opt_views(r@) == want.subrange(0, k as int),
        decreases ids@.len() - k,
    {
        let v = assoc_client_column_value_with_watchlist(client, ap_bssid, aps, ids[k].as_str(), watchlists);
        let ghost prev = r@;
        r.push(v);
        assert(opt_views(r@) =~= opt_views(prev).push(want[k as int]));
        k = k + 1;
    }
    assert(want.subrange(0, ids@.len() as int) =~= want);
    r
}

fn assoc_row_line(
    client: &ClientRecord,
    ap_bssid: &str,
    aps: &[AccessPointRecord],
    watchlists: &WatchlistSettings,
    layout: &TableLayout,
) -> (r: String)
    ensures
        r@ == assoc_line(*client, ap_bssid@, aps@, *watchlists, layout.columns@),
{
    let ids = column_ids(layout);
    let values = assoc_cell_values(client, ap_bssid, aps, watchlists, &ids);
    assert(string_seqs(ids@) =~= layout.columns@.map_values(|c: TableColumnLayout| c.id@));
    let cells = visible_cells_text(layout, &values);
    let mut out: Vec<char> = Vec::new();
    push_str(&mut out, client.mac.as_str());
    push_str(&mut out, ":");
    let current = match &client.associated_ap {
        Some(a) => str_eq(a.as_str(), ap_bssid),
        None => false,
    };
    if current {
        push_str(&mut out, "current");
    } else {
        push_str(&mut out, "historical");
    }
    push_str(&mut out, ":");
    push_str(&mut out, cells.as_str());
    assert(out@ =~= assoc_line(*client, ap_bssid@, aps@, *watchlists, layout.columns@));
    string_from_chars(out.as_slice())
}

fn assoc_row_passes(
    client: &ClientRecord,
    ap_bssid: &str,
    aps: &[AccessPointRecord],
    watchlists: &WatchlistSettings,
    filters: &Vec<(String, String)>,
) -> (r: bool)
    ensures
        r == assoc_passes(*client, ap_bssid@, aps@, *watchlists, pair_views(filters@)),
{
    let ids = filter_ids(filters);
    let values = assoc_cell_values(client, ap_bssid, aps, watchlists, &ids);
    assert(string_seqs(ids@) =~= pair_views(filters@).map_values(|f: (Seq<char>, Seq<char>)| f.0));
    row_matches_column_filters(filters, &values)
}

/// The rows of the associated-clients table (as indices), in display
/// order (see `assoc_order`).
pub open spec fn assoc_index_order(
    clients: Seq<ClientRecord>,
    ap_bssid: Seq<char>,
    aps: Seq<AccessPointRecord>,
    id: Seq<char>,
    w: WatchlistSettings,
    facts: Seq<SortFacts>,
    descending: bool,
) -> Seq<usize> {
    if assoc_own_column(id) {
        row_items(
            stable_sorted(
                Seq::new(
                    clients.len(),
                    |i: int|
                        ((assoc_key(clients[i], ap_bssid, aps, id), clients[i].last_seen as int, clients[i].mac@), i as usize),
                ),
                descending,
            ),
        )
    } else {
        let sorted = row_items(
            stable_sorted(
                Seq::new(
                    clients.len(),
                    |i: int|
                        ((client_key(clients[i], aps, id, w, facts[i]), clients[i].last_seen as int, clients[i].mac@), i as usize),
                ),
                descending,
            ),
        );
        if descending {
            sorted.reverse()
        } else {
            sorted
        }
    }
}

/// The latest time last seen among the rows `kept`, or 0 when there are
/// none.
pub open spec fn newest_seen(kept: Seq<usize>, cs: Seq<ClientRecord>) -> int
    decreases kept.len(),
{
    if kept.len() == 0 {
        0
    } else if kept.len() == 1 {
        cs[kept[0] as int].last_seen as int
    } else {
        let r = newest_seen(kept.drop_last(), cs);
        let v = cs[kept.last() as int].last_seen as int;
        if v > r {
            v
        } else {
            r
        }
    }
}

/// The bytes moved and the probes sent by the rows `kept`, summed.
pub open spec fn traffic_total(kept: Seq<usize>, cs: Seq<ClientRecord>) -> (int, int)
    decreases kept.len(),
{
    if kept.len() == 0 {
        (0, 0)
    } else {
        let r = traffic_total(kept.drop_last(), cs);
        let c = cs[kept.last() as int];
        (r.0 + c.data_transferred_bytes, r.1 + c.probes@.len())
    }
}

/// How many of the rows `kept` are on the access point now.
pub open spec fn current_count(kept: Seq<usize>, cs: Seq<ClientRecord>, ap_bssid: Seq<char>) -> int
    decreases kept.len(),
{
    if kept.len() == 0 {
        0
    } else {
        current_count(kept.drop_last(), cs, ap_bssid) + if is_current(cs[kept.last() as int], ap_bssid) {
            1int
        } else {
            0int
        }
    }
}

proof fn lemma_traffic_grows(kept: Seq<usize>, cs: Seq<ClientRecord>, k: int)
    requires
        0 <= k <= kept.len(),
    ensures
        0 <= traffic_total(kept.subrange(0, k), cs).0 <= traffic_total(kept, cs).0,
        0 <= traffic_total(kept.subrange(0, k), cs).1 <= traffic_total(kept, cs).1,
    decreases kept.len(),
{
    if kept.len() > 0 {
        if k == kept.len() {
            assert(kept.subrange(0, k) =~= kept);
            lemma_traffic_grows(kept.drop_last(), cs, 0);
            assert(kept.drop_last().subrange(0, 0) =~= kept.subrange(0, 0));
        } else {
            assert(kept.subrange(0, k) =~= kept.drop_last().subrange(0, k));
            lemma_traffic_grows(kept.drop_last(), cs, k);
        }
    }
}

/// The signature of the associated-clients table of the access point
/// `ap_bssid`: the rows passing the filters, the latest time one was last
/// seen, their bytes and probes summed, how many are on the access point
/// now, the rows of the shown page, the page, its size and the filters.
pub open spec fn assoc_text(
    cs: Seq<ClientRecord>,
    ap_bssid: Seq<char>,
    aps: Seq<AccessPointRecord>,
    columns: Seq<TableColumnLayout>,
    order: Seq<usize>,
    w: WatchlistSettings,
    requested: nat,
    size: nat,
    filters: Seq<(Seq<char>, Seq<char>)>,
) -> Seq<char> {
    let passes = Seq::new(cs.len(), |i: int| assoc_passes(cs[i], ap_bssid, aps, w, filters));
    let kept = kept_rows(order, passes);
    let win = page_window(kept.len(), requested, size);
    let traffic = traffic_total(kept, cs);
    decimal(kept.len()) + "|"@ + decimal_int(newest_seen(kept, cs)) + "|"@ + decimal(
        (traffic.0 + traffic.1) as nat,
    ) + "|"@ + decimal(current_count(kept, cs, ap_bssid) as nat) + "|"@ + join(
        kept.subrange(win.2 as int, win.3 as int).map_values(
            |i: usize| assoc_line(cs[i as int], ap_bssid, aps, w, columns),
        ),
        row_sep(),
    ) + "|page="@ + decimal(win.0) + "|size="@ + decimal(size) + "|search="@ + filter_signature(
        filters,
    )
}

/// The rows of the associated-clients table, as indices in display order.
fn assoc_index_order_exec(
    clients: &Vec<ClientRecord>,
    ap_bssid: &str,
    aps: &Vec<AccessPointRecord>,
    sort: &TableSortState,
    watchlists: &WatchlistSettings,
    facts: &Vec<SortFacts>,
) -> (r: Vec<usize>)
    requires
        facts@.len() == clients@.len(),
    ensures
        r@ == assoc_index_order(clients@, ap_bssid@, aps@, sort.column_id@, *watchlists, facts@, sort.descending),
        r@.len() == clients@.len(),
        forall|j: int| 0 <= j < r@.len() ==> (#[trigger] r@[j]) < clients@.len(),
{
    let id = sort.column_id.as_str();
    let own = str_eq(id, "status") || str_eq(id, "current_ap") || str_eq(id, "current_ssid");
    let n = clients.len();
    let ghost all = if own {
        Seq::new(
            n as nat,
            |i: int|
                ((assoc_key(clients@[i], ap_bssid@, aps@, id@), clients@[i].last_seen as int, clients@[i].mac@), i as usize),
        )
    } else {
        Seq::new(
            n as nat,
            |i: int|
                ((client_key(clients@[i], aps@, id@, *watchlists, facts@[i]), clients@[i].last_seen as int, clients@[i].mac@), i as usize),
        )
    };
    let mut rows: Vec<(RowKey, usize)> = Vec::new();
    let mut i: usize = 0;
    while i < n
        invariant
            i <= n,
            n == clients@.len(),
            facts@.len() == n,
            own == assoc_own_column(id@),
            all == if own {
                Seq::new(
                    n as nat,
                    |i: int|
                        ((assoc_key(clients@[i], ap_bssid@, aps@, id@), clients@[i].last_seen as int, clients@[i].mac@), i as usize),
                )
            } else {
                Seq::new(
                    n as nat,
                    |i: int|
                        ((client_key(clients@[i], aps@, id@, *watchlists, facts@[i]), clients@[i].last_seen as int, clients@[i].mac@), i as usize),
                )
            },
            row_views(rows@) == all.subrange(0, i as int),
        decreases n - i,
    {
        let key = if own {
            assoc_sort_key(&clients[i], ap_bssid, aps.as_slice(), id)
        } else {
            client_sort_key(&clients[i], aps.as_slice(), id, watchlists, &facts[i])
        };
        let rk = RowKey { key, last_seen: clients[i].last_seen, id: str_chars(clients[i].mac.as_str()) };
        let ghost prev = rows@;
        rows.push((rk, i));
        assert(row_views(rows@) =~= row_views(prev).push(all[i as int]));
        i = i + 1;
        assert(row_views(rows@) =~= all.subrange(0, i as int));
    }
    assert(all.subrange(0, n as int) =~= all);
    let sorted = sort_rows(rows, sort.descending);
    let order = unzip_rows(sorted);
    proof {
        lemma_stable_sorted_permutes(all, sort.descending);
        lemma_stable_sorted_rows_from_input(all, sort.descending);
        let st = stable_sorted(all, sort.descending);
        assert forall|j: int| 0 <= j < order@.len() implies (#[trigger] order@[j]) < n by {
            assert(order@[j] == st[j].1);
            assert(all.contains(st[j]));
            let m = choose|m: int| 0 <= m < all.len() && all[m] == st[j];
            assert(all[m].1 == m as usize);
        }
    }
    if !own && sort.descending {
        let r = reverse_vec(order);
        proof {
            assert forall|j: int| 0 <= j < r@.len() implies (#[trigger] r@[j]) < n by {
                assert(r@[j] == order@[order@.len() - 1 - j]);
            }
        }
        r
    } else {
        order
    }
}

/// The signature of the associated-clients table of the access point
/// `ap_bssid` (see `assoc_text`); `clients` are the clients seen on it and
/// `facts[i]` belongs to `clients[i]`.
#[verifier::rlimit(40)]
pub fn assoc_clients_signature(
    clients: &Vec<ClientRecord>,
    ap_bssid: &str,
    aps: &Vec<AccessPointRecord>,
    layout: &TableLayout,
    sort: &TableSortState,
    current_page: usize,
    page_size: usize,
    filters: &Vec<(String, String)>,
    watchlists: &WatchlistSettings,
    facts: &Vec<SortFacts>,
) -> (r: String)
    requires
        facts@.len() == clients@.len(),
        window_fits(
            kept_rows(
                assoc_index_order(clients@, ap_bssid@, aps@, sort.column_id@, *watchlists, facts@, sort.descending),
                Seq::new(
                    clients@.len(),
                    |i: int| assoc_passes(clients@[i], ap_bssid@, aps@, *watchlists, pair_views(filters@)),
                ),
            ).len(),
            current_page as nat,
            page_size as nat,
        ),
        ({
            let order = assoc_index_order(clients@, ap_bssid@, aps@, sort.column_id@, *watchlists, facts@, sort.descending);
            let passes = Seq::new(
                clients@.len(),
                |i: int| assoc_passes(clients@[i], ap_bssid@, aps@, *watchlists, pair_views(filters@)),
            );
            let t = traffic_total(kept_rows(order, passes), clients@);
            t.0 + t.1 <= u64::MAX && t.1 <= usize::MAX
        }),
    ensures
        r@ == assoc_text(
            clients@,
            ap_bssid@,
            aps@,
            layout.columns@,
            assoc_index_order(clients@, ap_bssid@, aps@, sort.column_id@, *watchlists, facts@, sort.descending),
            *watchlists,
            current_page as nat,
            page_size as nat,
            pair_views(filters@),
        ),
{
    let n = clients.len();
    let order = assoc_index_order_exec(clients, ap_bssid, aps, sort, watchlists, facts);
    let ghost passes_all = Seq::new(
        clients@.len(),
        |i: int| assoc_passes(clients@[i], ap_bssid@, aps@, *watchlists, pair_views(filters@)),
    );
    let mut passes: Vec<bool> = Vec::new();
    let mut k: usize = 0;
    while k < n
        invariant
            k <= n,
            n == clients@.len(),
            passes_all == Seq::new(
                clients@.len(),
                |i: int| assoc_passes(clients@[i], ap_bssid@, aps@, *watchlists, pair_views(filters@)),
            ),
            passes@ == passes_all.subrange(0, k as int),
        decreases n - k,
    {
        let ok = assoc_row_passes(&clients[k], ap_bssid, aps.as_slice(), watchlists, filters);
        passes.push(ok);
        k = k + 1;
        assert(passes@ =~= passes_all.subrange(0, k as int));
    }
    assert(passes@ =~= passes_all);
    let mut kept: Vec<usize> = Vec::new();
    let mut i: usize = 0;
    while i < order.len()
        invariant
            i <= order@.len(),
            passes@.len() == n,
            n == clients@.len(),
            forall|j: int| 0 <= j < order@.len() ==> (#[trigger] order@[j]) < n,
            kept@ == kept_rows(order@.subrange(0, i as int), passes@),
        decreases order@.len() - i,
    {
        proof {
            let pre = order@.subrange(0, i + 1);
            assert(pre.drop_last() =~= order@.subrange(0, i as int));
            assert(pre.last() == order@[i as int]);
        }
        let row = order[i];
        if passes[row] {
            kept.push(row);
        }
        i = i + 1;
    }
    assert(order@.subrange(0, order@.len() as int) =~= order@);
    proof {
        lemma_kept_rows_bounded(order@, passes@, n as nat);
    }
    let ghost kv = kept@;
    let ghost total_traffic = traffic_total(kv, clients@);
    let mut newest: i64 = 0;
    let mut bytes: u64 = 0;
    let mut probes: u64 = 0;
    let mut current: u64 = 0;
    let mut j: usize = 0;
    while j < kept.len()
        invariant
            j <= kv.len(),
            kv == kept@,
            forall|m: int| 0 <= m < kv.len() ==> (#[trigger] kv[m]) < clients@.len(),
            total_traffic == traffic_total(kv, clients@),
            total_traffic.0 + total_traffic.1 <= u64::MAX,
            newest as int == newest_seen(kv.subrange(0, j as int), clients@),
            bytes as int == traffic_total(kv.subrange(0, j as int), clients@).0,
            probes as int == traffic_total(kv.subrange(0, j as int), clients@).1,
            current as int == current_count(kv.subrange(0, j as int), clients@, ap_bssid@),
            current <= j,
        decreases kv.len() - j,
    {
        proof {
            let pre = kv.subrange(0, j + 1);
            assert(pre.drop_last() =~= kv.subrange(0, j as int));
            assert(pre.last() == kv[j as int]);
            lemma_traffic_grows(kv, clients@, j + 1);
            if j == 0 {
                assert(pre.len() == 1 && pre[0] == kv[0]);
            }
        }
        let c = &clients[kept[j]];
        if j == 0 || c.last_seen > newest {
            newest = c.last_seen;
        }
        bytes = bytes + c.data_transferred_bytes;
        probes = probes + c.probes.len() as u64;
        let now_current = match &c.associated_ap {
            Some(a) => str_eq(a.as_str(), ap_bssid),
            None => false,
        };
        if now_current {
            current = current + 1;
        }
        j = j + 1;
    }
    assert(kv.subrange(0, kv.len() as int) =~= kv);
    let total = kept.len();
    assert(page_window(total as nat, current_page as nat, page_size as nat).2 <= total);
    let (page, _pages, start, end) = paged_indices(total, current_page, page_size);
    let mut lines: Vec<String> = Vec::new();
    let ghost shown = kv.subrange(start as int, end as int).map_values(
        |i: usize| assoc_line(clients@[i as int], ap_bssid@, aps@, *watchlists, layout.columns@),
    );
    let mut p: usize = start;
    while p < end
        invariant
            start <= p <= end <= kv.len(),
            kv == kept@,
            total == kv.len(),
            forall|m: int| 0 <= m < kv.len() ==> (#[trigger] kv[m]) < clients@.len(),
            shown == kv.subrange(start as int, end as int).map_values(
                |i: usize| assoc_line(clients@[i as int], ap_bssid@, aps@, *watchlists, layout.columns@),
            ),
            string_seqs(lines@) == shown.subrange(0, p - start),
        decreases end - p,
    {
        let line = assoc_row_line(&clients[kept[p]], ap_bssid, aps.as_slice(), watchlists, layout);
        let ghost prev = lines@;
        lines.push(line);
        assert(string_seqs(lines@) =~= string_seqs(prev).push(shown[p - start]));
        p = p + 1;
        assert(string_seqs(lines@) =~= shown.subrange(0, p - start));
    }
    assert(shown.subrange(0, end - start) =~= shown);
    let mut out: Vec<char> = Vec::new();
    push_decimal(&mut out, total as u64);
    push_str(&mut out, "|");
    push_decimal_i64(&mut out, newest);
    push_str(&mut out, "|");
    push_decimal(&mut out, bytes + probes);
    push_str(&mut out, "|");
    push_decimal(&mut out, current);
    push_str(&mut out, "|");
    push_joined(&mut out, &lines, "\u{1e}");
    push_str(&mut out, "|page=");
    push_decimal(&mut out, page as u64);
    push_str(&mut out, "|size=");
    push_decimal(&mut out, page_size as u64);
    push_str(&mut out, "|search=");
    let fsig = pagination_filter_signature(filters);
    push_str(&mut out, fsig.as_str());
    assert(out@ =~= assoc_text(
        clients@,
        ap_bssid@,
        aps@,
        layout.columns@,
        order@,
        *watchlists,
        current_page as nat,
        page_size as nat,
        pair_views(filters@),
    ));
    string_from_chars(out.as_slice())
}

} // verus!
