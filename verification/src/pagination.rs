//! What the pagination bar and the filter summary of a table show.

use vstd::prelude::*;
use crate::table::{pair_views, TableLayout, TableColumnLayout};
use crate::text::{decimal, join, trim, trim_str, push_str, push_decimal, string_from_chars, str_eq};

verus! {

/// The state of a table's pagination bar.
pub struct PaginationBar {
    /// "Showing a-b of n | Page p of q".
    pub summary: String,
    /// The one-based page number shown in the page box.
    pub page_text: String,
    pub previous_enabled: bool,
    pub next_enabled: bool,
    pub go_enabled: bool,
}

/// The summary line of the pagination bar, for the rows `start..end` of
/// `total_items`, on zero-based page `current_page` of `total_pages`.
pub open spec fn summary_text(total_items: nat, current_page: nat, total_pages: nat, start: nat, end: nat) -> Seq<char> {
    (if total_items == 0 {
        "Showing 0 of 0"@
    } else {
        "Showing "@ + decimal(start + 1) + "-"@ + decimal(end) + " of "@ + decimal(total_items)
    }) + " | Page "@ + decimal(current_page + 1) + " of "@ + decimal(total_pages)
}

/// The pagination bar for the rows `start..end` of `total_items`, on
/// zero-based page `current_page` of `total_pages`: the buttons for the
/// previous and next page work when there is such a page.
pub fn pagination_bar(total_items: usize, current_page: usize, total_pages: usize, start: usize, end: usize) -> (r: PaginationBar)
    requires
        current_page < usize::MAX,
        start < usize::MAX,
    ensures
        r.summary@ == summary_text(
            total_items as nat,
            current_page as nat,
            total_pages as nat,
            start as nat,
            end as nat,
        ),
        r.page_text@ == decimal(current_page as nat + 1),
        r.previous_enabled == (current_page > 0 && total_items > 0),
        r.next_enabled == (current_page + 1 < total_pages && total_items > 0),
        r.go_enabled == (total_items > 0),
{
    let mut out: Vec<char> = Vec::new();
    if total_items == 0 {
        push_str(&mut out, "Showing 0 of 0");
    } else {
        push_str(&mut out, "Showing ");
        push_decimal(&mut out, (start + 1) as u64);
        push_str(&mut out, "-");
        push_decimal(&mut out, end as u64);
        push_str(&mut out, " of ");
        push_decimal(&mut out, total_items as u64);
    }
    push_str(&mut out, " | Page ");
    push_decimal(&mut out, (current_page + 1) as u64);
    push_str(&mut out, " of ");
    push_decimal(&mut out, total_pages as u64);
    assert(out@ =~= summary_text(
        total_items as nat,
        current_page as nat,
        total_pages as nat,
        start as nat,
        end as nat,
    ));
    let mut page: Vec<char> = Vec::new();
    push_decimal(&mut page, (current_page + 1) as u64);
    assert(page@ =~= decimal(current_page as nat + 1));
    PaginationBar {
        summary: string_from_chars(out.as_slice()),
        page_text: string_from_chars(page.as_slice()),
        previous_enabled: current_page > 0 && total_items > 0,
        next_enabled: current_page + 1 < total_pages && total_items > 0,
        go_enabled: total_items > 0,
    }
}

/// The text in the filter box of column `id`: the first entry for it.
pub open spec fn entry_text(entries: Seq<(Seq<char>, Seq<char>)>, id: Seq<char>) -> Option<Seq<char>>
    decreases entries.len(),
{
    if entries.len() == 0 {
        None
    } else if entries[0].0 == id {
        Some(entries[0].1)
    } else {
        entry_text(entries.drop_first(), id)
    }
}

/// `label: text` for each filter column, in column order, whose box holds
/// more than blanks; the text trimmed.
pub open spec fn active_filter_parts(
    columns: Seq<(Seq<char>, Seq<char>)>,
    entries: Seq<(Seq<char>, Seq<char>)>,
) -> Seq<Seq<char>>
    decreases columns.len(),
{
    if columns.len() == 0 {
        Seq::empty()
    } else {
        let rest = active_filter_parts(columns.drop_last(), entries);
        let c = columns.last();
        match entry_text(entries, c.0) {
            Some(t) => if trim(t).len() > 0 {
                rest.push(c.1 + ": "@ + trim(t))
            } else {
                rest
            },
            None => rest,
        }
    }
}

pub open spec fn filter_summary(
    columns: Seq<(Seq<char>, Seq<char>)>,
    entries: Seq<(Seq<char>, Seq<char>)>,
) -> Seq<char> {
    let parts = active_filter_parts(columns, entries);
    if parts.len() == 0 {
        "No active column filters"@
    } else {
        join(parts, " | "@)
    }
}

fn find_entry(entries: &Vec<(String, String)>, id: &str) -> (r: Option<usize>)
    ensures
        match r {
            Some(k) => k < entries@.len() && entry_text(pair_views(entries@), id@) == Some(
                entries@[k as int].1@,
            ),
            None => entry_text(pair_views(entries@), id@) is None,
        },
{
    let ghost ev = pair_views(entries@);
    let mut i: usize = 0;
    assert(ev.subrange(0, ev.len() as int) =~= ev);
    while i < entries.len()
        invariant
            i <= entries@.len(),
            ev == pair_views(entries@),
            entry_text(ev, id@) == entry_text(ev.subrange(i as int, ev.len() as int), id@),
        decreases entries@.len() - i,
    {
        let ghost rest = ev.subrange(i as int, ev.len() as int);
        assert(rest[0] == ev[i as int]);
        assert(rest.drop_first() =~= ev.subrange(i + 1, ev.len() as int));
        if str_eq(entries[i].0.as_str(), id) {
            return Some(i);
        }
        i = i + 1;
    }
    assert(ev.subrange(i as int, ev.len() as int) =~= Seq::<(Seq<char>, Seq<char>)>::empty());
    None
}

/// The filter summary of a table: `label: text` for each filter column
/// (id and label, in order) whose box (`entries`: column and text) holds
/// more than blanks, joined by " | "; "No active column filters" when none
/// does.
pub fn filter_summary_text(columns: &Vec<(String, String)>, entries: &Vec<(String, String)>) -> (r: String)
    ensures
        r@ == filter_summary(pair_views(columns@), pair_views(entries@)),
{
    let ghost cv = pair_views(columns@);
    let ghost ev = pair_views(entries@);
    let mut out: Vec<char> = Vec::new();
    let mut any = false;
    let mut i: usize = 0;
    while i < columns.len()
        invariant
            i <= columns@.len(),
            cv == pair_views(columns@),
            ev == pair_views(entries@),
            any == (active_filter_parts(cv.subrange(0, i as int), ev).len() > 0),
            out@ == join(active_filter_parts(cv.subrange(0, i as int), ev), " | "@),
        decreases columns@.len() - i,
    {
        let ghost pre = cv.subrange(0, i + 1);
        assert(pre.drop_last() =~= cv.subrange(0, i as int));
        assert(pre.last() == cv[i as int]);
        let ghost parts = active_filter_parts(cv.subrange(0, i as int), ev);
        match find_entry(entries, columns[i].0.as_str()) {
            Some(k) => {
                let text = trim_str(entries[k].1.as_str());
                if !text.as_str().is_empty() {
                    if any {
                        push_str(&mut out, " | ");
                    }
                    let ghost before = out@;
                    push_str(&mut out, columns[i].1.as_str());
                    push_str(&mut out, ": ");
                    push_str(&mut out, text.as_str());
                    proof {
                        let part = cv[i as int].1 + ": "@ + text@;
                        assert(out@ =~= before + part);
                        if parts.len() == 0 {
                            assert(join(parts.push(part), " | "@) == part);
                        } else {
                            assert(parts.push(part).drop_last() =~= parts);
                        }
                    }
                    any = true;
                }
            },
            None => {},
        }
        i = i + 1;
    }
    assert(cv.subrange(0, columns@.len() as int) =~= cv);
    if !any {
        return String::from_str("No active column filters");
    }
    string_from_chars(out.as_slice())
}

/// Pixels per character of a table cell.
pub const TABLE_CHAR_WIDTH_PX: i32 = 10;

/// The width of a column's cells: its width in characters, at least 6.
pub open spec fn column_px(c: TableColumnLayout) -> int {
    (if c.width_chars >= 6 {
        c.width_chars as int
    } else {
        6
    }) * TABLE_CHAR_WIDTH_PX
}

/// The summed cell widths and the number of the visible columns.
pub open spec fn visible_px(cols: Seq<TableColumnLayout>) -> (int, nat)
    decreases cols.len(),
{
    if cols.len() == 0 {
        (0, 0)
    } else {
        let r = visible_px(cols.drop_last());
        if cols.last().visible {
            (r.0 + column_px(cols.last()), r.1 + 1)
        } else {
            r
        }
    }
}

/// The width of a table row: the visible cells, 14 pixels between
/// neighbours and 24 of margin.
pub open spec fn row_px(cols: Seq<TableColumnLayout>) -> int {
    let v = visible_px(cols);
    v.0 + (if v.1 > 0 {
        v.1 - 1
    } else {
        0
    }) * 14 + 24
}

proof fn lemma_visible_px_grows(cols: Seq<TableColumnLayout>, k: int)
    requires
        0 <= k <= cols.len(),
    ensures
        visible_px(cols.subrange(0, k)).0 <= visible_px(cols).0,
        visible_px(cols.subrange(0, k)).1 <= visible_px(cols).1,
        visible_px(cols).0 >= 60 * visible_px(cols).1,
    decreases cols.len(),
{
    if cols.len() > 0 {
        if k == cols.len() {
            assert(cols.subrange(0, k) =~= cols);
            lemma_visible_px_grows(cols.drop_last(), 0);
        } else {
            assert(cols.subrange(0, k) =~= cols.drop_last().subrange(0, k));
            lemma_visible_px_grows(cols.drop_last(), k);
        }
    }
}

/// The pixel width of a table row for `layout`.
pub fn table_row_width_px_for_layout(layout: &TableLayout) -> (r: i32)
    requires
        row_px(layout.columns@) <= i32::MAX,
    ensures
        r == row_px(layout.columns@),
{
    let ghost cols = layout.columns@;
    proof {
        lemma_visible_px_grows(cols, cols.len() as int);
    }
    let mut content: i32 = 0;
    let mut count: i32 = 0;
    let mut k: usize = 0;
    while k < layout.columns.len()
        invariant
            k <= cols.len(),
            cols == layout.columns@,
            row_px(cols) <= i32::MAX,
            visible_px(cols).0 >= 60 * visible_px(cols).1,
            content as int == visible_px(cols.subrange(0, k as int)).0,
            count as int == visible_px(cols.subrange(0, k as int)).1,
        decreases cols.len() - k,
    {
        proof {
            let pre = cols.subrange(0, k + 1);
            assert(pre.drop_last() =~= cols.subrange(0, k as int));
            assert(pre.last() == cols[k as int]);
            lemma_visible_px_grows(cols, k + 1);
            lemma_visible_px_grows(cols.subrange(0, k as int), 0);
            assert(visible_px(cols).0 <= row_px(cols));
        }
        let c = &layout.columns[k];
        if c.visible {
            let w: i32 = if c.width_chars >= 6 {
                c.width_chars
            } else {
                6
            };
            content = content + w * TABLE_CHAR_WIDTH_PX;
            count = count + 1;
        }
        k = k + 1;
    }
    assert(cols.subrange(0, cols.len() as int) =~= cols);
    let gaps: i32 = if count > 0 {
        (count - 1) * 14
    } else {
        0
    };
    content + gaps + 24
}

} // verus!
