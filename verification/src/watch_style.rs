//! The style sheet that tints the rows of watched devices: one rule per
//! watchlist entry, its colour at 30% opacity.

use vstd::prelude::*;
use crate::display::{hex_value, hex_digit_value};
use crate::settings::WatchlistSettings;
use crate::text::{decimal, join, is_hex_digit, str_chars, push_str, push_decimal, string_from_chars};
use crate::watchlist::{normalized_color, normalize_watchlist_color, css_class_text, watchlist_css_class, all_hex};

verus! {

/// The value of the two hex digits of `h` at `i`.
pub open spec fn hex_pair(h: Seq<char>, i: int) -> nat {
    hex_value(h[i]) * 16 + hex_value(h[i + 1])
}

/// `rgba(r, g, b, 0.300)` for a colour `#rrggbb` or `#rrggbbaa`.
pub open spec fn rgba_text(color: Seq<char>) -> Seq<char> {
    let h = color.drop_first();
    "rgba("@ + decimal(hex_pair(h, 0)) + ", "@ + decimal(hex_pair(h, 2)) + ", "@ + decimal(
        hex_pair(h, 4),
    ) + ", 0.300)"@
}

/// The rule of watchlist entry `index` with colour `raw`.
pub open spec fn css_rule(index: nat, raw: Seq<char>) -> Seq<char> {
    "."@ + css_class_text(index) + " { background-color: "@ + rgba_text(normalized_color(raw))
        + "; }"@
}

pub open spec fn css_rules(w: WatchlistSettings) -> Seq<Seq<char>> {
    Seq::new(w.entries@.len(), |i: int| css_rule(i as nat, w.entries@[i].color_hex@))
}

proof fn lemma_normalized_shape(raw: Seq<char>)
    ensures
        normalized_color(raw).len() >= 7,
        normalized_color(raw)[0] == '#',
        all_hex(normalized_color(raw).drop_first()),
{
    reveal_strlit("#2ecc71");
    let n = normalized_color(raw);
    assert(n.drop_first() =~= n.subrange(1, n.len() as int));
}

fn hex_pair_value(h: &Vec<char>, i: usize) -> (r: u64)
    requires
        i <= 4,
        i + 1 < h@.len(),
        is_hex_digit(h@[i as int]),
        is_hex_digit(h@[i + 1]),
    ensures
        r == hex_pair(h@, i as int),
{
    hex_digit_value(h[i]) * 16 + hex_digit_value(h[i + 1])
}

/// The style sheet: one rule per entry, joined by line breaks.
pub fn watchlist_css(watchlists: &WatchlistSettings) -> (r: String)
    ensures
        r@ == join(css_rules(*watchlists), "\n"@),
{
    let ghost rules = css_rules(*watchlists);
    let mut out: Vec<char> = Vec::new();
    let mut i: usize = 0;
    while i < watchlists.entries.len()
        invariant
            i <= watchlists.entries@.len(),
            rules == css_rules(*watchlists),
            out@ == join(rules.subrange(0, i as int), "\n"@),
        decreases watchlists.entries@.len() - i,
    {
        let color = normalize_watchlist_color(watchlists.entries[i].color_hex.as_str());
        let chars = str_chars(color.as_str());
        proof {
            lemma_normalized_shape(watchlists.entries@[i as int].color_hex@);
        }
        let mut hex: Vec<char> = Vec::new();
        let mut k: usize = 1;
        while k < chars.len()
            invariant
                1 <= k <= chars@.len(),
                hex@ == chars@.subrange(1, k as int),
            decreases chars@.len() - k,
        {
            hex.push(chars[k]);
            k = k + 1;
            assert(hex@ =~= chars@.subrange(1, k as int));
        }
        assert(hex@ =~= chars@.drop_first());
        let red = hex_pair_value(&hex, 0);
        let green = hex_pair_value(&hex, 2);
        let blue = hex_pair_value(&hex, 4);
        let ghost before = out@;
        if i > 0 {
            push_str(&mut out, "\n");
        }
        let ghost head = out@;
        push_str(&mut out, ".");
        push_str(&mut out, watchlist_css_class(i).as_str());
        push_str(&mut out, " { background-color: ");
        let ghost mid = out@;
        push_str(&mut out, "rgba(");
        push_decimal(&mut out, red);
        push_str(&mut out, ", ");
        push_decimal(&mut out, green);
        push_str(&mut out, ", ");
        push_decimal(&mut out, blue);
        push_str(&mut out, ", 0.300)");
        assert(out@ =~= mid + rgba_text(color@));
        push_str(&mut out, "; }");
        proof {
            let rule = rules[i as int];
            assert(out@ =~= head + rule);
            let pre = rules.subrange(0, i + 1);
            assert(pre.drop_last() =~= rules.subrange(0, i as int));
            assert(pre.last() == rule);
            if i == 0 {
                assert(rules.subrange(0, 0) =~= Seq::<Seq<char>>::empty());
                assert(head =~= Seq::<char>::empty());
            } else {
                assert(head =~= before + "\n"@);
            }
        }
        i = i + 1;
    }
    assert(rules.subrange(0, watchlists.entries@.len() as int) =~= rules);
    string_from_chars(out.as_slice())
}

} // verus!
