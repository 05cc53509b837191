//! The text the terminal screens show: track rows, the selection summary
//! and the visible part of the log. Drawing it is left to the caller.

use vstd::prelude::*;
use vstd::string::*;
use crate::app::{App, ItemModel, StatusModel, TrackItem, selected_total};
use crate::burn::MAX_CD_SECONDS;
use crate::text::{
    decimal, first_chars, pad_left, pad_right, push_char, push_decimal, push_decimal_padded,
    push_padded_left, push_padded_right, strings_view, take_chars,
};
use crate::ytdlp::duration_text;

verus! {

/// `s` cut to at most `max` characters, the last one replaced by `…` when
/// anything was cut.
pub open spec fn truncated(s: Seq<char>, max: nat) -> Seq<char> {
    if s.len() <= max {
        s
    } else {
        take_chars(s, if max >= 1 { (max - 1) as nat } else { 0 }) + seq!['\u{2026}']
    }
}

/// Cuts `s` to at most `max` characters, ending in `…` when anything was
/// cut.
pub fn truncate(s: &str, max: usize) -> (t: String)
    ensures
        t@ == truncated(s@, max as nat),
{
    if s.unicode_len() <= max {
        s.to_owned()
    } else {
        let keep = if max >= 1 { max - 1 } else { 0 };
        let mut t = first_chars(s, keep);
        push_char(&mut t, '\u{2026}');
        t
    }
}

/// The note after a track row that tells how far the track has come.
pub open spec fn status_note(st: StatusModel) -> Seq<char> {
    match st {
        StatusModel::Pending => Seq::empty(),
        StatusModel::Downloading => " (downloading...)"@,
        StatusModel::Downloaded(_) => " (downloaded)"@,
        StatusModel::Failed(r) => " (FAILED: "@ + truncated(r, 40) + seq![')'],
    }
}

/// One row of the track list for the item at position `i`: checkbox,
/// number, title in a 50-character column, duration right-aligned in six,
/// then the status note.
pub open spec fn track_row(i: nat, it: ItemModel) -> Seq<char> {
    (if it.selected { "[x]"@ } else { "[ ]"@ }) + seq![' '] + pad_left(decimal(i + 1), 3, ' ')
        + "  "@ + pad_right(truncated(it.track.title, 50), 50) + seq![' '] + pad_left(
        duration_text(it.track.duration),
        6,
        ' ',
    ) + status_note(it.status)
}

/// The text of the track-list row for the item at position `i`.
pub fn track_row_text(i: usize, item: &TrackItem) -> (r: String)
    requires
        i < usize::MAX,
    ensures
        r@ == track_row(i as nat, item@),
{
    let mut r = if item.selected { "[x]".to_owned() } else { "[ ]".to_owned() };
    push_char(&mut r, ' ');
    push_decimal_padded(&mut r, (i + 1) as u64, 3, ' ');
    r.append("  ");
    let title = truncate(item.track.title.as_str(), 50);
    push_padded_right(&mut r, title.as_str(), 50);
    push_char(&mut r, ' ');
    let label = item.track.duration_label();
    push_padded_left(&mut r, label.as_str(), 6);
    match &item.status {
        crate::app::TrackStatus::Pending => {},
        crate::app::TrackStatus::Downloading => {
            r.append(" (downloading...)");
        },
        crate::app::TrackStatus::Downloaded(_) => {
            r.append(" (downloaded)");
        },
        crate::app::TrackStatus::Failed(reason) => {
            r.append(" (FAILED: ");
            let t = truncate(reason.as_str(), 40);
            r.append(t.as_str());
            push_char(&mut r, ')');
        },
    }
    assert(r@ =~= track_row(i as nat, item@));
    r
}

/// How many items are selected.
pub open spec fn selected_count(items: Seq<ItemModel>) -> nat
    decreases items.len(),
{
    if items.len() == 0 {
        0
    } else {
        selected_count(items.drop_last()) + if items.last().selected {
            1nat
        } else {
            0nat
        }
    }
}

/// The summary under the track list: how many are selected, their total
/// time, and whether it fits on one CD-R.
pub open spec fn selection_summary_text(selected: nat, count: nat, total: nat) -> Seq<char> {
    decimal(selected) + seq!['/'] + decimal(count) + " tracks selected \u{b7} "@ + decimal(
        total / 60,
    ) + seq![':'] + pad_left(decimal(total % 60), 2, '0') + " total \u{b7} "@ + if total
        <= MAX_CD_SECONDS {
        "fits"@
    } else {
        "OVER 80-min CD-R limit!"@
    }
}

proof fn lemma_selected_count_le(items: Seq<ItemModel>)
    ensures
        selected_count(items) <= items.len(),
    decreases items.len(),
{
    if items.len() > 0 {
        lemma_selected_count_le(items.drop_last());
    }
}

/// The number of selected items.
pub fn count_selected(items: &Vec<TrackItem>) -> (n: usize)
    ensures
        n == selected_count(crate::app::items_view(items@)),
{
    let ghost its = crate::app::items_view(items@);
    let mut n: usize = 0;
    let mut i: usize = 0;
    while i < items.len()
        invariant
            i <= items@.len(),
            its == crate::app::items_view(items@),
            n == selected_count(its.take(i as int)),
        decreases items@.len() - i,
    {
        proof {
            assert(its.take(i + 1).drop_last() =~= its.take(i as int));
            lemma_selected_count_le(its.take(i as int));
        }
        if items[i].selected {
            n = n + 1;
        }
        i = i + 1;
    }
    assert(its.take(i as int) =~= its);
    n
}

/// The summary line under the track list.
pub fn selection_summary(app: &App) -> (s: String)
    requires
        selected_total(app@.tracks) <= u64::MAX,
    ensures
        s@ == selection_summary_text(
            selected_count(app@.tracks),
            app@.tracks.len(),
            selected_total(app@.tracks) as nat,
        ),
{
    let total = app.total_selected_seconds();
    let n = count_selected(&app.tracks);
    let mut s = String::new();
    push_decimal(&mut s, n as u64);
    push_char(&mut s, '/');
    push_decimal(&mut s, app.tracks.len() as u64);
    s.append(" tracks selected \u{b7} ");
    push_decimal(&mut s, total / 60);
    push_char(&mut s, ':');
    push_decimal_padded(&mut s, total % 60, 2, '0');
    s.append(" total \u{b7} ");
    if crate::burn::fits_on_one_cd(total) {
        s.append("fits");
    } else {
        s.append("OVER 80-min CD-R limit!");
    }
    s
}

/// The last `height` lines of the log, oldest first.
pub open spec fn log_tail_lines(log: Seq<Seq<char>>, height: nat) -> Seq<Seq<char>> {
    if log.len() <= height {
        log
    } else {
        log.skip(log.len() - height)
    }
}

/// The log lines that fit in `height` rows: the newest ones, oldest first.
pub fn log_tail(log: &Vec<String>, height: usize) -> (lines: Vec<String>)
    ensures
        strings_view(lines@) == log_tail_lines(strings_view(log@), height as nat),
{
    let ghost lv = strings_view(log@);
    let n = log.len();
    let start = if n <= height { 0 } else { n - height };
    let mut lines: Vec<String> = Vec::new();
    let mut i = start;
    while i < n
        invariant
            start <= i <= n == log@.len(),
            lv == strings_view(log@),
            strings_view(lines@) == lv.subrange(start as int, i as int),
        decreases n - i,
    {
        let ghost prev = lines@;
        let line = log[i].clone();
        assert(line@ == lv[i as int]);
        lines.push(line);
        proof {
            assert(lines@ == prev.push(line));
            assert(strings_view(prev).len() == prev.len());
            assert(prev.len() == i - start);
            let l = strings_view(lines@);
            let r = lv.subrange(start as int, i + 1);
            assert forall|k: int| 0 <= k < l.len() implies l[k] == r[k] by {
                if k < i - start {
                    assert(l[k] == strings_view(prev)[k]);
                }
            }
            assert(l =~= r);
        }
        i = i + 1;
    }
    assert(lv.subrange(start as int, n as int) =~= log_tail_lines(lv, height as nat));
    lines
}

} // verus!
