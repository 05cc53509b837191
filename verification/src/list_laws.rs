//! How the track-list summaries are built from the items: each item
//! contributes on its own, whatever the others are.

use vstd::prelude::*;
use crate::app::{
    ItemModel, StatusModel, downloaded, select_all, selected_jobs, selected_total, toggle_at,
};
use crate::ui::selected_count;
use crate::ytdlp::{FlatPlaylist, TrackModel, playlist_tracks};

verus! {

/// The seconds one item adds to the selected total.
pub open spec fn item_seconds(it: ItemModel) -> int {
    if it.selected {
        match it.track.duration {
            Some(d) => d as int,
            None => 0,
        }
    } else {
        0
    }
}

proof fn lemma_split_last<A>(a: Seq<A>, b: Seq<A>)
    requires
        b.len() > 0,
    ensures
        (a + b).drop_last() == a + b.drop_last(),
        (a + b).last() == b.last(),
{
    assert((a + b).drop_last() =~= a + b.drop_last());
}

proof fn lemma_single<A>(x: A)
    ensures
        seq![x].drop_last() == Seq::<A>::empty(),
        seq![x].last() == x,
{
    assert(seq![x].drop_last() =~= Seq::<A>::empty());
}

/// The burn list of two runs of items is the burn list of the first
/// followed by that of the second: no item hides another.
pub proof fn law_downloaded_concat(a: Seq<ItemModel>, b: Seq<ItemModel>)
    ensures
        downloaded(a + b) == downloaded(a) + downloaded(b),
    decreases b.len(),
{
    if b.len() == 0 {
        assert(a + b =~= a);
        assert(downloaded(a) + downloaded(b) =~= downloaded(a));
    } else {
        lemma_split_last(a, b);
        law_downloaded_concat(a, b.drop_last());
        let rest = downloaded(a) + downloaded(b.drop_last());
        assert(rest.push(b.last().status->Downloaded_0) =~= downloaded(a) + downloaded(
            b.drop_last(),
        ).push(b.last().status->Downloaded_0));
    }
}

/// One item is on the burn list exactly when it is selected and
/// downloaded, with its file.
pub proof fn law_downloaded_single(it: ItemModel)
    ensures
        downloaded(seq![it]) == match it.status {
            StatusModel::Downloaded(p) => if it.selected {
                seq![p]
            } else {
                Seq::empty()
            },
            _ => Seq::empty(),
        },
{
    lemma_single(it);
    assert(downloaded(Seq::<ItemModel>::empty()) == Seq::<Seq<char>>::empty());
    assert(downloaded(seq![it]) == {
        let rest = downloaded(Seq::<ItemModel>::empty());
        match it.status {
            StatusModel::Downloaded(p) => if it.selected { rest.push(p) } else { rest },
            _ => rest,
        }
    });
    assert(Seq::<Seq<char>>::empty().push(it.status->Downloaded_0) =~= seq![
        it.status->Downloaded_0
    ]);
}

/// Every selected item that downloaded contributes its file to the burn
/// list, between the files of the items before it and those after it.
pub proof fn law_downloaded_includes_every_selected_download(items: Seq<ItemModel>, i: int, p: Seq<char>)
    requires
        0 <= i < items.len(),
        items[i].selected,
        items[i].status == StatusModel::Downloaded(p),
    ensures
        downloaded(items) == downloaded(items.take(i)) + seq![p] + downloaded(items.skip(i + 1)),
{
    assert(items =~= items.take(i) + seq![items[i]] + items.skip(i + 1));
    law_downloaded_concat(items.take(i) + seq![items[i]], items.skip(i + 1));
    law_downloaded_concat(items.take(i), seq![items[i]]);
    law_downloaded_single(items[i]);
}

/// The selected total of two runs of items is the sum of their totals.
pub proof fn law_selected_total_concat(a: Seq<ItemModel>, b: Seq<ItemModel>)
    ensures
        selected_total(a + b) == selected_total(a) + selected_total(b),
    decreases b.len(),
{
    if b.len() == 0 {
        assert(a + b =~= a);
    } else {
        lemma_split_last(a, b);
        law_selected_total_concat(a, b.drop_last());
    }
}

/// One item adds its known duration exactly when it is selected.
pub proof fn law_selected_total_single(it: ItemModel)
    ensures
        selected_total(seq![it]) == item_seconds(it),
{
    lemma_single(it);
    assert(selected_total(Seq::<ItemModel>::empty()) == 0);
    assert(selected_total(seq![it]) == selected_total(Seq::<ItemModel>::empty()) + item_seconds(it));
}

/// The selected total is the sum over the items, each counted on its own.
pub proof fn law_selected_total_split_at(items: Seq<ItemModel>, i: int)
    requires
        0 <= i < items.len(),
    ensures
        selected_total(items) == selected_total(items.take(i)) + item_seconds(items[i])
            + selected_total(items.skip(i + 1)),
{
    assert(items =~= items.take(i) + seq![items[i]] + items.skip(i + 1));
    law_selected_total_concat(items.take(i) + seq![items[i]], items.skip(i + 1));
    law_selected_total_concat(items.take(i), seq![items[i]]);
    law_selected_total_single(items[i]);
}

/// Toggling one item changes the selected total by exactly that item's
/// known duration, up when it becomes selected, down when it stops being so.
pub proof fn law_toggle_changes_total_by_item(items: Seq<ItemModel>, i: int)
    requires
        0 <= i < items.len(),
    ensures
        selected_total(toggle_at(items, i)) == selected_total(items) + if items[i].selected {
            -item_seconds(items[i])
        } else {
            item_seconds(ItemModel { selected: true, ..items[i] })
        },
{
    let t = toggle_at(items, i);
    law_selected_total_split_at(items, i);
    law_selected_total_split_at(t, i);
    assert(t.take(i) =~= items.take(i));
    assert(t.skip(i + 1) =~= items.skip(i + 1));
}

/// The selected count of two runs of items is the sum of their counts.
pub proof fn law_selected_count_concat(a: Seq<ItemModel>, b: Seq<ItemModel>)
    ensures
        selected_count(a + b) == selected_count(a) + selected_count(b),
    decreases b.len(),
{
    if b.len() == 0 {
        assert(a + b =~= a);
    } else {
        lemma_split_last(a, b);
        law_selected_count_concat(a, b.drop_last());
    }
}

/// One item counts once exactly when it is selected.
pub proof fn law_selected_count_single(it: ItemModel)
    ensures
        selected_count(seq![it]) == if it.selected {
            1nat
        } else {
            0nat
        },
{
    lemma_single(it);
    assert(selected_count(Seq::<ItemModel>::empty()) == 0);
    assert(selected_count(seq![it]) == selected_count(Seq::<ItemModel>::empty()) + if it.selected { 1nat } else { 0nat });
}

/// Toggling a selected item lowers the count by one; toggling an
/// unselected one raises it by one.
pub proof fn law_toggle_changes_count_by_one(items: Seq<ItemModel>, i: int)
    requires
        0 <= i < items.len(),
    ensures
        selected_count(toggle_at(items, i)) == if items[i].selected {
            selected_count(items) - 1
        } else {
            selected_count(items) + 1int
        },
{
    let t = toggle_at(items, i);
    assert(items =~= items.take(i) + seq![items[i]] + items.skip(i + 1));
    assert(t =~= t.take(i) + seq![t[i]] + t.skip(i + 1));
    law_selected_count_concat(items.take(i) + seq![items[i]], items.skip(i + 1));
    law_selected_count_concat(items.take(i), seq![items[i]]);
    law_selected_count_concat(t.take(i) + seq![t[i]], t.skip(i + 1));
    law_selected_count_concat(t.take(i), seq![t[i]]);
    law_selected_count_single(items[i]);
    law_selected_count_single(t[i]);
    assert(t.take(i) =~= items.take(i));
    assert(t.skip(i + 1) =~= items.skip(i + 1));
}

/// With nothing selected the count is zero; with everything selected it
/// is the number of items.
pub proof fn law_selected_count_extremes(items: Seq<ItemModel>)
    ensures
        selected_count(select_all(items, false)) == 0,
        selected_count(select_all(items, true)) == items.len(),
    decreases items.len(),
{
    if items.len() > 0 {
        law_selected_count_extremes(items.drop_last());
        assert(select_all(items, false).drop_last() =~= select_all(items.drop_last(), false));
        assert(select_all(items, true).drop_last() =~= select_all(items.drop_last(), true));
    }
}

/// The download jobs of two runs of items: those of the first, then those
/// of the second with their positions moved past the first run.
pub proof fn law_selected_jobs_concat(a: Seq<ItemModel>, b: Seq<ItemModel>)
    ensures
        selected_jobs(a + b) == selected_jobs(a) + selected_jobs(b).map_values(
            |j: (int, TrackModel)| (j.0 + a.len(), j.1),
        ),
    decreases b.len(),
{
    let f = |j: (int, TrackModel)| (j.0 + a.len(), j.1);
    if b.len() == 0 {
        assert(a + b =~= a);
        assert(selected_jobs(a) + selected_jobs(b).map_values(f) =~= selected_jobs(a));
    } else {
        lemma_split_last(a, b);
        law_selected_jobs_concat(a, b.drop_last());
        let jb = selected_jobs(b.drop_last());
        if b.last().selected {
            assert(selected_jobs(b) == jb.push((b.len() - 1, b.last().track)));
            assert(selected_jobs(b).map_values(f) =~= jb.map_values(f).push(
                ((a + b).len() - 1, b.last().track),
            ));
            assert(selected_jobs(a + b) =~= selected_jobs(a) + selected_jobs(b).map_values(f));
        } else {
            assert(selected_jobs(b).map_values(f) =~= jb.map_values(f));
        }
    }
}

/// One item is a job, at its position, exactly when it is selected.
pub proof fn law_selected_jobs_single(it: ItemModel)
    ensures
        selected_jobs(seq![it]) == if it.selected {
            seq![(0int, it.track)]
        } else {
            Seq::empty()
        },
{
    lemma_single(it);
    assert(selected_jobs(Seq::<ItemModel>::empty()) == Seq::<(int, TrackModel)>::empty());
    assert(selected_jobs(seq![it]) == if it.selected {
        selected_jobs(Seq::<ItemModel>::empty()).push((0int, it.track))
    } else {
        selected_jobs(Seq::<ItemModel>::empty())
    });
    assert(Seq::<(int, TrackModel)>::empty().push((0int, it.track)) =~= seq![(0int, it.track)]);
}

/// Every selected item is downloaded, as a job that carries its position
/// and its track.
pub proof fn law_selected_jobs_include_every_selected(items: Seq<ItemModel>, i: int)
    requires
        0 <= i < items.len(),
        items[i].selected,
    ensures
        selected_jobs(items).contains((i, items[i].track)),
{
    let a = items.take(i);
    let b = seq![items[i]] + items.skip(i + 1);
    assert(items =~= a + b);
    law_selected_jobs_concat(a, b);
    law_selected_jobs_concat(seq![items[i]], items.skip(i + 1));
    law_selected_jobs_single(items[i]);
    let jb = selected_jobs(b);
    assert(jb[0] == (0int, items[i].track));
    let k = selected_jobs(a).len() as int;
    assert(selected_jobs(items)[k] == (i, items[i].track));
}

/// A lone video keeps its id, its reported title and its duration; only a
/// missing title becomes `(untitled)`.
pub proof fn law_lone_video_track(p: FlatPlaylist)
    requires
        p.entries is None,
        p.id is Some,
    ensures
        playlist_tracks(p) is Ok,
        playlist_tracks(p)->Ok_0.len() == 1,
        playlist_tracks(p)->Ok_0[0].id == p.id->Some_0@,
        playlist_tracks(p)->Ok_0[0].duration == p.duration,
        p.title matches Some(t) ==> playlist_tracks(p)->Ok_0[0].title == t@,
        p.title is None ==> playlist_tracks(p)->Ok_0[0].title == "(untitled)"@,
{
}

/// A playlist yields one track per entry, in order, each with the entry's
/// id, duration and reported title (`(untitled)` only when none is given).
pub proof fn law_playlist_entries_tracks(p: FlatPlaylist, i: int)
    requires
        p.entries matches Some(es) && es@.len() > 0,
    ensures
        playlist_tracks(p) is Ok,
        playlist_tracks(p)->Ok_0.len() == p.entries->Some_0@.len(),
        0 <= i < p.entries->Some_0@.len() ==> {
            let e = p.entries->Some_0@[i];
            let t = playlist_tracks(p)->Ok_0[i];
            &&& t.id == e.id@
            &&& t.duration == e.duration
            &&& (e.title matches Some(x) ==> t.title == x@)
            &&& (e.title is None ==> t.title == "(untitled)"@)
        },
{
}


/// Draining one report applies exactly that report.
pub proof fn law_apply_msgs_single(m: crate::app::AppModel, msg: crate::app::MsgModel)
    ensures
        crate::app::apply_msgs(m, seq![msg]) == crate::app::apply_msg(m, msg),
{
    lemma_single(msg);
    assert(crate::app::apply_msgs(m, Seq::<crate::app::MsgModel>::empty()) == m);
}
} // verus!
