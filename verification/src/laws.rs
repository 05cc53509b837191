//! Properties that hold across the library's operations.

use vstd::prelude::*;
use crate::app::{
    ActionModel, AppModel, apply_msgs, ItemModel, Key, LOG_LIMIT, MsgModel, Screen, StatusModel, after_burn_check,
    apply_msg, downloaded, fresh_items, key_action, key_state, select_all, selected_jobs,
    selected_total,
};
use crate::burn::linux::cdtext;
use crate::burn::{file_name, lemma_after_last, name_extension, path_extension, strip_tail};
use crate::burn::windows::{is_pcm_le, sample_bits};
use crate::text::{is_space, replace_char, take_chars, trim, trim_end, trim_start};
use crate::ui::truncated;
use crate::ytdlp::{FlatPlaylist, is_safe_file_char, playlist_tracks, sanitized};

verus! {

/// A state whose log holds at most [`LOG_LIMIT`] lines.
pub open spec fn log_bounded(m: AppModel) -> bool {
    m.log.len() <= LOG_LIMIT
}

/// A state whose cursor points at a track, unless there are none.
pub open spec fn cursor_valid(m: AppModel) -> bool {
    m.tracks.len() == 0 || (0 <= m.cursor < m.tracks.len())
}

/// The log never grows beyond [`LOG_LIMIT`] lines, whatever a worker
/// reports.
pub proof fn law_log_bounded_by_reports(m: AppModel, msg: MsgModel)
    requires
        log_bounded(m),
    ensures
        log_bounded(apply_msg(m, msg)),
{
}

/// The log never grows beyond [`LOG_LIMIT`] lines, whatever key is pressed.
pub proof fn law_log_bounded_by_keys(m: AppModel, k: Key)
    requires
        log_bounded(m),
    ensures
        log_bounded(key_state(m, k)),
{
}

/// The log never grows beyond [`LOG_LIMIT`] lines when a burn begins or is
/// refused.
pub proof fn law_log_bounded_by_burn_check(m: AppModel, count: nat, present: bool)
    requires
        log_bounded(m),
    ensures
        log_bounded(after_burn_check(m, count, present)),
{
}

/// The cursor keeps pointing at a track (or there are none), whatever a
/// worker reports.
pub proof fn law_cursor_valid_after_reports(m: AppModel, msg: MsgModel)
    requires
        cursor_valid(m),
    ensures
        cursor_valid(apply_msg(m, msg)),
{
}

/// The cursor keeps pointing at a track (or there are none), whatever key
/// is pressed.
pub proof fn law_cursor_valid_after_keys(m: AppModel, k: Key)
    requires
        cursor_valid(m),
    ensures
        cursor_valid(key_state(m, k)),
{
}

/// Toggling the track under the cursor twice restores the selection; only
/// the error has cleared.
pub proof fn law_toggle_twice_restores(m: AppModel)
    requires
        m.screen == Screen::TrackList,
    ensures
        key_state(key_state(m, Key::Char(' ')), Key::Char(' ')) == (AppModel { error: None, ..m }),
{
    let m1 = key_state(m, Key::Char(' '));
    let m2 = key_state(m1, Key::Char(' '));
    if 0 <= m.cursor < m.tracks.len() {
        assert(m2.tracks =~= m.tracks);
    }
    assert(m2 =~= (AppModel { error: None, ..m }));
}

/// Seconds of every track whose duration is known.
pub open spec fn known_total(items: Seq<ItemModel>) -> int
    decreases items.len(),
{
    if items.len() == 0 {
        0
    } else {
        known_total(items.drop_last()) + match items.last().track.duration {
            Some(d) => d as int,
            None => 0,
        }
    }
}

/// With everything selected, the selected total is the total of all
/// known durations.
pub proof fn law_select_all_counts_everything(items: Seq<ItemModel>)
    ensures
        selected_total(select_all(items, true)) == known_total(items),
    decreases items.len(),
{
    if items.len() > 0 {
        law_select_all_counts_everything(items.drop_last());
        assert(select_all(items, true).drop_last() =~= select_all(items.drop_last(), true));
    }
}

/// With nothing selected, the selected total is zero and nothing is left
/// to burn or download.
pub proof fn law_select_none_leaves_nothing(items: Seq<ItemModel>)
    ensures
        selected_total(select_all(items, false)) == 0,
        downloaded(select_all(items, false)).len() == 0,
        selected_jobs(select_all(items, false)).len() == 0,
    decreases items.len(),
{
    if items.len() > 0 {
        law_select_none_leaves_nothing(items.drop_last());
        assert(select_all(items, false).drop_last() =~= select_all(items.drop_last(), false));
    }
}

/// While a job runs, no key starts another one.
pub proof fn law_busy_starts_nothing(m: AppModel, k: Key)
    requires
        m.busy,
    ensures
        key_action(m, k) == ActionModel::Nothing,
{
}

/// A key that starts a job leaves the tool busy with it (a burn still
/// waits for the recorder check).
pub proof fn law_started_job_marks_busy(m: AppModel, k: Key)
    requires
        key_action(m, k) is Fetch || key_action(m, k) is Download,
    ensures
        key_state(m, k).busy,
{
}

/// The reports that end a job clear the busy flag.
pub proof fn law_finishing_reports_clear_busy(m: AppModel, msg: MsgModel)
    requires
        msg is FetchDone || msg is DownloadBatchDone || msg is BurnDone,
    ensures
        !apply_msg(m, msg).busy,
{
}

/// A successful listing selects every track for download, in order.
pub proof fn law_fetched_tracks_all_selected(m: AppModel, ts: Seq<crate::ytdlp::TrackModel>)
    ensures
        selected_jobs(apply_msg(m, MsgModel::FetchDone(Ok(ts))).tracks).len() == ts.len(),
        forall|i: int|
            0 <= i < ts.len() ==> #[trigger] selected_jobs(
                apply_msg(m, MsgModel::FetchDone(Ok(ts))).tracks,
            )[i] == (i, ts[i]),
{
    lemma_jobs_of_fresh(ts);
}

proof fn lemma_jobs_of_fresh(ts: Seq<crate::ytdlp::TrackModel>)
    ensures
        selected_jobs(fresh_items(ts)).len() == ts.len(),
        forall|i: int|
            0 <= i < ts.len() ==> #[trigger] selected_jobs(fresh_items(ts))[i] == (i, ts[i]),
    decreases ts.len(),
{
    if ts.len() > 0 {
        lemma_jobs_of_fresh(ts.drop_last());
        assert(fresh_items(ts).drop_last() =~= fresh_items(ts.drop_last()));
        let j = selected_jobs(fresh_items(ts));
        assert forall|i: int| 0 <= i < ts.len() implies #[trigger] j[i] == (i, ts[i]) by {
            if i < ts.len() - 1 {
                assert(j[i] == selected_jobs(fresh_items(ts.drop_last()))[i]);
            }
        }
    }
}

/// Every file offered for burning belongs to a selected track that
/// downloaded to it.
pub proof fn law_burned_files_are_selected_downloads(items: Seq<ItemModel>, k: int)
    requires
        0 <= k < downloaded(items).len(),
    ensures
        exists|i: int|
            0 <= i < items.len() && #[trigger] items[i].selected && items[i].status
                == StatusModel::Downloaded(downloaded(items)[k]),
    decreases items.len(),
{
    let rest = downloaded(items.drop_last());
    if k < rest.len() {
        law_burned_files_are_selected_downloads(items.drop_last(), k);
        let i = choose|i: int|
            0 <= i < items.drop_last().len() && #[trigger] items.drop_last()[i].selected
                && items.drop_last()[i].status == StatusModel::Downloaded(rest[k]);
        assert(items[i] == items.drop_last()[i]);
    } else {
        let i = items.len() - 1;
        assert(items[i].selected);
    }
}

/// A listing that yields tracks yields at least one.
pub proof fn law_listing_never_empty(p: FlatPlaylist)
    ensures
        playlist_tracks(p) matches Ok(ts) ==> ts.len() > 0,
{
}

/// A sanitized id keeps its length and holds only file-safe characters.
pub proof fn law_sanitized_is_safe(id: Seq<char>)
    ensures
        sanitized(id).len() == id.len(),
        forall|i: int| 0 <= i < id.len() ==> is_safe_file_char(#[trigger] sanitized(id)[i]),
{
}

/// Sanitizing twice changes nothing more.
pub proof fn law_sanitize_idempotent(id: Seq<char>)
    ensures
        sanitized(sanitized(id)) == sanitized(id),
{
    assert(sanitized(sanitized(id)) =~= sanitized(id));
}

/// A CD-Text field is at most 162 characters, quoted, with no double
/// quote inside.
pub proof fn law_cdtext_bounded_and_quoted(s: Seq<char>)
    ensures
        cdtext(s).len() <= 162,
        cdtext(s)[0] == '"',
        cdtext(s).last() == '"',
        forall|i: int| 0 < i < cdtext(s).len() - 1 ==> #[trigger] cdtext(s)[i] != '"',
{
    let inner = replace_char(take_chars(s, 160), '"', '\'');
    assert forall|i: int| 0 < i < cdtext(s).len() - 1 implies #[trigger] cdtext(s)[i] != '"' by {
        assert(cdtext(s)[i] == inner[i - 1]);
    }
}

/// A truncated text is never longer than the limit (for a limit of at
/// least one), and is the text itself when it fits.
pub proof fn law_truncated_fits(s: Seq<char>, max: nat)
    requires
        max >= 1,
    ensures
        truncated(s, max).len() <= max,
        s.len() <= max ==> truncated(s, max) == s,
{
}

proof fn lemma_trim_start_props(s: Seq<char>)
    ensures
        trim_start(s).len() > 0 ==> !is_space(trim_start(s)[0]),
        trim_start(s).len() <= s.len(),
        trim_start(s) == s.skip(s.len() - trim_start(s).len()),
    decreases s.len(),
{
    if s.len() > 0 && is_space(s[0]) {
        lemma_trim_start_props(s.drop_first());
        assert(s.drop_first().skip(s.drop_first().len() - trim_start(s).len()) =~= s.skip(
            s.len() - trim_start(s).len(),
        ));
    } else {
        assert(s.skip(0) =~= s);
    }
}

proof fn lemma_trim_end_props(s: Seq<char>)
    ensures
        trim_end(s).len() > 0 ==> !is_space(trim_end(s).last()),
        trim_end(s).len() <= s.len(),
        trim_end(s) == s.take(trim_end(s).len() as int),
    decreases s.len(),
{
    if s.len() > 0 && is_space(s.last()) {
        lemma_trim_end_props(s.drop_last());
        assert(s.drop_last().take(trim_end(s).len() as int) =~= s.take(trim_end(s).len() as int));
    } else {
        assert(s.take(s.len() as int) =~= s);
    }
}

proof fn lemma_trim_end_keeps_head(s: Seq<char>)
    requires
        s.len() > 0,
        !is_space(s[0]),
    ensures
        trim_end(s).len() > 0,
    decreases s.len(),
{
    if is_space(s.last()) {
        assert(s.len() > 1);
        lemma_trim_end_keeps_head(s.drop_last());
    }
}

/// A trimmed text neither starts nor ends with whitespace, and trimming it
/// again changes nothing.
pub proof fn law_trim_clean_and_idempotent(s: Seq<char>)
    ensures
        trim(s).len() > 0 ==> !is_space(trim(s)[0]) && !is_space(trim(s).last()),
        trim(trim(s)) == trim(s),
{
    let a = trim_start(s);
    lemma_trim_start_props(s);
    lemma_trim_end_props(a);
    let t = trim_end(a);
    if t.len() > 0 {
        assert(t[0] == a[0]);
    }
    // trimming again
    if t.len() > 0 {
        assert(trim_start(t) == t);
        assert(trim_end(t) == t);
    } else {
        assert(trim_start(t) =~= t);
        assert(trim_end(trim_start(t)) =~= t);
    }
}

/// The two bytes written for a sample decode back to that sample.
pub proof fn law_pcm_bytes_decode(samples: Seq<i16>, bytes: Seq<u8>, i: int)
    requires
        is_pcm_le(samples, bytes),
        0 <= i < samples.len(),
    ensures
        ({
            let u = bytes[2 * i] + 256 * bytes[2 * i + 1];
            (if u >= 32768 { u - 65536 } else { u }) == samples[i] as int
        }),
{
    let s = samples[i];
    let u = sample_bits(s);
    assert(bytes[2 * i] == u % 256);
    assert(bytes[2 * i + 1] == u / 256);
    assert(u % 256 + 256 * (u / 256) == u);
}


/// Applying reports over several ticks gives the same state as applying
/// them all at once.
pub proof fn law_polling_in_pieces(m: AppModel, a: Seq<MsgModel>, b: Seq<MsgModel>)
    ensures
        apply_msgs(apply_msgs(m, a), b) == apply_msgs(m, a + b),
    decreases b.len(),
{
    if b.len() == 0 {
        assert(a + b =~= a);
    } else {
        law_polling_in_pieces(m, a, b.drop_last());
        assert((a + b).drop_last() =~= a + b.drop_last());
        assert((a + b).last() == b.last());
    }
}

/// The file a download lands in (`<safe id>.wav`, in any directory) is
/// accepted as a WAV path, whatever the id.
pub proof fn law_downloaded_wav_names_accepted(dir: Seq<char>, id: Seq<char>)
    requires
        id.len() > 0,
    ensures
        path_extension(dir + seq!['/'] + sanitized(id) + ".wav"@) == Some("wav"@),
{
    reveal_strlit(".wav");
    reveal_strlit("wav");
    let name = sanitized(id) + ".wav"@;
    let p = dir + seq!['/'] + name;
    assert(p.last() == 'v');
    assert(strip_tail(p) == p);
    let k: int = dir.len() as int + 1;
    assert forall|i: int| k <= i < p.len() implies p[i] != '/' by {
        let j = i - k;
        assert(p[i] == name[j]);
        if j < id.len() {
            assert(name[j] == sanitized(id)[j]);
        }
    }
    assert(p[k - 1] == '/');
    lemma_after_last(p, '/', k, p.len() as int);
    assert(p.take(p.len() as int) =~= p);
    assert(p.subrange(k, p.len() as int) =~= name);
    assert(name.len() >= 5);
    assert(name != seq!['.', '.']);
    let d: int = name.len() - 3;
    assert(name[d - 1] == '.');
    assert forall|i: int| d <= i < name.len() implies name[i] != '.' by {}
    lemma_after_last(name, '.', d, name.len() as int);
    assert(name.take(name.len() as int) =~= name);
    assert(name.subrange(d, name.len() as int) =~= "wav"@);
    assert(file_name(p) == Some(name));
    assert(name_extension(name) == Some("wav"@));
    assert(dir + seq!['/'] + sanitized(id) + ".wav"@ =~= p);
}
} // verus!
