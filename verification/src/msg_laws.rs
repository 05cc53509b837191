//! What each worker report and the recorder check do, stated field by
//! field, and how the log keeps its newest lines.

use vstd::prelude::*;
use crate::app::{
    AppModel, ItemModel, LOG_LIMIT, MsgModel, Screen, StatusModel, after_burn_check, apply_msg,
    log_after,
};
use crate::text::decimal;
use crate::ytdlp::TrackModel;

verus! {

/// Logging a line keeps the newest lines in order: the result ends with
/// the line, holds one more line than before up to [`LOG_LIMIT`], and is the
/// old log with the line added, minus the oldest line when over the limit.
pub proof fn law_log_keeps_newest(log: Seq<Seq<char>>, line: Seq<char>)
    requires
        log.len() <= LOG_LIMIT,
    ensures
        log_after(log, line).last() == line,
        log_after(log, line).len() == if log.len() < LOG_LIMIT {
            log.len() + 1int
        } else {
            LOG_LIMIT as int
        },
        forall|i: int|
            0 <= i < log_after(log, line).len() - 1 ==> #[trigger] log_after(log, line)[i] == log[i
                + log.len() + 1 - log_after(log, line).len()],
{
}

/// Everything a report leaves alone: the URL, the download directory, and
/// whether the tool quits.
pub proof fn law_reports_keep_input(m: AppModel, msg: MsgModel)
    ensures
        apply_msg(m, msg).url_input == m.url_input,
        apply_msg(m, msg).out_dir == m.out_dir,
        apply_msg(m, msg).should_quit == m.should_quit,
{
}

/// A log line from a worker is appended and changes nothing else.
pub proof fn law_log_report(m: AppModel, s: Seq<char>)
    ensures
        apply_msg(m, MsgModel::Log(s)) == (AppModel { log: log_after(m.log, s), ..m }),
{
}

/// A listing replaces the track list with its tracks, in order, all
/// selected and pending, puts the cursor on the first and shows the list;
/// a failed listing shows its error and keeps the screen and tracks.
pub proof fn law_fetch_reports(m: AppModel, ts: Seq<TrackModel>, e: Seq<char>)
    ensures
        ({
            let r = apply_msg(m, MsgModel::FetchDone(Ok(ts)));
            &&& r.tracks.len() == ts.len()
            &&& forall|i: int|
                0 <= i < ts.len() ==> #[trigger] r.tracks[i] == (ItemModel {
                    track: ts[i],
                    selected: true,
                    status: StatusModel::Pending,
                })
            &&& r.cursor == 0 && r.screen == Screen::TrackList && r.error is None && !r.busy
            &&& r.log == m.log
        }),
        ({
            let r = apply_msg(m, MsgModel::FetchDone(Err(e)));
            &&& r.error == Some(e) && !r.busy
            &&& r.screen == m.screen && r.tracks == m.tracks && r.cursor == m.cursor
            &&& r.log == m.log
        }),
{
}

/// A downloaded track is marked with its file; a duration that was
/// unknown becomes the measured one, a known one stays; its selection and
/// every other track stay as they were. A report for a position past the
/// list changes nothing.
pub proof fn law_track_downloaded_report(m: AppModel, i: int, p: Seq<char>, secs: u64)
    ensures
        ({
            let r = apply_msg(m, MsgModel::TrackDownloaded(i, p, secs));
            &&& 0 <= i < m.tracks.len() ==> {
                &&& r.tracks.len() == m.tracks.len()
                &&& r.tracks[i].status == StatusModel::Downloaded(p)
                &&& r.tracks[i].selected == m.tracks[i].selected
                &&& r.tracks[i].track.id == m.tracks[i].track.id
                &&& r.tracks[i].track.title == m.tracks[i].track.title
                &&& r.tracks[i].track.duration == match m.tracks[i].track.duration {
                    Some(d) => Some(d),
                    None => Some(secs),
                }
                &&& forall|j: int|
                    0 <= j < m.tracks.len() && j != i ==> #[trigger] r.tracks[j] == m.tracks[j]
                &&& r == (AppModel { tracks: r.tracks, ..m })
            }
            &&& !(0 <= i < m.tracks.len()) ==> r == m
        }),
{
}

/// A failed track is marked with the reason, which is also logged; its
/// selection, its track and every other track stay as they were.
pub proof fn law_track_failed_report(m: AppModel, i: int, e: Seq<char>)
    ensures
        ({
            let r = apply_msg(m, MsgModel::TrackFailed(i, e));
            &&& r.log == log_after(m.log, "  failed: "@ + e)
            &&& r.busy == m.busy && r.screen == m.screen && r.error == m.error
            &&& r.tracks.len() == m.tracks.len()
            &&& 0 <= i < m.tracks.len() ==> r.tracks[i] == (ItemModel {
                status: StatusModel::Failed(e),
                ..m.tracks[i]
            })
            &&& forall|j: int|
                0 <= j < m.tracks.len() && j != i ==> #[trigger] r.tracks[j] == m.tracks[j]
        }),
{
}

/// The end of a download batch clears busy and says so in the log; the
/// end of a burn clears busy and either shows the final screen or shows
/// and logs the failure.
pub proof fn law_batch_and_burn_reports(m: AppModel, e: Seq<char>)
    ensures
        apply_msg(m, MsgModel::DownloadBatchDone) == (AppModel {
            busy: false,
            log: log_after(m.log, "All downloads finished."@),
            ..m
        }),
        apply_msg(m, MsgModel::BurnDone(Ok(()))) == (AppModel {
            busy: false,
            screen: Screen::Done,
            log: log_after(m.log, "Burn finished successfully."@),
            ..m
        }),
        apply_msg(m, MsgModel::BurnDone(Err(e))) == (AppModel {
            busy: false,
            error: Some(e),
            log: log_after(m.log, "Burn failed: "@ + e),
            ..m
        }),
{
}

/// A burn begins only when the recorder check found one: the tool becomes
/// busy on the working screen and logs how many tracks it burns; otherwise
/// it only shows the error, leaving everything else as it was.
pub proof fn law_burn_check(m: AppModel, count: nat, present: bool)
    ensures
        present ==> after_burn_check(m, count, present) == (AppModel {
            busy: true,
            screen: Screen::Working,
            log: log_after(m.log, "Starting burn of "@ + decimal(count) + " track(s)..."@),
            ..m
        }),
        !present ==> after_burn_check(m, count, present) == (AppModel {
            error: Some(
                "no CD/DVD burner detected \u{2014} plug one in and insert a blank CD-R"@,
            ),
            ..m
        }),
{
}

} // verus!
