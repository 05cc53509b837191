//! What each key does on each screen, stated field by field.

use vstd::prelude::*;
use crate::app::{
    ActionModel, AppModel, ItemModel, Key, Screen, StatusModel, downloaded, key_action, key_state,
    log_after, selected_jobs,
};
use crate::text::{decimal, trim};

verus! {

/// `r` is `m` with only the error cleared.
pub open spec fn only_error_cleared(m: AppModel, r: AppModel) -> bool {
    r == AppModel { error: None, ..m }
}

/// `r` keeps the track list, the URL, the log, the busy flag and the
/// download directory of `m`.
pub open spec fn keeps_content(m: AppModel, r: AppModel) -> bool {
    &&& r.tracks == m.tracks
    &&& r.url_input == m.url_input
    &&& r.log == m.log
    &&& r.busy == m.busy
    &&& r.out_dir == m.out_dir
}

/// A key press never leaves an error behind, except the refusal to
/// download an empty selection or to burn with nothing downloaded.
pub proof fn law_keys_clear_error(m: AppModel, k: Key)
    ensures
        key_state(m, k).error is Some ==> {
            &&& m.screen == Screen::TrackList
            &&& !m.busy
            &&& (k == Key::Char('d') && selected_jobs(m.tracks).len() == 0 && key_state(m, k).error
                == Some("no tracks selected"@)) || (k == Key::Char('b') && downloaded(m.tracks).len()
                == 0 && key_state(m, k).error == Some("no downloaded tracks to burn yet"@))
        },
{
}

/// On the URL screen: Esc quits; a character is appended to the URL;
/// Backspace removes the last one; Enter starts a fetch of the trimmed URL
/// when there is one and nothing runs; other keys do nothing.
pub proof fn law_url_screen_keys(m: AppModel, k: Key)
    requires
        m.screen == Screen::UrlInput,
    ensures
        k == Key::Esc ==> key_state(m, k).should_quit && key_state(m, k).screen == Screen::UrlInput
            && keeps_content(m, key_state(m, k)),
        k matches Key::Char(c) ==> key_state(m, k) == (AppModel {
            url_input: m.url_input.push(c),
            error: None,
            ..m
        }),
        k == Key::Backspace ==> key_state(m, k) == (AppModel {
            url_input: if m.url_input.len() > 0 {
                m.url_input.drop_last()
            } else {
                m.url_input
            },
            error: None,
            ..m
        }),
        k == Key::Enter && trim(m.url_input).len() > 0 && !m.busy ==> {
            &&& key_action(m, k) == ActionModel::Fetch(trim(m.url_input))
            &&& key_state(m, k).busy
            &&& key_state(m, k).screen == Screen::UrlInput
            &&& key_state(m, k).tracks == m.tracks
            &&& key_state(m, k).log == seq!["Fetching playlist metadata for: "@ + trim(m.url_input)]
        },
        k == Key::Enter && (trim(m.url_input).len() == 0 || m.busy) ==> only_error_cleared(
            m,
            key_state(m, k),
        ) && key_action(m, k) == ActionModel::Nothing,
        k == Key::Up || k == Key::Down || k == Key::Other ==> only_error_cleared(
            m,
            key_state(m, k),
        ),
        !(k == Key::Enter) ==> key_action(m, k) == ActionModel::Nothing,
{
    if k == Key::Enter && trim(m.url_input).len() > 0 && !m.busy {
        assert(log_after(Seq::empty(), "Fetching playlist metadata for: "@ + trim(m.url_input))
            =~= seq!["Fetching playlist metadata for: "@ + trim(m.url_input)]);
    }
}

/// On the track list: Esc goes back to the URL screen without quitting;
/// Up and Down move the cursor within the list; Space flips the selection
/// of the track under the cursor and of no other; `a` and `n` select all
/// and none; no key on this screen quits.
pub proof fn law_track_list_navigation(m: AppModel, k: Key)
    requires
        m.screen == Screen::TrackList,
    ensures
        key_state(m, k).should_quit == m.should_quit,
        k == Key::Esc ==> key_state(m, k).screen == Screen::UrlInput && keeps_content(
            m,
            key_state(m, k),
        ) && key_state(m, k).cursor == m.cursor,
        k == Key::Up ==> key_state(m, k) == (AppModel {
            cursor: if m.cursor > 0 {
                m.cursor - 1
            } else {
                m.cursor
            },
            error: None,
            ..m
        }),
        k == Key::Down ==> key_state(m, k) == (AppModel {
            cursor: if m.cursor + 1 < m.tracks.len() {
                m.cursor + 1
            } else {
                m.cursor
            },
            error: None,
            ..m
        }),
        k == Key::Char(' ') && 0 <= m.cursor < m.tracks.len() ==> {
            let r = key_state(m, k);
            &&& r.tracks.len() == m.tracks.len()
            &&& r.tracks[m.cursor].selected == !m.tracks[m.cursor].selected
            &&& r.tracks[m.cursor].track == m.tracks[m.cursor].track
            &&& r.tracks[m.cursor].status == m.tracks[m.cursor].status
            &&& forall|i: int|
                0 <= i < m.tracks.len() && i != m.cursor ==> #[trigger] r.tracks[i] == m.tracks[i]
            &&& r.screen == m.screen && r.cursor == m.cursor && r.log == m.log && r.busy == m.busy
        },
        k == Key::Char('a') || k == Key::Char('n') ==> {
            let r = key_state(m, k);
            &&& r.tracks.len() == m.tracks.len()
            &&& forall|i: int|
                0 <= i < m.tracks.len() ==> #[trigger] r.tracks[i] == (ItemModel {
                    selected: k == Key::Char('a'),
                    ..m.tracks[i]
                })
            &&& r.screen == m.screen && r.cursor == m.cursor && r.log == m.log && r.busy == m.busy
        },
        k == Key::Enter || k == Key::Backspace || k == Key::Other ==> only_error_cleared(
            m,
            key_state(m, k),
        ),
{
}

/// On the track list, `d` starts downloading the selection when nothing
/// runs and something is selected: every selected track (and only those)
/// becomes a job and is marked as downloading; `b` hands over the
/// downloaded files, changing nothing until the recorder check. While busy
/// neither does anything.
pub proof fn law_track_list_jobs(m: AppModel)
    requires
        m.screen == Screen::TrackList,
    ensures
        ({
            let r = key_state(m, Key::Char('d'));
            !m.busy && selected_jobs(m.tracks).len() > 0 ==> {
                &&& key_action(m, Key::Char('d')) == ActionModel::Download(selected_jobs(m.tracks))
                &&& r.busy && r.screen == Screen::Working && r.error is None
                &&& r.log == seq![
                    "Downloading "@ + decimal(selected_jobs(m.tracks).len()) + " track(s) to "@
                        + m.out_dir,
                ]
                &&& r.tracks.len() == m.tracks.len()
                &&& forall|i: int|
                    0 <= i < m.tracks.len() ==> (#[trigger] r.tracks[i]).selected
                        == m.tracks[i].selected && r.tracks[i].track == m.tracks[i].track && (
                    if m.tracks[i].selected {
                        r.tracks[i].status == StatusModel::Downloading
                    } else {
                        r.tracks[i].status == m.tracks[i].status
                    })
            }
        }),
        m.busy ==> only_error_cleared(m, key_state(m, Key::Char('d'))) && only_error_cleared(
            m,
            key_state(m, Key::Char('b')),
        ),
        !m.busy && downloaded(m.tracks).len() > 0 ==> only_error_cleared(
            m,
            key_state(m, Key::Char('b')),
        ) && key_action(m, Key::Char('b')) == ActionModel::Burn(downloaded(m.tracks)),
{
    if !m.busy && selected_jobs(m.tracks).len() > 0 {
        let line = "Downloading "@ + decimal(selected_jobs(m.tracks).len()) + " track(s) to "@
            + m.out_dir;
        assert(log_after(Seq::empty(), line) =~= seq![line]);
    }
}

/// While a job runs on the working screen, keys only clear the error.
pub proof fn law_working_screen_ignores_keys(m: AppModel, k: Key)
    requires
        m.screen == Screen::Working,
    ensures
        only_error_cleared(m, key_state(m, k)),
        key_action(m, k) == ActionModel::Nothing,
{
}

/// On the final screen `q` quits and `n` starts over with an empty URL,
/// track list and log; other keys only clear the error.
pub proof fn law_done_screen_keys(m: AppModel, k: Key)
    requires
        m.screen == Screen::Done,
    ensures
        k == Key::Char('q') ==> key_state(m, k).should_quit && keeps_content(m, key_state(m, k)),
        k == Key::Char('n') ==> {
            let r = key_state(m, k);
            &&& r.screen == Screen::UrlInput
            &&& r.url_input.len() == 0 && r.tracks.len() == 0 && r.log.len() == 0
            &&& r.should_quit == m.should_quit && r.busy == m.busy && r.out_dir == m.out_dir
        },
        k != Key::Char('q') && k != Key::Char('n') ==> only_error_cleared(m, key_state(m, k)),
        key_action(m, k) == ActionModel::Nothing,
{
}

} // verus!
