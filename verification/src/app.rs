//! The tool's state and everything that changes it: worker reports, key
//! presses, and the starting of fetch, download and burn jobs. The threads
//! that run the jobs live outside the library; they hand their reports back
//! as [`WorkerMsg`] values.

use vstd::prelude::*;
use crate::text::{decimal, pop_char, push_char, push_decimal, strings_view, trim, trimmed};
use crate::ytdlp::{Track, TrackModel, tracks_view};

verus! {

/// The most log lines kept; older ones are dropped first.
pub const LOG_LIMIT: usize = 500;

/// Which screen the tool shows.
#[derive(Debug, Clone, Copy, PartialEq, Eq, Structural)]
pub enum Screen {
    UrlInput,
    TrackList,
    Working,
    Done,
}

/// How far a track has come.
#[derive(Debug)]
pub enum TrackStatus {
    Pending,
    Downloading,
    /// Downloaded to the given file.
    Downloaded(String),
    /// Failed for the given reason.
    Failed(String),
}

/// The abstract value of a [`TrackStatus`].
pub enum StatusModel {
    Pending,
    Downloading,
    Downloaded(Seq<char>),
    Failed(Seq<char>),
}

impl View for TrackStatus {
    type V = StatusModel;

    open spec fn view(&self) -> StatusModel {
        match self {
            TrackStatus::Pending => StatusModel::Pending,
            TrackStatus::Downloading => StatusModel::Downloading,
            TrackStatus::Downloaded(p) => StatusModel::Downloaded(p@),
            TrackStatus::Failed(e) => StatusModel::Failed(e@),
        }
    }
}

/// A playlist entry in the track list.
#[derive(Debug)]
pub struct TrackItem {
    pub track: Track,
    pub selected: bool,
    pub status: TrackStatus,
}

/// The abstract value of a [`TrackItem`].
#[verifier::ext_equal]
pub struct ItemModel {
    pub track: TrackModel,
    pub selected: bool,
    pub status: StatusModel,
}

impl View for TrackItem {
    type V = ItemModel;

    open spec fn view(&self) -> ItemModel {
        ItemModel { track: self.track@, selected: self.selected, status: self.status@ }
    }
}

/// The abstract values of a list of track items.
pub open spec fn items_view(v: Seq<TrackItem>) -> Seq<ItemModel> {
    v.map_values(|t: TrackItem| t@)
}

/// A report from a worker thread.
#[derive(Debug)]
pub enum WorkerMsg {
    /// A line for the log.
    Log(String),
    /// The playlist listing, or why it failed.
    FetchDone(Result<Vec<Track>, String>),
    /// Track `idx` landed in the file, with its measured length in seconds.
    TrackDownloaded(usize, String, u64),
    /// Track `idx` failed for the given reason.
    TrackFailed(usize, String),
    /// Every download job has finished.
    DownloadBatchDone,
    /// The burn finished, or why it failed.
    BurnDone(Result<(), String>),
}

/// The abstract value of a [`WorkerMsg`].
pub enum MsgModel {
    Log(Seq<char>),
    FetchDone(Result<Seq<TrackModel>, Seq<char>>),
    TrackDownloaded(int, Seq<char>, u64),
    TrackFailed(int, Seq<char>),
    DownloadBatchDone,
    BurnDone(Result<(), Seq<char>>),
}

impl View for WorkerMsg {
    type V = MsgModel;

    open spec fn view(&self) -> MsgModel {
        match self {
            WorkerMsg::Log(s) => MsgModel::Log(s@),
            WorkerMsg::FetchDone(Ok(ts)) => MsgModel::FetchDone(Ok(tracks_view(ts@))),
            WorkerMsg::FetchDone(Err(e)) => MsgModel::FetchDone(Err(e@)),
            WorkerMsg::TrackDownloaded(i, p, s) => MsgModel::TrackDownloaded(*i as int, p@, *s),
            WorkerMsg::TrackFailed(i, e) => MsgModel::TrackFailed(*i as int, e@),
            WorkerMsg::DownloadBatchDone => MsgModel::DownloadBatchDone,
            WorkerMsg::BurnDone(Ok(())) => MsgModel::BurnDone(Ok(())),
            WorkerMsg::BurnDone(Err(e)) => MsgModel::BurnDone(Err(e@)),
        }
    }
}

/// The abstract values of a list of reports.
pub open spec fn msgs_view(v: Seq<WorkerMsg>) -> Seq<MsgModel> {
    v.map_values(|m: WorkerMsg| m@)
}

/// The whole state of the tool.
pub struct App {
    pub screen: Screen,
    pub url_input: String,
    pub tracks: Vec<TrackItem>,
    pub cursor: usize,
    pub log: Vec<String>,
    /// Where downloads go, as displayed.
    pub out_dir: String,
    pub should_quit: bool,
    pub busy: bool,
    pub error: Option<String>,
}

/// The abstract value of an [`App`].
#[verifier::ext_equal]
pub struct AppModel {
    pub screen: Screen,
    pub url_input: Seq<char>,
    pub tracks: Seq<ItemModel>,
    pub cursor: int,
    pub log: Seq<Seq<char>>,
    pub out_dir: Seq<char>,
    pub should_quit: bool,
    pub busy: bool,
    pub error: Option<Seq<char>>,
}

/// The abstract value of an optional string.
pub open spec fn opt_str(o: Option<String>) -> Option<Seq<char>> {
    match o {
        Some(s) => Some(s@),
        None => None,
    }
}

impl View for App {
    type V = AppModel;

    open spec fn view(&self) -> AppModel {
        AppModel {
            screen: self.screen,
            url_input: self.url_input@,
            tracks: items_view(self.tracks@),
            cursor: self.cursor as int,
            log: strings_view(self.log@),
            out_dir: self.out_dir@,
            should_quit: self.should_quit,
            busy: self.busy,
            error: opt_str(self.error),
        }
    }
}

/// The log after appending `line`, dropping the oldest line beyond
/// [`LOG_LIMIT`].
pub open spec fn log_after(log: Seq<Seq<char>>, line: Seq<char>) -> Seq<Seq<char>> {
    let l = log.push(line);
    if l.len() > LOG_LIMIT {
        l.drop_first()
    } else {
        l
    }
}

/// `m` with `line` logged.
pub open spec fn with_log(m: AppModel, line: Seq<char>) -> AppModel {
    AppModel { log: log_after(m.log, line), ..m }
}

/// A freshly listed track: selected and pending.
pub open spec fn fresh_item(t: TrackModel) -> ItemModel {
    ItemModel { track: t, selected: true, status: StatusModel::Pending }
}

/// Freshly listed tracks.
pub open spec fn fresh_items(ts: Seq<TrackModel>) -> Seq<ItemModel> {
    ts.map_values(|t: TrackModel| fresh_item(t))
}

/// An item after its download landed in `path`; a duration that was
/// unknown becomes the measured one.
pub open spec fn mark_downloaded(it: ItemModel, path: Seq<char>, secs: u64) -> ItemModel {
    ItemModel {
        status: StatusModel::Downloaded(path),
        track: TrackModel {
            duration: if it.track.duration is None {
                Some(secs)
            } else {
                it.track.duration
            },
            ..it.track
        },
        ..it
    }
}

/// An item whose download failed.
pub open spec fn mark_failed(it: ItemModel, err: Seq<char>) -> ItemModel {
    ItemModel { status: StatusModel::Failed(err), ..it }
}

/// The state after one worker report.
pub open spec fn apply_msg(m: AppModel, msg: MsgModel) -> AppModel {
    match msg {
        MsgModel::Log(s) => with_log(m, s),
        MsgModel::FetchDone(Ok(ts)) => AppModel {
            busy: false,
            tracks: fresh_items(ts),
            cursor: 0,
            screen: Screen::TrackList,
            error: None,
            ..m
        },
        MsgModel::FetchDone(Err(e)) => AppModel { busy: false, error: Some(e), ..m },
        MsgModel::TrackDownloaded(i, p, secs) => if 0 <= i < m.tracks.len() {
            AppModel { tracks: m.tracks.update(i, mark_downloaded(m.tracks[i], p, secs)), ..m }
        } else {
            m
        },
        MsgModel::TrackFailed(i, e) => with_log(
            if 0 <= i < m.tracks.len() {
                AppModel { tracks: m.tracks.update(i, mark_failed(m.tracks[i], e)), ..m }
            } else {
                m
            },
            "  failed: "@ + e,
        ),
        MsgModel::DownloadBatchDone => with_log(
            AppModel { busy: false, ..m },
            "All downloads finished."@,
        ),
        MsgModel::BurnDone(Ok(())) => AppModel {
            screen: Screen::Done,
            ..with_log(AppModel { busy: false, ..m }, "Burn finished successfully."@)
        },
        MsgModel::BurnDone(Err(e)) => with_log(
            AppModel { busy: false, error: Some(e), ..m },
            "Burn failed: "@ + e,
        ),
    }
}

/// The state after a run of worker reports, oldest first.
pub open spec fn apply_msgs(m: AppModel, msgs: Seq<MsgModel>) -> AppModel
    decreases msgs.len(),
{
    if msgs.len() == 0 {
        m
    } else {
        apply_msg(apply_msgs(m, msgs.drop_last()), msgs.last())
    }
}

/// Turns listed tracks into fresh track items.
fn fresh_track_items(tracks: Vec<Track>) -> (items: Vec<TrackItem>)
    ensures
        items_view(items@) == fresh_items(tracks_view(tracks@)),
{
    let ghost ts = tracks@;
    let mut items: Vec<TrackItem> = Vec::new();
    for t in it: tracks
        invariant
            it.seq() == ts,
            items_view(items@) == fresh_items(tracks_view(ts.take(it.index() as int))),
    {
        let ghost k = it.index() as int;
        assert(t == ts[k]);
        let ghost prev = items@;
        items.push(TrackItem { track: t, selected: true, status: TrackStatus::Pending });
        proof {
            assert(items@ == prev.push(items@.last()));
            assert(items_view(prev).len() == prev.len());
            assert(fresh_items(tracks_view(ts.take(k))).len() == k);
            let lhs = items_view(items@);
            let rhs = fresh_items(tracks_view(ts.take(k + 1)));
            assert(lhs.len() == k + 1);
            assert(rhs.len() == k + 1);
            assert forall|i: int| 0 <= i < k + 1 implies lhs[i] == rhs[i] by {
                if i < k {
                    assert(lhs[i] == items_view(prev)[i]);
                    assert(items_view(prev)[i] == fresh_items(tracks_view(ts.take(k)))[i]);
                    assert(ts.take(k)[i] == ts.take(k + 1)[i]);
                }
            }
            assert(lhs =~= rhs);
        }
    }
    assert(ts.take(ts.len() as int) =~= ts);
    items
}

impl App {
    /// A fresh state on the URL screen; downloads go to `out_dir`.
    pub fn new(out_dir: String) -> (app: App)
        ensures
            app@ == (AppModel {
                screen: Screen::UrlInput,
                url_input: Seq::empty(),
                tracks: Seq::empty(),
                cursor: 0,
                log: Seq::empty(),
                out_dir: out_dir@,
                should_quit: false,
                busy: false,
                error: None,
            }),
    {
        let app = App {
            screen: Screen::UrlInput,
            url_input: String::new(),
            tracks: Vec::new(),
            cursor: 0,
            log: Vec::new(),
            out_dir,
            should_quit: false,
            busy: false,
            error: None,
        };
        assert(app@ =~= (AppModel {
            screen: Screen::UrlInput,
            url_input: Seq::empty(),
            tracks: Seq::empty(),
            cursor: 0,
            log: Seq::empty(),
            out_dir: out_dir@,
            should_quit: false,
            busy: false,
            error: None,
        }));
        app
    }

    /// Appends a line to the log, dropping the oldest beyond [`LOG_LIMIT`].
    pub fn push_log(&mut self, s: String)
        ensures
            final(self)@ == with_log(old(self)@, s@),
    {
        let ghost before = strings_view(self.log@);
        self.log.push(s);
        if self.log.len() > LOG_LIMIT {
            self.log.remove(0);
        }
        assert(strings_view(self.log@) =~= log_after(before, s@));
    }

    /// Applies one worker report.
    pub fn apply(&mut self, msg: WorkerMsg)
        ensures
            final(self)@ == apply_msg(old(self)@, msg@),
    {
        let ghost m = self@;
        let ghost mm = msg@;
        match msg {
            WorkerMsg::Log(s) => self.push_log(s),
            WorkerMsg::FetchDone(res) => {
                self.busy = false;
                match res {
                    Ok(tracks) => {
                        self.tracks = fresh_track_items(tracks);
                        self.cursor = 0;
                        self.screen = Screen::TrackList;
                        self.error = None;
                    },
                    Err(e) => {
                        self.error = Some(e);
                    },
                }
                assert(self@ =~= apply_msg(m, mm));
            },
            WorkerMsg::TrackDownloaded(idx, path, secs) => {
                if idx < self.tracks.len() {
                    let ghost old_items = self.tracks@;
                    self.tracks[idx].status = TrackStatus::Downloaded(path);
                    if self.tracks[idx].track.duration.is_none() {
                        self.tracks[idx].track.duration = Some(secs);
                    }
                    assert(items_view(self.tracks@) =~= m.tracks.update(
                        idx as int,
                        mark_downloaded(m.tracks[idx as int], path@, secs),
                    ));
                }
                assert(self@ =~= apply_msg(m, mm));
            },
            WorkerMsg::TrackFailed(idx, err) => {
                if idx < self.tracks.len() {
                    self.tracks[idx].status = TrackStatus::Failed(err.clone());
                    assert(items_view(self.tracks@) =~= m.tracks.update(
                        idx as int,
                        mark_failed(m.tracks[idx as int], err@),
                    ));
                }
                let mut line = "  failed: ".to_owned();
                line.append(err.as_str());
                self.push_log(line);
            },
            WorkerMsg::DownloadBatchDone => {
                self.busy = false;
                self.push_log("All downloads finished.".to_owned());
            },
            WorkerMsg::BurnDone(res) => {
                self.busy = false;
                match res {
                    Ok(()) => {
                        self.push_log("Burn finished successfully.".to_owned());
                        self.screen = Screen::Done;
                    },
                    Err(e) => {
                        self.error = Some(e.clone());
                        let mut line = "Burn failed: ".to_owned();
                        line.append(e.as_str());
                        self.push_log(line);
                    },
                }
            },
        }
    }

    /// Applies the reports that the worker threads sent since the last
    /// tick, oldest first.
    pub fn poll_worker(&mut self, msgs: Vec<WorkerMsg>)
        ensures
            final(self)@ == apply_msgs(old(self)@, msgs_view(msgs@)),
    {
        let ghost m0 = self@;
        let ghost ms = msgs@;
        for msg in it: msgs
            invariant
                it.seq() == ms,
                self@ == apply_msgs(m0, msgs_view(ms.take(it.index() as int))),
        {
            let ghost k = it.index() as int;
            assert(msg == ms[k]);
            self.apply(msg);
            proof {
                let mv = msgs_view(ms.take(k + 1));
                assert(mv.drop_last() =~= msgs_view(ms.take(k)));
                assert(mv.last() == ms[k]@);
            }
        }
        assert(ms.take(ms.len() as int) =~= ms);
    }
}


/// Seconds of all selected tracks whose duration is known.
pub open spec fn selected_total(items: Seq<ItemModel>) -> int
    decreases items.len(),
{
    if items.len() == 0 {
        0
    } else {
        selected_total(items.drop_last()) + if items.last().selected {
            match items.last().track.duration {
                Some(d) => d as int,
                None => 0,
            }
        } else {
            0
        }
    }
}

/// The files of the selected tracks that downloaded, in playlist order.
pub open spec fn downloaded(items: Seq<ItemModel>) -> Seq<Seq<char>>
    decreases items.len(),
{
    if items.len() == 0 {
        Seq::empty()
    } else {
        let rest = downloaded(items.drop_last());
        match items.last().status {
            StatusModel::Downloaded(p) => if items.last().selected {
                rest.push(p)
            } else {
                rest
            },
            _ => rest,
        }
    }
}

/// The download jobs for a track list: the position and track of every
/// selected item, in playlist order.
pub open spec fn selected_jobs(items: Seq<ItemModel>) -> Seq<(int, TrackModel)>
    decreases items.len(),
{
    if items.len() == 0 {
        Seq::empty()
    } else {
        let rest = selected_jobs(items.drop_last());
        if items.last().selected {
            rest.push((items.len() - 1, items.last().track))
        } else {
            rest
        }
    }
}

/// The abstract value of a list of download jobs.
pub open spec fn jobs_view(v: Seq<(usize, Track)>) -> Seq<(int, TrackModel)> {
    v.map_values(|j: (usize, Track)| (j.0 as int, j.1@))
}

/// Every selected item marked as downloading.
pub open spec fn mark_downloading(items: Seq<ItemModel>) -> Seq<ItemModel> {
    items.map_values(
        |it: ItemModel|
            if it.selected {
                ItemModel { status: StatusModel::Downloading, ..it }
            } else {
                it
            },
    )
}

/// Every item with its selection set to `b`.
pub open spec fn select_all(items: Seq<ItemModel>, b: bool) -> Seq<ItemModel> {
    items.map_values(|it: ItemModel| ItemModel { selected: b, ..it })
}

/// The item at `i` with its selection flipped.
pub open spec fn toggle_at(items: Seq<ItemModel>, i: int) -> Seq<ItemModel> {
    items.update(i, ItemModel { selected: !items[i].selected, ..items[i] })
}

/// A fetch may start: there is a URL and nothing else runs.
pub open spec fn fetch_allowed(m: AppModel) -> bool {
    trim(m.url_input).len() > 0 && !m.busy
}

/// The state once a fetch is asked for.
pub open spec fn after_fetch_request(m: AppModel) -> AppModel {
    if fetch_allowed(m) {
        AppModel {
            busy: true,
            error: None,
            log: log_after(Seq::empty(), "Fetching playlist metadata for: "@ + trim(m.url_input)),
            ..m
        }
    } else {
        m
    }
}

/// The log line that opens a download batch.
pub open spec fn download_line(count: nat, dir: Seq<char>) -> Seq<char> {
    "Downloading "@ + decimal(count) + " track(s) to "@ + dir
}

/// The state once downloading the selection is asked for.
pub open spec fn after_download_request(m: AppModel) -> AppModel {
    if m.busy {
        m
    } else if selected_jobs(m.tracks).len() == 0 {
        AppModel { error: Some("no tracks selected"@), ..m }
    } else {
        AppModel {
            busy: true,
            screen: Screen::Working,
            log: log_after(Seq::empty(), download_line(selected_jobs(m.tracks).len(), m.out_dir)),
            tracks: mark_downloading(m.tracks),
            ..m
        }
    }
}

/// The state once a burn is asked for; the burn itself waits for the
/// recorder check ([`after_burn_check`]).
pub open spec fn after_burn_request(m: AppModel) -> AppModel {
    if !m.busy && downloaded(m.tracks).len() == 0 {
        AppModel { error: Some("no downloaded tracks to burn yet"@), ..m }
    } else {
        m
    }
}

/// The error shown when no recorder is found.
pub open spec fn no_burner_message() -> Seq<char> {
    "no CD/DVD burner detected \u{2014} plug one in and insert a blank CD-R"@
}

/// The state once the recorder check for a burn of `count` tracks is in.
pub open spec fn after_burn_check(m: AppModel, count: nat, present: bool) -> AppModel {
    if present {
        with_log(
            AppModel { busy: true, screen: Screen::Working, ..m },
            "Starting burn of "@ + decimal(count) + " track(s)..."@,
        )
    } else {
        AppModel { error: Some(no_burner_message()), ..m }
    }
}

/// A key press, as the tool tells keys apart.
#[derive(Debug, Clone, Copy, PartialEq, Eq, Structural)]
pub enum Key {
    Esc,
    Enter,
    Backspace,
    Up,
    Down,
    Char(char),
    Other,
}

/// The job a key press starts, for the caller to run.
#[derive(Debug)]
pub enum KeyAction {
    Nothing,
    /// List the playlist at this URL.
    Fetch(String),
    /// Download these tracks (position in the list, track).
    Download(Vec<(usize, Track)>),
    /// Burn these files once a recorder is confirmed.
    Burn(Vec<String>),
}

/// The abstract value of a [`KeyAction`].
pub enum ActionModel {
    Nothing,
    Fetch(Seq<char>),
    Download(Seq<(int, TrackModel)>),
    Burn(Seq<Seq<char>>),
}

impl View for KeyAction {
    type V = ActionModel;

    open spec fn view(&self) -> ActionModel {
        match self {
            KeyAction::Nothing => ActionModel::Nothing,
            KeyAction::Fetch(u) => ActionModel::Fetch(u@),
            KeyAction::Download(j) => ActionModel::Download(jobs_view(j@)),
            KeyAction::Burn(p) => ActionModel::Burn(strings_view(p@)),
        }
    }
}

/// The state after a key on the URL screen (error already cleared).
pub open spec fn url_key_state(m: AppModel, k: Key) -> AppModel {
    match k {
        Key::Esc => AppModel { should_quit: true, ..m },
        Key::Enter => after_fetch_request(m),
        Key::Backspace => if m.url_input.len() > 0 {
            AppModel { url_input: m.url_input.drop_last(), ..m }
        } else {
            m
        },
        Key::Char(c) => AppModel { url_input: m.url_input.push(c), ..m },
        _ => m,
    }
}

/// The state after a key on the track list (error already cleared).
pub open spec fn list_key_state(m: AppModel, k: Key) -> AppModel {
    match k {
        Key::Esc => AppModel { screen: Screen::UrlInput, ..m },
        Key::Up => if m.cursor > 0 {
            AppModel { cursor: m.cursor - 1, ..m }
        } else {
            m
        },
        Key::Down => if m.cursor + 1 < m.tracks.len() {
            AppModel { cursor: m.cursor + 1, ..m }
        } else {
            m
        },
        Key::Char(c) => if c == ' ' {
            if 0 <= m.cursor < m.tracks.len() {
                AppModel { tracks: toggle_at(m.tracks, m.cursor), ..m }
            } else {
                m
            }
        } else if c == 'a' {
            AppModel { tracks: select_all(m.tracks, true), ..m }
        } else if c == 'n' {
            AppModel { tracks: select_all(m.tracks, false), ..m }
        } else if c == 'd' {
            after_download_request(m)
        } else if c == 'b' {
            after_burn_request(m)
        } else {
            m
        },
        _ => m,
    }
}

/// The state after a key on the final screen (error already cleared).
pub open spec fn done_key_state(m: AppModel, k: Key) -> AppModel {
    if k == Key::Char('q') {
        AppModel { should_quit: true, ..m }
    } else if k == Key::Char('n') {
        AppModel {
            url_input: Seq::empty(),
            tracks: Seq::empty(),
            log: Seq::empty(),
            screen: Screen::UrlInput,
            ..m
        }
    } else {
        m
    }
}

/// The state after a key press: the error clears, then the key acts on
/// the current screen.
pub open spec fn key_state(m0: AppModel, k: Key) -> AppModel {
    let m = AppModel { error: None, ..m0 };
    match m.screen {
        Screen::UrlInput => url_key_state(m, k),
        Screen::TrackList => list_key_state(m, k),
        Screen::Working => m,
        Screen::Done => done_key_state(m, k),
    }
}

/// The job a key press starts.
pub open spec fn key_action(m0: AppModel, k: Key) -> ActionModel {
    let m = AppModel { error: None, ..m0 };
    if m.screen == Screen::UrlInput && k == Key::Enter && fetch_allowed(m) {
        ActionModel::Fetch(trim(m.url_input))
    } else if m.screen == Screen::TrackList && k == Key::Char('d') && !m.busy
        && selected_jobs(m.tracks).len() > 0 {
        ActionModel::Download(selected_jobs(m.tracks))
    } else if m.screen == Screen::TrackList && k == Key::Char('b') && !m.busy
        && downloaded(m.tracks).len() > 0 {
        ActionModel::Burn(downloaded(m.tracks))
    } else {
        ActionModel::Nothing
    }
}

/// The report for a finished download: the failure if the file missed CD
/// spec, else the file with its measured length (zero when unknown).
pub open spec fn download_report_model(
    idx: int,
    path: Seq<char>,
    verified: Result<(), Seq<char>>,
    secs: Option<u64>,
) -> MsgModel {
    match verified {
        Err(e) => MsgModel::TrackFailed(idx, e),
        Ok(()) => MsgModel::TrackDownloaded(
            idx,
            path,
            match secs {
                Some(s) => s,
                None => 0,
            },
        ),
    }
}

/// Decides what a worker reports once track `idx` downloaded to `path`:
/// `verified` is the CD-spec check, `secs` the measured length if it could
/// be read.
pub fn download_report(idx: usize, path: String, verified: Result<(), String>, secs: Option<u64>) -> (msg: WorkerMsg)
    ensures
        msg@ == download_report_model(
            idx as int,
            path@,
            match verified {
                Ok(()) => Ok(()),
                Err(e) => Err(e@),
            },
            secs,
        ),
{
    match verified {
        Err(e) => WorkerMsg::TrackFailed(idx, e),
        Ok(()) => WorkerMsg::TrackDownloaded(
            idx,
            path,
            match secs {
                Some(s) => s,
                None => 0,
            },
        ),
    }
}

/// The log line a worker sends as it starts on track `idx`.
pub fn download_start_line(idx: usize, title: &str) -> (l: String)
    ensures
        l@ == seq!['['] + decimal(idx as nat) + "] downloading: "@ + title@,
{
    let mut l = String::new();
    push_char(&mut l, '[');
    push_decimal(&mut l, idx as u64);
    l.append("] downloading: ");
    l.append(title);
    l
}


fn mark_items_downloading(items: &mut Vec<TrackItem>)
    ensures
        items_view(final(items)@) == mark_downloading(items_view(old(items)@)),
{
    let ghost before = items_view(items@);
    let mut i: usize = 0;
    while i < items.len()
        invariant
            i <= items@.len(),
            before.len() == items@.len(),
            forall|k: int| 0 <= k < i ==> #[trigger] items@[k]@ == mark_downloading(before)[k],
            forall|k: int| i <= k < items@.len() ==> #[trigger] items@[k]@ == before[k],
        decreases items@.len() - i,
    {
        let ghost old_it = items@[i as int]@;
        assert(old_it == before[i as int]);
        if items[i].selected {
            items[i].status = TrackStatus::Downloading;
            assert(items@[i as int]@ =~= ItemModel { status: StatusModel::Downloading, ..old_it });
        }
        assert(items@[i as int]@ =~= mark_downloading(before)[i as int]);
        i = i + 1;
    }
    assert(items_view(items@) =~= mark_downloading(before));
}

fn select_all_items(items: &mut Vec<TrackItem>, b: bool)
    ensures
        items_view(final(items)@) == select_all(items_view(old(items)@), b),
{
    let ghost before = items_view(items@);
    let mut i: usize = 0;
    while i < items.len()
        invariant
            i <= items@.len(),
            before.len() == items@.len(),
            forall|k: int| 0 <= k < i ==> #[trigger] items@[k]@ == select_all(before, b)[k],
            forall|k: int| i <= k < items@.len() ==> #[trigger] items@[k]@ == before[k],
        decreases items@.len() - i,
    {
        let ghost old_it = items@[i as int]@;
        assert(old_it == before[i as int]);
        items[i].selected = b;
        assert(items@[i as int]@ =~= ItemModel { selected: b, ..old_it });
        assert(items@[i as int]@ =~= select_all(before, b)[i as int]);
        i = i + 1;
    }
    assert(items_view(items@) =~= select_all(before, b));
}

impl App {
    /// Seconds of all selected tracks whose duration is known.
    pub fn total_selected_seconds(&self) -> (t: u64)
        requires
            selected_total(self@.tracks) <= u64::MAX,
        ensures
            t == selected_total(self@.tracks),
    {
        let ghost items = self@.tracks;
        let mut t: u64 = 0;
        let mut i: usize = 0;
        while i < self.tracks.len()
            invariant
                i <= self.tracks@.len(),
                items == items_view(self.tracks@),
                selected_total(items) <= u64::MAX,
                t == selected_total(items.take(i as int)),
            decreases self.tracks@.len() - i,
        {
            proof {
                assert(items.take(i + 1).drop_last() =~= items.take(i as int));
                lemma_selected_total_prefix(items, i + 1);
            }
            let it = &self.tracks[i];
            if it.selected {
                match it.track.duration {
                    Some(d) => {
                        t = t + d;
                    },
                    None => {},
                }
            }
            i = i + 1;
        }
        assert(items.take(i as int) =~= items);
        t
    }

    /// The selected total, or None where it does not fit in a `u64`.
    pub fn checked_total_selected_seconds(&self) -> (t: Option<u64>)
        ensures
            t is Some <==> selected_total(self@.tracks) <= u64::MAX,
            t matches Some(v) ==> v == selected_total(self@.tracks),
    {
        let ghost items = self@.tracks;
        let mut t: u64 = 0;
        let mut i: usize = 0;
        while i < self.tracks.len()
            invariant
                i <= self.tracks@.len(),
                items == items_view(self.tracks@),
                t == selected_total(items.take(i as int)),
            decreases self.tracks@.len() - i,
        {
            proof {
                assert(items.take(i + 1).drop_last() =~= items.take(i as int));
            }
            let it = &self.tracks[i];
            if it.selected {
                match it.track.duration {
                    Some(d) => {
                        if t > u64::MAX - d {
                            proof {
                                lemma_selected_total_prefix(items, i + 1);
                            }
                            return None;
                        }
                        t = t + d;
                    },
                    None => {},
                }
            }
            i = i + 1;
        }
        assert(items.take(i as int) =~= items);
        Some(t)
    }

    /// Only tracks that downloaded successfully, in playlist order.
    pub fn downloaded_paths(&self) -> (paths: Vec<String>)
        ensures
            strings_view(paths@) == downloaded(self@.tracks),
    {
        let ghost items = self@.tracks;
        let mut paths: Vec<String> = Vec::new();
        let mut i: usize = 0;
        while i < self.tracks.len()
            invariant
                i <= self.tracks@.len(),
                items == items_view(self.tracks@),
                strings_view(paths@) == downloaded(items.take(i as int)),
            decreases self.tracks@.len() - i,
        {
            proof {
                assert(items.take(i + 1).drop_last() =~= items.take(i as int));
            }
            let it = &self.tracks[i];
            if it.selected {
                match &it.status {
                    TrackStatus::Downloaded(p) => {
                        paths.push(p.clone());
                    },
                    _ => {},
                }
            }
            i = i + 1;
            assert(strings_view(paths@) =~= downloaded(items.take(i as int)));
        }
        assert(items.take(i as int) =~= items);
        paths
    }

    /// The download jobs for the selection.
    fn selection_jobs(&self) -> (jobs: Vec<(usize, Track)>)
        ensures
            jobs_view(jobs@) == selected_jobs(self@.tracks),
    {
        let ghost items = self@.tracks;
        let mut jobs: Vec<(usize, Track)> = Vec::new();
        let mut i: usize = 0;
        while i < self.tracks.len()
            invariant
                i <= self.tracks@.len(),
                items == items_view(self.tracks@),
                jobs_view(jobs@) == selected_jobs(items.take(i as int)),
            decreases self.tracks@.len() - i,
        {
            proof {
                assert(items.take(i + 1).drop_last() =~= items.take(i as int));
            }
            if self.tracks[i].selected {
                jobs.push((i, self.tracks[i].track.duplicate()));
            }
            i = i + 1;
            assert(jobs_view(jobs@) =~= selected_jobs(items.take(i as int)));
        }
        assert(items.take(i as int) =~= items);
        jobs
    }

    /// Asks for the playlist at the entered URL to be listed. Returns the
    /// URL (without surrounding whitespace) when the fetch starts: there is
    /// one and nothing else runs.
    pub fn start_fetch(&mut self) -> (url: Option<String>)
        ensures
            final(self)@ == after_fetch_request(old(self)@),
            url is Some <==> fetch_allowed(old(self)@),
            url matches Some(u) ==> u@ == trim(old(self)@.url_input),
    {
        let url = trimmed(self.url_input.as_str());
        if url.unicode_len() == 0 || self.busy {
            return None;
        }
        self.busy = true;
        self.error = None;
        self.log.clear();
        let mut line = "Fetching playlist metadata for: ".to_owned();
        line.append(url.as_str());
        self.push_log(line);
        Some(url)
    }

    /// Asks for the selected tracks to be downloaded. Returns the jobs when
    /// the batch starts: nothing else runs and something is selected.
    pub fn start_download_selected(&mut self) -> (jobs: Option<Vec<(usize, Track)>>)
        ensures
            final(self)@ == after_download_request(old(self)@),
            jobs is Some <==> !old(self)@.busy && selected_jobs(old(self)@.tracks).len() > 0,
            jobs matches Some(j) ==> jobs_view(j@) == selected_jobs(old(self)@.tracks),
    {
        if self.busy {
            return None;
        }
        let jobs = self.selection_jobs();
        if jobs.len() == 0 {
            self.error = Some("no tracks selected".to_owned());
            return None;
        }
        self.busy = true;
        self.screen = Screen::Working;
        self.log.clear();
        let mut line = "Downloading ".to_owned();
        push_decimal(&mut line, jobs.len() as u64);
        line.append(" track(s) to ");
        line.append(self.out_dir.as_str());
        self.push_log(line);
        mark_items_downloading(&mut self.tracks);
        Some(jobs)
    }

    /// Asks for the downloaded tracks to be burned. Returns their files when
    /// nothing else runs and something downloaded; the burn begins with
    /// [`App::begin_burn`] once a recorder is confirmed.
    pub fn start_burn(&mut self) -> (paths: Option<Vec<String>>)
        ensures
            final(self)@ == after_burn_request(old(self)@),
            paths is Some <==> !old(self)@.busy && downloaded(old(self)@.tracks).len() > 0,
            paths matches Some(p) ==> strings_view(p@) == downloaded(old(self)@.tracks),
    {
        if self.busy {
            return None;
        }
        let paths = self.downloaded_paths();
        if paths.len() == 0 {
            self.error = Some("no downloaded tracks to burn yet".to_owned());
            return None;
        }
        Some(paths)
    }

    /// Begins a burn of `count` tracks if the recorder check found one;
    /// otherwise says that none was found. Returns whether it began.
    pub fn begin_burn(&mut self, count: usize, burner_present: bool) -> (began: bool)
        ensures
            began == burner_present,
            final(self)@ == after_burn_check(old(self)@, count as nat, burner_present),
    {
        if !burner_present {
            self.error = Some(
                "no CD/DVD burner detected \u{2014} plug one in and insert a blank CD-R".to_owned(),
            );
            return false;
        }
        self.busy = true;
        self.screen = Screen::Working;
        let mut line = "Starting burn of ".to_owned();
        push_decimal(&mut line, count as u64);
        line.append(" track(s)...");
        self.push_log(line);
        true
    }

    fn set_all_selected(&mut self, b: bool)
        ensures
            final(self)@ == (AppModel { tracks: select_all(old(self)@.tracks, b), ..old(self)@ }),
    {
        select_all_items(&mut self.tracks, b);
    }

    fn url_key(&mut self, key: Key) -> (action: KeyAction)
        requires
            old(self)@.screen == Screen::UrlInput,
        ensures
            final(self)@ == url_key_state(old(self)@, key),
            action@ == if key == Key::Enter && fetch_allowed(old(self)@) {
                ActionModel::Fetch(trim(old(self)@.url_input))
            } else {
                ActionModel::Nothing
            },
    {
        match key {
            Key::Esc => {
                self.should_quit = true;
                KeyAction::Nothing
            },
            Key::Enter => match self.start_fetch() {
                Some(u) => KeyAction::Fetch(u),
                None => KeyAction::Nothing,
            },
            Key::Backspace => {
                pop_char(&mut self.url_input);
                KeyAction::Nothing
            },
            Key::Char(c) => {
                push_char(&mut self.url_input, c);
                KeyAction::Nothing
            },
            _ => KeyAction::Nothing,
        }
    }

    fn list_key(&mut self, key: Key) -> (action: KeyAction)
        requires
            old(self)@.screen == Screen::TrackList,
        ensures
            final(self)@ == list_key_state(old(self)@, key),
            action@ == if key == Key::Char('d') && !old(self)@.busy && selected_jobs(
                old(self)@.tracks,
            ).len() > 0 {
                ActionModel::Download(selected_jobs(old(self)@.tracks))
            } else if key == Key::Char('b') && !old(self)@.busy && downloaded(
                old(self)@.tracks,
            ).len() > 0 {
                ActionModel::Burn(downloaded(old(self)@.tracks))
            } else {
                ActionModel::Nothing
            },
    {
        match key {
            Key::Esc => {
                self.screen = Screen::UrlInput;
                KeyAction::Nothing
            },
            Key::Up => {
                if self.cursor > 0 {
                    self.cursor = self.cursor - 1;
                }
                KeyAction::Nothing
            },
            Key::Down => {
                if self.tracks.len() > 0 && self.cursor < self.tracks.len() - 1 {
                    self.cursor = self.cursor + 1;
                }
                KeyAction::Nothing
            },
            Key::Char(c) => {
                if c == ' ' {
                    if self.cursor < self.tracks.len() {
                        let ghost before = items_view(self.tracks@);
                        let cur = self.cursor;
                        let flipped = !self.tracks[cur].selected;
                        self.tracks[cur].selected = flipped;
                        assert(items_view(self.tracks@) =~= toggle_at(before, cur as int));
                    }
                    KeyAction::Nothing
                } else if c == 'a' {
                    self.set_all_selected(true);
                    KeyAction::Nothing
                } else if c == 'n' {
                    self.set_all_selected(false);
                    KeyAction::Nothing
                } else if c == 'd' {
                    match self.start_download_selected() {
                        Some(j) => KeyAction::Download(j),
                        None => KeyAction::Nothing,
                    }
                } else if c == 'b' {
                    match self.start_burn() {
                        Some(p) => KeyAction::Burn(p),
                        None => KeyAction::Nothing,
                    }
                } else {
                    KeyAction::Nothing
                }
            },
            _ => KeyAction::Nothing,
        }
    }

    /// Acts on a key press: the error clears, then the key acts on the
    /// current screen. Returns the job it starts, if any; a burn still
    /// waits for [`App::begin_burn`].
    pub fn handle_key(&mut self, key: Key) -> (action: KeyAction)
        ensures
            final(self)@ == key_state(old(self)@, key),
            action@ == key_action(old(self)@, key),
    {
        self.error = None;
        match self.screen {
            Screen::UrlInput => self.url_key(key),
            Screen::TrackList => self.list_key(key),
            Screen::Working => KeyAction::Nothing,
            Screen::Done => {
                if key == Key::Char('q') {
                    self.should_quit = true;
                } else if key == Key::Char('n') {
                    self.url_input = String::new();
                    self.tracks.clear();
                    self.log.clear();
                    self.screen = Screen::UrlInput;
                }
                KeyAction::Nothing
            },
        }
    }
}

/// The selected total of a prefix never exceeds that of the whole list.
pub proof fn lemma_selected_total_prefix(items: Seq<ItemModel>, i: int)
    requires
        0 <= i <= items.len(),
    ensures
        selected_total(items.take(i)) <= selected_total(items),
        selected_total(items.take(i)) >= 0,
    decreases items.len() - i,
{
    if i < items.len() {
        let w = items.drop_last();
        assert(w.take(i) =~= items.take(i));
        lemma_selected_total_prefix(w, i);
        lemma_selected_total_nonneg(w);
    } else {
        assert(items.take(i) =~= items);
        lemma_selected_total_nonneg(items);
    }
}

/// A selected total is never negative.
pub proof fn lemma_selected_total_nonneg(items: Seq<ItemModel>)
    ensures
        selected_total(items) >= 0,
    decreases items.len(),
{
    if items.len() > 0 {
        lemma_selected_total_nonneg(items.drop_last());
    }
}

} // verus!
