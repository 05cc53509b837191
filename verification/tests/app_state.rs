use ytmusicdw::app::{download_report, download_start_line, App, Key, KeyAction, Screen, TrackItem, TrackStatus, WorkerMsg, LOG_LIMIT};
use ytmusicdw::ui::{log_tail, selection_summary, track_row_text, truncate};
use ytmusicdw::ytdlp::Track;

fn track(id: &str, title: &str, duration: Option<u64>) -> Track {
    Track { id: id.to_string(), title: title.to_string(), duration }
}

fn listed_app() -> App {
    let mut app = App::new("/tmp/out".to_string());
    app.poll_worker(vec![WorkerMsg::FetchDone(Ok(vec![
        track("a", "Alpha", Some(100)),
        track("b", "Beta", None),
        track("c", "Gamma", Some(50)),
    ]))]);
    app
}

#[test]
fn new_app_starts_on_url_screen() {
    let app = App::new("/tmp/out".to_string());
    assert_eq!(app.screen, Screen::UrlInput);
    assert!(app.tracks.is_empty() && app.log.is_empty() && !app.busy && !app.should_quit);
    assert!(app.error.is_none());
}

#[test]
fn log_keeps_the_newest_500_lines() {
    let mut app = App::new(String::new());
    for i in 0..(LOG_LIMIT + 7) {
        app.push_log(format!("line {}", i));
    }
    assert_eq!(app.log.len(), LOG_LIMIT);
    assert_eq!(app.log[0], "line 7");
    assert_eq!(app.log[LOG_LIMIT - 1], format!("line {}", LOG_LIMIT + 6));
}

#[test]
fn fetch_done_lists_every_track_selected() {
    let app = listed_app();
    assert_eq!(app.screen, Screen::TrackList);
    assert_eq!(app.tracks.len(), 3);
    assert!(app.tracks.iter().all(|t| t.selected && matches!(t.status, TrackStatus::Pending)));
    assert_eq!(app.cursor, 0);
    assert!(!app.busy);
    assert_eq!(app.total_selected_seconds(), 150);
}

#[test]
fn fetch_failure_sets_error() {
    let mut app = App::new(String::new());
    app.busy = true;
    app.poll_worker(vec![WorkerMsg::FetchDone(Err("boom".to_string()))]);
    assert!(!app.busy);
    assert_eq!(app.error.as_deref(), Some("boom"));
    assert_eq!(app.screen, Screen::UrlInput);
}

#[test]
fn typing_and_fetching_a_url() {
    let mut app = App::new(String::new());
    for c in " https://x ".chars() {
        assert!(matches!(app.handle_key(Key::Char(c)), KeyAction::Nothing));
    }
    app.handle_key(Key::Char('z'));
    app.handle_key(Key::Backspace);
    match app.handle_key(Key::Enter) {
        KeyAction::Fetch(u) => assert_eq!(u, "https://x"),
        other => panic!("unexpected {:?}", other),
    }
    assert!(app.busy);
    assert_eq!(app.log, vec!["Fetching playlist metadata for: https://x".to_string()]);
    // busy: a second Enter starts nothing
    assert!(matches!(app.handle_key(Key::Enter), KeyAction::Nothing));
}

#[test]
fn empty_url_does_not_fetch() {
    let mut app = App::new(String::new());
    app.handle_key(Key::Char(' '));
    assert!(app.start_fetch().is_none());
    assert!(!app.busy);
    app.handle_key(Key::Esc);
    assert!(app.should_quit);
}

#[test]
fn cursor_moves_within_list() {
    let mut app = listed_app();
    app.handle_key(Key::Up);
    assert_eq!(app.cursor, 0);
    app.handle_key(Key::Down);
    app.handle_key(Key::Down);
    app.handle_key(Key::Down);
    assert_eq!(app.cursor, 2);
    app.handle_key(Key::Up);
    assert_eq!(app.cursor, 1);
}

#[test]
fn toggling_twice_restores_selection() {
    let mut app = listed_app();
    app.handle_key(Key::Char(' '));
    assert!(!app.tracks[0].selected);
    assert_eq!(app.total_selected_seconds(), 50);
    app.handle_key(Key::Char(' '));
    assert!(app.tracks[0].selected);
    assert_eq!(app.total_selected_seconds(), 150);
}

#[test]
fn select_none_and_all() {
    let mut app = listed_app();
    app.handle_key(Key::Char('n'));
    assert_eq!(app.total_selected_seconds(), 0);
    assert!(matches!(app.handle_key(Key::Char('d')), KeyAction::Nothing));
    assert_eq!(app.error.as_deref(), Some("no tracks selected"));
    app.handle_key(Key::Char('a'));
    assert!(app.error.is_none());
    assert_eq!(app.total_selected_seconds(), 150);
}

#[test]
fn download_batch_and_reports() {
    let mut app = listed_app();
    app.handle_key(Key::Down);
    app.handle_key(Key::Char(' '));
    let jobs = match app.handle_key(Key::Char('d')) {
        KeyAction::Download(j) => j,
        other => panic!("unexpected {:?}", other),
    };
    assert_eq!(jobs.iter().map(|j| j.0).collect::<Vec<_>>(), vec![0, 2]);
    assert_eq!(jobs[1].1.title, "Gamma");
    assert!(app.busy);
    assert_eq!(app.screen, Screen::Working);
    assert_eq!(app.log, vec!["Downloading 2 track(s) to /tmp/out".to_string()]);
    assert!(matches!(app.tracks[0].status, TrackStatus::Downloading));
    assert!(matches!(app.tracks[1].status, TrackStatus::Pending));
    app.poll_worker(vec![
        WorkerMsg::Log(download_start_line(0, "Alpha")),
        WorkerMsg::TrackDownloaded(0, "/tmp/out/a.wav".to_string(), 101),
        WorkerMsg::TrackFailed(2, "no audio".to_string()),
        WorkerMsg::TrackDownloaded(9, "/nowhere".to_string(), 1),
        WorkerMsg::DownloadBatchDone,
    ]);
    assert!(!app.busy);
    assert!(matches!(&app.tracks[0].status, TrackStatus::Downloaded(p) if p == "/tmp/out/a.wav"));
    assert_eq!(app.tracks[0].track.duration, Some(100));
    assert!(matches!(&app.tracks[2].status, TrackStatus::Failed(e) if e == "no audio"));
    assert_eq!(
        app.log,
        vec![
            "Downloading 2 track(s) to /tmp/out".to_string(),
            "[0] downloading: Alpha".to_string(),
            "  failed: no audio".to_string(),
            "All downloads finished.".to_string(),
        ]
    );
    assert_eq!(app.downloaded_paths(), vec!["/tmp/out/a.wav".to_string()]);
}

#[test]
fn downloaded_duration_fills_unknown_length() {
    let mut app = listed_app();
    app.poll_worker(vec![WorkerMsg::TrackDownloaded(1, "b.wav".to_string(), 77)]);
    assert_eq!(app.tracks[1].track.duration, Some(77));
}

#[test]
fn burn_needs_downloads_and_a_recorder() {
    let mut app = listed_app();
    assert!(matches!(app.handle_key(Key::Char('b')), KeyAction::Nothing));
    assert_eq!(app.error.as_deref(), Some("no downloaded tracks to burn yet"));
    app.poll_worker(vec![
        WorkerMsg::TrackDownloaded(0, "a.wav".to_string(), 1),
        WorkerMsg::TrackDownloaded(2, "c.wav".to_string(), 1),
    ]);
    let paths = match app.handle_key(Key::Char('b')) {
        KeyAction::Burn(p) => p,
        other => panic!("unexpected {:?}", other),
    };
    assert_eq!(paths, vec!["a.wav".to_string(), "c.wav".to_string()]);
    assert!(!app.begin_burn(paths.len(), false));
    assert_eq!(
        app.error.as_deref(),
        Some("no CD/DVD burner detected \u{2014} plug one in and insert a blank CD-R")
    );
    assert!(!app.busy);
    assert!(app.begin_burn(paths.len(), true));
    assert!(app.busy);
    assert_eq!(app.screen, Screen::Working);
    assert_eq!(app.log.last().unwrap(), "Starting burn of 2 track(s)...");
    app.poll_worker(vec![WorkerMsg::BurnDone(Ok(()))]);
    assert!(!app.busy);
    assert_eq!(app.screen, Screen::Done);
    assert_eq!(app.log.last().unwrap(), "Burn finished successfully.");
}

#[test]
fn burn_failure_is_reported() {
    let mut app = listed_app();
    app.busy = true;
    app.poll_worker(vec![WorkerMsg::BurnDone(Err("drive busy".to_string()))]);
    assert!(!app.busy);
    assert_eq!(app.error.as_deref(), Some("drive busy"));
    assert_eq!(app.log.last().unwrap(), "Burn failed: drive busy");
}

#[test]
fn done_screen_keys() {
    let mut app = listed_app();
    app.screen = Screen::Done;
    app.url_input = "u".to_string();
    app.handle_key(Key::Char('n'));
    assert_eq!(app.screen, Screen::UrlInput);
    assert!(app.url_input.is_empty() && app.tracks.is_empty() && app.log.is_empty());
    app.screen = Screen::Done;
    app.handle_key(Key::Char('q'));
    assert!(app.should_quit);
}

#[test]
fn working_screen_ignores_keys() {
    let mut app = listed_app();
    app.screen = Screen::Working;
    app.error = Some("old".to_string());
    assert!(matches!(app.handle_key(Key::Char('d')), KeyAction::Nothing));
    assert!(app.error.is_none());
    assert_eq!(app.screen, Screen::Working);
}

#[test]
fn worker_download_reports() {
    match download_report(3, "x.wav".to_string(), Ok(()), None) {
        WorkerMsg::TrackDownloaded(3, p, 0) => assert_eq!(p, "x.wav"),
        other => panic!("unexpected {:?}", other),
    }
    match download_report(3, "x.wav".to_string(), Ok(()), Some(9)) {
        WorkerMsg::TrackDownloaded(3, _, 9) => {}
        other => panic!("unexpected {:?}", other),
    }
    match download_report(4, "x.wav".to_string(), Err("bad spec".to_string()), Some(9)) {
        WorkerMsg::TrackFailed(4, e) => assert_eq!(e, "bad spec"),
        other => panic!("unexpected {:?}", other),
    }
}

#[test]
fn checked_total_detects_overflow() {
    let mut app = App::new(String::new());
    app.poll_worker(vec![WorkerMsg::FetchDone(Ok(vec![
        track("a", "A", Some(u64::MAX)),
        track("b", "B", Some(1)),
    ]))]);
    assert_eq!(app.checked_total_selected_seconds(), None);
    app.handle_key(Key::Down);
    app.handle_key(Key::Char(' '));
    assert_eq!(app.checked_total_selected_seconds(), Some(u64::MAX));
}

#[test]
fn truncation() {
    assert_eq!(truncate("short", 10), "short");
    assert_eq!(truncate("exactly", 7), "exactly");
    assert_eq!(truncate("abcdefgh", 5), "abcd\u{2026}");
    assert_eq!(truncate("abc", 0), "\u{2026}");
}

#[test]
fn track_rows() {
    let item = TrackItem { track: track("a", "Song A", Some(222)), selected: true, status: TrackStatus::Pending };
    assert_eq!(track_row_text(0, &item), format!("[x]   1  {:<50}   3:42", "Song A"));
    let failed = TrackItem {
        track: track("b", "B", None),
        selected: false,
        status: TrackStatus::Failed("x".repeat(45)),
    };
    assert_eq!(
        track_row_text(11, &failed),
        format!("[ ]  12  {:<50}  --:-- (FAILED: {}\u{2026})", "B", "x".repeat(39))
    );
}

#[test]
fn summary_line() {
    let mut app = listed_app();
    assert_eq!(selection_summary(&app), "3/3 tracks selected \u{b7} 2:30 total \u{b7} fits");
    app.poll_worker(vec![WorkerMsg::FetchDone(Ok(vec![track("x", "X", Some(4801))]))]);
    assert_eq!(selection_summary(&app), "1/1 tracks selected \u{b7} 80:01 total \u{b7} OVER 80-min CD-R limit!");
}

#[test]
fn log_tail_shows_newest_lines() {
    let log: Vec<String> = (0..5).map(|i| i.to_string()).collect();
    assert_eq!(log_tail(&log, 2), vec!["3".to_string(), "4".to_string()]);
    assert_eq!(log_tail(&log, 10), log);
    assert!(log_tail(&log, 0).is_empty());
}
