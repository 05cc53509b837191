use ytmusicdw::convert::{verify_cd_spec, wav_duration_seconds, WavSpec};
use ytmusicdw::text::{contains_str, first_chars, push_decimal, push_decimal_padded, replaced_char, trimmed};
use ytmusicdw::ytdlp::{
    read_failure_message, sanitize, tracks_from_playlist, FlatEntry, FlatPlaylist, PlaylistError,
    Track,
};

fn track(id: &str, title: &str, duration: Option<u64>) -> Track {
    Track { id: id.to_string(), title: title.to_string(), duration }
}

#[test]
fn decimal_rendering_matches_format() {
    for n in [0u64, 7, 10, 99, 100, 4800, u64::MAX] {
        let mut s = String::new();
        push_decimal(&mut s, n);
        assert_eq!(s, format!("{}", n));
    }
    let mut s = String::from("x");
    push_decimal_padded(&mut s, 5, 2, '0');
    assert_eq!(s, "x05");
    let mut s = String::new();
    push_decimal_padded(&mut s, 123, 2, '0');
    assert_eq!(s, "123");
}

#[test]
fn trim_matches_std_trim() {
    for t in ["", "   ", "  abc  ", "\u{3000}x y\u{a0}\n", "no-space", "\t\r\n a"] {
        assert_eq!(trimmed(t), t.trim());
    }
}

#[test]
fn trim_is_idempotent() {
    let once = trimmed("  \u{2003}hello world\u{85} ");
    assert_eq!(trimmed(&once), once);
    assert_eq!(once, "hello world");
}

#[test]
fn contains_finds_substrings() {
    assert!(contains_str("0,0,0 'HL-DT-ST' 'DVDRAM GH24NSD1'", "DVD"));
    assert!(contains_str("abc", ""));
    assert!(!contains_str("ab", "abc"));
    assert!(!contains_str("CD-ROM only", "CD-R "));
}

#[test]
fn replace_and_take_chars() {
    assert_eq!(replaced_char("say \"hi\"", '"', '\''), "say 'hi'");
    assert_eq!(first_chars("héllo", 2), "hé");
    assert_eq!(first_chars("ab", 5), "ab");
}

#[test]
fn track_url() {
    assert_eq!(track("dQw4w9WgXcQ", "t", None).url(), "https://www.youtube.com/watch?v=dQw4w9WgXcQ");
}

#[test]
fn duration_labels() {
    assert_eq!(track("a", "t", Some(222)).duration_label(), "3:42");
    assert_eq!(track("a", "t", Some(5)).duration_label(), "0:05");
    assert_eq!(track("a", "t", Some(3600)).duration_label(), "60:00");
    assert_eq!(track("a", "t", None).duration_label(), "--:--");
}

#[test]
fn sanitize_replaces_unsafe_characters() {
    assert_eq!(sanitize("abc-DEF_123"), "abc-DEF_123");
    assert_eq!(sanitize("a/b c.é"), "a_b_c__");
    let once = sanitize("x?y*z");
    assert_eq!(sanitize(&once), once);
}

#[test]
fn file_names_from_ids() {
    let t = track("a/b", "Song", None);
    assert_eq!(t.output_template_name(), "a_b.%(ext)s");
    assert_eq!(t.wav_file_name(), "a_b.wav");
    assert_eq!(t.download_failure_message(), "yt-dlp failed to download \"Song\"");
}

#[test]
fn playlist_entries_become_tracks_in_order() {
    let p = FlatPlaylist {
        entries: Some(vec![
            FlatEntry { id: "one".into(), title: Some("First".into()), duration: Some(61) },
            FlatEntry { id: "two".into(), title: None, duration: None },
        ]),
        id: Some("playlist".into()),
        title: Some("My list".into()),
        duration: None,
    };
    let ts = tracks_from_playlist(p).unwrap();
    assert_eq!(ts.len(), 2);
    assert_eq!(ts[0].id, "one");
    assert_eq!(ts[0].title, "First");
    assert_eq!(ts[0].duration, Some(61));
    assert_eq!(ts[1].id, "two");
    assert_eq!(ts[1].title, "(untitled)");
    assert_eq!(ts[1].duration, None);
}

#[test]
fn lone_video_becomes_one_track() {
    let p = FlatPlaylist { entries: None, id: Some("vid".into()), title: None, duration: Some(200) };
    let ts = tracks_from_playlist(p).unwrap();
    assert_eq!(ts.len(), 1);
    assert_eq!(ts[0].id, "vid");
    assert_eq!(ts[0].title, "(untitled)");
    assert_eq!(ts[0].duration, Some(200));
}

#[test]
fn listing_errors() {
    let none = FlatPlaylist { entries: None, id: None, title: Some("x".into()), duration: None };
    let e = tracks_from_playlist(none).unwrap_err();
    assert_eq!(e, PlaylistError::NoTracks);
    assert_eq!(e.message(), "that link didn't resolve to any tracks");
    let empty = FlatPlaylist { entries: Some(vec![]), id: Some("p".into()), title: None, duration: None };
    let e = tracks_from_playlist(empty).unwrap_err();
    assert_eq!(e, PlaylistError::Empty);
    assert_eq!(e.message(), "playlist is empty (or every entry was unavailable)");
}

#[test]
fn read_failure_quotes_trimmed_stderr() {
    assert_eq!(
        read_failure_message("\nERROR: Unsupported URL\n  "),
        "yt-dlp failed to read that link:\nERROR: Unsupported URL"
    );
}

#[test]
fn cd_spec_check() {
    let ok = WavSpec { channels: 2, sample_rate: 44100, bits_per_sample: 16 };
    assert!(verify_cd_spec("a.wav", &ok).is_ok());
    let bad = WavSpec { channels: 1, sample_rate: 48000, bits_per_sample: 24 };
    assert_eq!(
        verify_cd_spec("/tmp/a.wav", &bad).unwrap_err(),
        "/tmp/a.wav is 48000Hz/24-bit/1ch, expected 44100Hz/16-bit/stereo (CD spec)"
    );
}

#[test]
fn wav_duration() {
    let spec = WavSpec { channels: 2, sample_rate: 44100, bits_per_sample: 16 };
    assert_eq!(wav_duration_seconds(&spec, 44100 * 222 + 10), 222);
    let zero = WavSpec { channels: 2, sample_rate: 0, bits_per_sample: 16 };
    assert_eq!(wav_duration_seconds(&zero, 1000), 0);
}
