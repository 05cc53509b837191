use ytmusicdw::burn::linux::{build_toc, burn_start_message, cdtext_str, scanbus_lists_recorder, toc_file_name, toc_quote};
use ytmusicdw::burn::windows::{
    handoff_message, join_track_files, push_pcm_le, raw_track_name, recorder_present, tracklist_text,
};
use ytmusicdw::burn::{fits_on_one_cd, wav_path_ok, BurnTrack, MAX_CD_SECONDS};

fn bt(path: &str, title: &str, artist: &str, album: Option<&str>) -> BurnTrack {
    BurnTrack {
        path: path.to_string(),
        title: title.to_string(),
        artist: artist.to_string(),
        album: album.map(|a| a.to_string()),
    }
}

#[test]
fn eighty_minutes_fit() {
    assert_eq!(MAX_CD_SECONDS, 4800);
    assert!(fits_on_one_cd(0));
    assert!(fits_on_one_cd(4800));
    assert!(!fits_on_one_cd(4801));
}

#[test]
fn wav_extension_check() {
    assert!(wav_path_ok("/tmp/x/abc.wav"));
    assert!(wav_path_ok("abc.wav"));
    assert!(wav_path_ok("dir/a.b.wav/"));
    assert!(!wav_path_ok("abc.WAV"));
    assert!(!wav_path_ok(".wav"));
    assert!(!wav_path_ok("dir/.wav"));
    assert!(!wav_path_ok("abc.wav/.."));
    assert!(!wav_path_ok("abc"));
    assert!(!wav_path_ok(""));
    assert!(!wav_path_ok("/"));
    assert!(!wav_path_ok("abc.mp3"));
}

#[test]
fn wav_extension_agrees_with_std_path() {
    for p in ["a.wav", "b/c.wav", "x.wav/.", "d/.wav", "e.", "f..wav", "/g/h", "..", "i.wav/"] {
        let std_ok = std::path::Path::new(p).extension().map(|e| e == "wav").unwrap_or(false);
        assert_eq!(wav_path_ok(p), std_ok, "{}", p);
    }
}

#[test]
fn cdtext_fields() {
    assert_eq!(cdtext_str("Say \"Hi\""), "\"Say 'Hi'\"");
    let long: String = std::iter::repeat('x').take(200).collect();
    let field = cdtext_str(&long);
    assert_eq!(field.chars().count(), 162);
    assert!(field.starts_with('"') && field.ends_with('"'));
}

#[test]
fn toc_paths_are_quoted() {
    assert_eq!(toc_quote("/tmp/a \"b\".wav"), "\"/tmp/a 'b'.wav\"");
}

#[test]
fn toc_with_album_and_tracks() {
    let tracks = vec![
        bt("/m/a.wav", "Song A", "Artist A", None),
        bt("/m/b.wav", "Song B", "Artist B", Some("Album X")),
    ];
    let toc = build_toc(&tracks, 1);
    let expected = "CD_DA\n\nCD_TEXT {\n  LANGUAGE_MAP {\n    0 : EN\n  }\n  LANGUAGE 0 {\n    TITLE \"Album X\"\n    PERFORMER \"Various Artists\"\n  }\n}\n\n\
TRACK AUDIO\nCD_TEXT {\n  LANGUAGE 0 {\n    TITLE \"Song A\"\n    PERFORMER \"Artist A\"\n  }\n}\nFILE \"/m/a.wav\" 0\n\n\
TRACK AUDIO\nCD_TEXT {\n  LANGUAGE 0 {\n    TITLE \"Song B\"\n    PERFORMER \"Artist B\"\n  }\n}\nFILE \"/m/b.wav\" 0\n\n";
    assert_eq!(toc, expected);
}

#[test]
fn toc_without_album_uses_disc_label() {
    let toc = build_toc(&vec![bt("x.wav", "T", "A", None)], 3);
    assert!(toc.contains("    TITLE \"ytmusicdw disc 3\"\n"));
    let empty = build_toc(&vec![], 2);
    assert!(empty.ends_with("  }\n}\n\n"));
    assert!(empty.contains("ytmusicdw disc 2"));
}

#[test]
fn toc_names_and_messages() {
    assert_eq!(toc_file_name(1, 4242), "ytmusicdw-disc1-4242.toc");
    assert_eq!(
        burn_start_message(12),
        "Burning 12 track(s) with cdrdao (CD-Text included; insert a blank CD-R first)..."
    );
}

#[test]
fn scanbus_output() {
    assert!(scanbus_lists_recorder("0,0,0 : 'ASUS' 'DRW-24D5MT' CD-R/RW"));
    assert!(scanbus_lists_recorder("stderr line\n1,0,0 'HL' 'BD-RE' DVD\n"));
    assert!(!scanbus_lists_recorder("Cdrdao version 1.2.4\nno devices found\n"));
}

#[test]
fn probe_output() {
    assert!(recorder_present("1\r\n"));
    assert!(recorder_present("  +2 "));
    assert!(!recorder_present("0"));
    assert!(!recorder_present("-1"));
    assert!(!recorder_present(""));
    assert!(!recorder_present("abc"));
    assert!(!recorder_present("1 2"));
    assert!(!recorder_present("+"));
    assert!(!recorder_present("99999999999999999999"));
    assert!(recorder_present("9223372036854775807"));
    assert!(!recorder_present("9223372036854775808"));
}

#[test]
fn probe_agrees_with_std_parse() {
    for s in ["3", " 07 ", "-0", "+", "x1", "12a", "9223372036854775807", "9223372036854775808", "\u{a0}5\u{3000}"] {
        let std: i64 = s.trim().parse().unwrap_or(0);
        assert_eq!(recorder_present(s), std > 0, "{:?}", s);
    }
}

#[test]
fn tracklist_lines() {
    let t = tracklist_text(&vec![bt("a", "Song", "Band", Some("LP")), bt("b", "Other", "Solo", None)], 1);
    let expected = format!(
        "ytmusicdw \u{2014} disc 1 tracklist\n{}\n\n 1. Song \u{2014} Band [LP]\n 2. Other \u{2014} Solo\n",
        "-".repeat(32)
    );
    assert_eq!(t, expected);
}

#[test]
fn raw_names_and_joined_paths() {
    assert_eq!(raw_track_name(7), "track_007.raw");
    assert_eq!(raw_track_name(1234), "track_1234.raw");
    assert_eq!(join_track_files(&vec!["a".to_string(), "b".to_string(), "c".to_string()]), "a,b,c");
    assert_eq!(join_track_files(&vec![]), "");
    assert_eq!(handoff_message(1, 2), "Handing disc 1/2 to Windows IMAPI2 (this can take a few minutes)...");
}

#[test]
fn pcm_bytes_are_little_endian() {
    let samples: Vec<i16> = vec![0, 1, -1, 0x1234, i16::MIN, i16::MAX];
    let mut out = vec![9u8];
    push_pcm_le(&mut out, &samples);
    let mut expected = vec![9u8];
    for s in &samples {
        expected.extend_from_slice(&s.to_le_bytes());
    }
    assert_eq!(out, expected);
    for (i, s) in samples.iter().enumerate() {
        let back = i16::from_le_bytes([out[1 + 2 * i], out[2 + 2 * i]]);
        assert_eq!(back, *s);
    }
}

#[test]
fn scanbus_agrees_with_line_by_line_search() {
    for out in ["", "\n", "x\r\nCD-R\r\n", "CD\n-R", "D\rVD", "0,1,0: DVD-RW\r", "CD/DVD writer", "C\nD\n-\nR"] {
        let by_line = out.lines().any(|l| l.contains("CD-R") || l.contains("DVD") || l.contains("CD/DVD"));
        assert_eq!(scanbus_lists_recorder(out), by_line, "{:?}", out);
    }
}
