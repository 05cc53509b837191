//! cdrdao input: a `.toc` file with a real CD-TEXT block (disc and
//! per-track TITLE/PERFORMER), and reading cdrdao's bus scan.

use vstd::prelude::*;
use super::{BurnTrack, BurnTrackModel, burn_tracks_view};
use crate::text::{
    contains, contains_str, occurs_at, decimal, first_chars, push_char, push_decimal, replace_char,
    replaced_char, take_chars,
};

verus! {

/// The longest CD-Text field the tool writes, in characters.
pub const CDTEXT_MAX_CHARS: usize = 160;

/// A CD-Text field: the first [`CDTEXT_MAX_CHARS`] characters, double quotes
/// turned into single quotes, wrapped in double quotes.
pub open spec fn cdtext(s: Seq<char>) -> Seq<char> {
    seq!['"'] + replace_char(take_chars(s, CDTEXT_MAX_CHARS as nat), '"', '\'') + seq!['"']
}

/// A file path as a TOC string: double quotes turned into single quotes,
/// wrapped in double quotes.
pub open spec fn toc_path(p: Seq<char>) -> Seq<char> {
    seq!['"'] + replace_char(p, '"', '\'') + seq!['"']
}

/// The first album named by any track, front to back.
pub open spec fn first_album(ts: Seq<BurnTrackModel>) -> Option<Seq<char>>
    decreases ts.len(),
{
    if ts.len() == 0 {
        None
    } else if ts[0].album is Some {
        ts[0].album
    } else {
        first_album(ts.drop_first())
    }
}

/// The disc title: the first album on the disc, else a generic label.
pub open spec fn disc_title(ts: Seq<BurnTrackModel>, disc_num: nat) -> Seq<char> {
    match first_album(ts) {
        Some(a) => a,
        None => "ytmusicdw disc "@ + decimal(disc_num),
    }
}

/// The TOC lines before the first track.
pub open spec fn toc_header(title: Seq<char>) -> Seq<char> {
    "CD_DA\n\n"@ + "CD_TEXT {\n  LANGUAGE_MAP {\n    0 : EN\n  }\n  LANGUAGE 0 {\n"@
        + "    TITLE "@ + cdtext(title) + "\n"@ + "    PERFORMER "@ + cdtext("Various Artists"@)
        + "\n"@ + "  }\n}\n\n"@
}

/// The TOC lines for one track.
pub open spec fn toc_track(t: BurnTrackModel) -> Seq<char> {
    "TRACK AUDIO\n"@ + "CD_TEXT {\n  LANGUAGE 0 {\n"@ + "    TITLE "@ + cdtext(t.title) + "\n"@
        + "    PERFORMER "@ + cdtext(t.artist) + "\n"@ + "  }\n}\n"@ + "FILE "@ + toc_path(t.path)
        + " 0\n\n"@
}

/// The TOC lines for all tracks, in order.
pub open spec fn toc_tracks(ts: Seq<BurnTrackModel>) -> Seq<char>
    decreases ts.len(),
{
    if ts.len() == 0 {
        Seq::empty()
    } else {
        toc_tracks(ts.drop_last()) + toc_track(ts.last())
    }
}

/// A whole cdrdao TOC for a disc.
pub open spec fn toc(ts: Seq<BurnTrackModel>, disc_num: nat) -> Seq<char> {
    toc_header(disc_title(ts, disc_num)) + toc_tracks(ts)
}

/// Truncates a CD-Text field so a very long title can't break the encoder,
/// and quotes it.
pub fn cdtext_str(s: &str) -> (r: String)
    ensures
        r@ == cdtext(s@),
{
    let truncated = first_chars(s, CDTEXT_MAX_CHARS);
    let inner = replaced_char(truncated.as_str(), '"', '\'');
    let mut r = String::new();
    push_char(&mut r, '"');
    r.append(inner.as_str());
    push_char(&mut r, '"');
    assert(r@ =~= cdtext(s@));
    r
}

/// Quotes a file path for a TOC `FILE` line.
pub fn toc_quote(p: &str) -> (r: String)
    ensures
        r@ == toc_path(p@),
{
    let inner = replaced_char(p, '"', '\'');
    let mut r = String::new();
    push_char(&mut r, '"');
    r.append(inner.as_str());
    push_char(&mut r, '"');
    assert(r@ =~= toc_path(p@));
    r
}

proof fn lemma_first_album_skip(ts: Seq<BurnTrackModel>, i: int)
    requires
        0 <= i <= ts.len(),
        forall|k: int| 0 <= k < i ==> ts[k].album is None,
    ensures
        first_album(ts) == first_album(ts.skip(i)),
    decreases i,
{
    if i > 0 {
        assert(ts.drop_first().skip(i - 1) =~= ts.skip(i));
        lemma_first_album_skip(ts.drop_first(), i - 1);
    } else {
        assert(ts.skip(0) =~= ts);
    }
}

/// The disc title for a list of tracks.
fn disc_title_of(tracks: &Vec<BurnTrack>, disc_num: usize) -> (t: String)
    ensures
        t@ == disc_title(burn_tracks_view(tracks@), disc_num as nat),
{
    let ghost ts = burn_tracks_view(tracks@);
    let mut i: usize = 0;
    while i < tracks.len()
        invariant
            i <= tracks@.len(),
            ts == burn_tracks_view(tracks@),
            forall|k: int| 0 <= k < i ==> ts[k].album is None,
        decreases tracks@.len() - i,
    {
        match &tracks[i].album {
            Some(a) => {
                proof {
                    lemma_first_album_skip(ts, i as int);
                    assert(ts.skip(i as int)[0] == ts[i as int]);
                }
                return a.clone();
            },
            None => {
                assert(ts[i as int].album is None);
            },
        }
        i = i + 1;
    }
    proof {
        lemma_first_album_skip(ts, i as int);
        assert(ts.skip(i as int).len() == 0);
    }
    let mut t = "ytmusicdw disc ".to_owned();
    push_decimal(&mut t, disc_num as u64);
    t
}

fn push_toc_track(toc: &mut String, t: &BurnTrack)
    ensures
        final(toc)@ == old(toc)@ + toc_track(t@),
{
    let ghost start = toc@;
    toc.append("TRACK AUDIO\n");
    toc.append("CD_TEXT {\n  LANGUAGE 0 {\n");
    toc.append("    TITLE ");
    let title = cdtext_str(t.title.as_str());
    toc.append(title.as_str());
    toc.append("\n");
    toc.append("    PERFORMER ");
    let artist = cdtext_str(t.artist.as_str());
    toc.append(artist.as_str());
    toc.append("\n");
    toc.append("  }\n}\n");
    toc.append("FILE ");
    let path = toc_quote(t.path.as_str());
    toc.append(path.as_str());
    toc.append(" 0\n\n");
    assert(toc@ =~= start + toc_track(t@));
}

/// Builds a cdrdao TOC with a disc-level and per-track CD_TEXT block.
/// cdrdao reads standard WAV files directly (auto-strips the header), so
/// the same CD-spec WAVs used everywhere else work as-is here.
pub fn build_toc(tracks: &Vec<BurnTrack>, disc_num: usize) -> (r: String)
    ensures
        r@ == toc(burn_tracks_view(tracks@), disc_num as nat),
{
    let ghost ts = burn_tracks_view(tracks@);
    let title = disc_title_of(tracks, disc_num);
    let mut r = String::new();
    r.append("CD_DA\n\n");
    r.append("CD_TEXT {\n  LANGUAGE_MAP {\n    0 : EN\n  }\n  LANGUAGE 0 {\n");
    r.append("    TITLE ");
    let t = cdtext_str(title.as_str());
    r.append(t.as_str());
    r.append("\n");
    r.append("    PERFORMER ");
    let va = cdtext_str("Various Artists");
    r.append(va.as_str());
    r.append("\n");
    r.append("  }\n}\n\n");
    let ghost header = r@;
    assert(header =~= toc_header(disc_title(ts, disc_num as nat)));
    let mut i: usize = 0;
    while i < tracks.len()
        invariant
            i <= tracks@.len(),
            ts == burn_tracks_view(tracks@),
            r@ == header + toc_tracks(ts.take(i as int)),
        decreases tracks@.len() - i,
    {
        push_toc_track(&mut r, &tracks[i]);
        proof {
            assert(ts.take(i + 1).drop_last() =~= ts.take(i as int));
            assert(ts.take(i + 1).last() == ts[i as int]);
        }
        i = i + 1;
        assert(r@ =~= header + toc_tracks(ts.take(i as int)));
    }
    assert(ts.take(i as int) =~= ts);
    r
}

/// The name of the TOC file for a disc, unique per process.
pub fn toc_file_name(disc_num: usize, process_id: u32) -> (n: String)
    ensures
        n@ == "ytmusicdw-disc"@ + decimal(disc_num as nat) + seq!['-'] + decimal(process_id as nat)
            + ".toc"@,
{
    let mut n = "ytmusicdw-disc".to_owned();
    push_decimal(&mut n, disc_num as u64);
    push_char(&mut n, '-');
    push_decimal(&mut n, process_id as u64);
    n.append(".toc");
    n
}

/// The progress line shown when cdrdao starts writing.
pub fn burn_start_message(track_count: usize) -> (m: String)
    ensures
        m@ == "Burning "@ + decimal(track_count as nat)
            + " track(s) with cdrdao (CD-Text included; insert a blank CD-R first)..."@,
{
    let mut m = "Burning ".to_owned();
    push_decimal(&mut m, track_count as u64);
    m.append(" track(s) with cdrdao (CD-Text included; insert a blank CD-R first)...");
    m
}

/// How many characters of `s` come before its first `c` (all of them when
/// there is none).
pub open spec fn chars_before(s: Seq<char>, c: char) -> nat
    decreases s.len(),
{
    if s.len() == 0 || s[0] == c {
        0
    } else {
        1 + chars_before(s.drop_first(), c)
    }
}

/// A line without the `\r` of a `\r\n` ending.
pub open spec fn strip_cr(l: Seq<char>) -> Seq<char> {
    if l.len() > 0 && l.last() == '\r' {
        l.drop_last()
    } else {
        l
    }
}

/// The lines of a text as `str::lines` yields them: split at `\n`, a `\r`
/// before it dropped, no empty line after a final `\n`.
pub open spec fn text_lines(s: Seq<char>) -> Seq<Seq<char>>
    decreases s.len(),
{
    if s.len() == 0 {
        Seq::empty()
    } else {
        let n = chars_before(s, '\n');
        if n >= s.len() {
            seq![s]
        } else {
            seq![strip_cr(s.take(n as int))] + text_lines(s.skip(n as int + 1))
        }
    }
}

/// Some line of `s` holds `pat`.
pub open spec fn some_line_contains(s: Seq<char>, pat: Seq<char>) -> bool {
    exists|k: int| 0 <= k < text_lines(s).len() && contains(#[trigger] text_lines(s)[k], pat)
}

/// `pat` holds neither a line feed nor a carriage return.
pub open spec fn single_line(pat: Seq<char>) -> bool {
    forall|i: int| 0 <= i < pat.len() ==> #[trigger] pat[i] != '\n' && pat[i] != '\r'
}

proof fn lemma_chars_before(s: Seq<char>, c: char)
    ensures
        chars_before(s, c) <= s.len(),
        forall|i: int| 0 <= i < chars_before(s, c) ==> #[trigger] s[i] != c,
        chars_before(s, c) < s.len() ==> s[chars_before(s, c) as int] == c,
    decreases s.len(),
{
    if s.len() > 0 && s[0] != c {
        lemma_chars_before(s.drop_first(), c);
        assert forall|i: int| 0 <= i < chars_before(s, c) implies #[trigger] s[i] != c by {
            if i > 0 {
                assert(s[i] == s.drop_first()[i - 1]);
            }
        }
    }
}

proof fn lemma_contains_split(a: Seq<char>, b: Seq<char>, pat: Seq<char>)
    requires
        single_line(pat),
        pat.len() > 0,
    ensures
        contains(a + seq!['\n'] + b, pat) <==> contains(a, pat) || contains(b, pat),
{
    let s = a + seq!['\n'] + b;
    let m = pat.len() as int;
    if contains(s, pat) {
        let i = choose|i: int| occurs_at(s, pat, i);
        if i + m <= a.len() {
            assert(s.subrange(i, i + m) =~= a.subrange(i, i + m));
            assert(occurs_at(a, pat, i));
        } else if i > a.len() {
            let j = i - a.len() - 1;
            assert(s.subrange(i, i + m) =~= b.subrange(j, j + m));
            assert(occurs_at(b, pat, j));
        } else {
            let k = a.len() - i;
            assert(s.subrange(i, i + m)[k] == s[a.len() as int]);
            assert(pat[k] == '\n');
        }
    }
    if contains(a, pat) {
        let i = choose|i: int| occurs_at(a, pat, i);
        assert(s.subrange(i, i + m) =~= a.subrange(i, i + m));
        assert(occurs_at(s, pat, i));
    }
    if contains(b, pat) {
        let j = choose|j: int| occurs_at(b, pat, j);
        let i = j + a.len() + 1;
        assert(s.subrange(i, i + m) =~= b.subrange(j, j + m));
        assert(occurs_at(s, pat, i));
    }
}

proof fn lemma_contains_strip_cr(l: Seq<char>, pat: Seq<char>)
    requires
        single_line(pat),
        pat.len() > 0,
    ensures
        contains(strip_cr(l), pat) <==> contains(l, pat),
{
    let m = pat.len() as int;
    if l.len() > 0 && l.last() == '\r' {
        let t = l.drop_last();
        if contains(l, pat) {
            let i = choose|i: int| occurs_at(l, pat, i);
            if i + m == l.len() {
                assert(l.subrange(i, i + m)[m - 1] == l.last());
                assert(pat[m - 1] == '\r');
            }
            assert(l.subrange(i, i + m) =~= t.subrange(i, i + m));
            assert(occurs_at(t, pat, i));
        }
        if contains(t, pat) {
            let i = choose|i: int| occurs_at(t, pat, i);
            assert(l.subrange(i, i + m) =~= t.subrange(i, i + m));
            assert(occurs_at(l, pat, i));
        }
    }
}

proof fn lemma_whole_iff_some_line(s: Seq<char>, pat: Seq<char>)
    requires
        single_line(pat),
        pat.len() > 0,
    ensures
        contains(s, pat) <==> some_line_contains(s, pat),
    decreases s.len(),
{
    let lines = text_lines(s);
    if s.len() == 0 {
        if contains(s, pat) {
            let i = choose|i: int| occurs_at(s, pat, i);
        }
    } else {
        let n = chars_before(s, '\n');
        lemma_chars_before(s, '\n');
        if n >= s.len() {
            assert(lines =~= seq![s]);
            if contains(s, pat) {
                assert(contains(lines[0], pat));
            }
        } else {
            let a = s.take(n as int);
            let b = s.skip(n as int + 1);
            assert(s =~= a + seq!['\n'] + b);
            lemma_contains_split(a, b, pat);
            lemma_contains_strip_cr(a, pat);
            lemma_whole_iff_some_line(b, pat);
            let rest = text_lines(b);
            assert(lines =~= seq![strip_cr(a)] + rest);
            if contains(s, pat) {
                if contains(a, pat) {
                    assert(contains(lines[0], pat));
                } else {
                    let k = choose|k: int| 0 <= k < rest.len() && contains(#[trigger] rest[k], pat);
                    assert(lines[k + 1] == rest[k]);
                    assert(contains(lines[k + 1], pat));
                }
            }
            if some_line_contains(s, pat) {
                let k = choose|k: int| 0 <= k < lines.len() && contains(#[trigger] lines[k], pat);
                if k > 0 {
                    assert(lines[k] == rest[k - 1]);
                    assert(some_line_contains(b, pat));
                }
            }
        }
    }
}

/// Whether `cdrdao scanbus` output lists a CD or DVD recorder: some line
/// mentions `CD-R`, `DVD` or `CD/DVD`.
pub fn scanbus_lists_recorder(output: &str) -> (b: bool)
    ensures
        b == (some_line_contains(output@, "CD-R"@) || some_line_contains(output@, "DVD"@)
            || some_line_contains(output@, "CD/DVD"@)),
{
    proof {
        reveal_strlit("CD-R");
        reveal_strlit("DVD");
        reveal_strlit("CD/DVD");
        lemma_whole_iff_some_line(output@, "CD-R"@);
        lemma_whole_iff_some_line(output@, "DVD"@);
        lemma_whole_iff_some_line(output@, "CD/DVD"@);
    }
    contains_str(output, "CD-R") || contains_str(output, "DVD") || contains_str(output, "CD/DVD")
}

} // verus!
