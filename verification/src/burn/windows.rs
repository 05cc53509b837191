//! IMAPI2 input: the recorder probe, raw PCM tracks, the argument list for
//! the burn script, and the printable tracklist that stands in for CD-Text.

use vstd::prelude::*;
use super::{BurnTrack, BurnTrackModel, burn_tracks_view};
use crate::text::{strings_view, chars_of, decimal, pad_left, push_char, push_decimal, push_decimal_padded, push_repeat, repeat_char, trim, trimmed};

verus! {

/// Whether `c` is an ASCII digit.
pub open spec fn is_digit(c: char) -> bool {
    '0' <= c && c <= '9'
}

/// The value of a string of ASCII digits.
pub open spec fn digits_value(s: Seq<char>) -> int
    decreases s.len(),
{
    if s.len() == 0 {
        0
    } else {
        10 * digits_value(s.drop_last()) + (s.last() as int - '0' as int)
    }
}

/// Every character of `s` is an ASCII digit.
pub open spec fn all_digits(s: Seq<char>) -> bool {
    forall|i: int| 0 <= i < s.len() ==> is_digit(#[trigger] s[i])
}

/// The digits after an optional sign.
pub open spec fn unsigned_part(s: Seq<char>) -> Seq<char> {
    if s.len() > 0 && (s[0] == '-' || s[0] == '+') {
        s.drop_first()
    } else {
        s
    }
}

/// What `i64::from_str` gives: an optional `+` or `-`, then one or more
/// ASCII digits, with a value in range; nothing else is accepted.
pub open spec fn parse_i64(s: Seq<char>) -> Option<int> {
    let body = unsigned_part(s);
    if body.len() == 0 || !all_digits(body) {
        None
    } else {
        let v = if s[0] == '-' { -digits_value(body) } else { digits_value(body) };
        if i64::MIN <= v <= i64::MAX {
            Some(v)
        } else {
            None
        }
    }
}

/// The probe reports at least one recorder: its output, trimmed, is a
/// positive `i64` (anything unparsable counts as zero).
pub open spec fn probe_reports_recorder(out: Seq<char>) -> bool {
    match parse_i64(trim(out)) {
        Some(n) => n > 0,
        None => false,
    }
}

proof fn lemma_digits_value_nonneg(s: Seq<char>)
    requires
        forall|i: int| 0 <= i < s.len() ==> is_digit(#[trigger] s[i]),
    ensures
        digits_value(s) >= 0,
    decreases s.len(),
{
    if s.len() > 0 {
        lemma_digits_value_nonneg(s.drop_last());
    }
}

proof fn lemma_digits_value_mono(s: Seq<char>, i: int)
    requires
        0 <= i <= s.len(),
        forall|k: int| 0 <= k < s.len() ==> is_digit(#[trigger] s[k]),
    ensures
        digits_value(s.take(i)) <= digits_value(s),
    decreases s.len() - i,
{
    if i < s.len() {
        let w = s.drop_last();
        assert(w.take(i) =~= s.take(i));
        lemma_digits_value_mono(w, i);
        lemma_digits_value_nonneg(w);
    } else {
        assert(s.take(i) =~= s);
    }
}

proof fn lemma_parse_some(s: Seq<char>)
    requires
        parse_i64(s) is Some,
    ensures
        unsigned_part(s).len() > 0,
        all_digits(unsigned_part(s)),
        parse_i64(s) == Some(
            if s[0] == '-' {
                -digits_value(unsigned_part(s))
            } else {
                digits_value(unsigned_part(s))
            },
        ),
{
}

/// Reads the IMAPI2 probe's output (the number of recorders Windows sees)
/// and tells whether a recorder is present.
pub fn recorder_present(probe_stdout: &str) -> (b: bool)
    ensures
        b == probe_reports_recorder(probe_stdout@),
{
    let t = trimmed(probe_stdout);
    let v = chars_of(t.as_str());
    let n = v.len();
    let ghost s = v@;
    assert(s == trim(probe_stdout@));
    if n == 0 {
        return false;
    }
    if v[0] == '-' {
        proof {
            if parse_i64(s) is Some {
                lemma_parse_some(s);
                lemma_digits_value_nonneg(unsigned_part(s));
            }
        }
        return false;
    }
    let start: usize = if v[0] == '+' { 1 } else { 0 };
    let ghost body = unsigned_part(s);
    assert(body =~= s.skip(start as int));
    if start == n {
        return false;
    }
    let mut acc: u64 = 0;
    let mut i = start;
    while i < n
        invariant
            start <= i <= n == v@.len() == s.len(),
            v@ == s,
            s == trim(probe_stdout@),
            s[0] != '-',
            body == s.skip(start as int),
            body == unsigned_part(s),
            body.len() == n - start,
            forall|k: int| 0 <= k < i - start ==> is_digit(#[trigger] body[k]),
            acc == digits_value(body.take(i - start)),
            acc <= i64::MAX,
        decreases n - i,
    {
        let c = v[i];
        assert(body[i - start] == c);
        if !('0' <= c && c <= '9') {
            proof {
                if parse_i64(s) is Some {
                    lemma_parse_some(s);
                    assert(is_digit(body[i - start]));
                    assert(false);
                }
            }
            return false;
        }
        let d = (c as u32 - '0' as u32) as u64;
        assert(body.take(i - start + 1).drop_last() =~= body.take(i - start));
        if acc > (9223372036854775807u64 - d) / 10 {
            proof {
                let m = 9223372036854775807int;
                assert(10 * acc + d > m) by (nonlinear_arith)
                    requires
                        acc > (m - d) / 10,
                        0 <= d <= 9,
                ;
                assert(digits_value(body.take(i - start + 1)) == 10 * acc + d);
                if parse_i64(s) is Some {
                    lemma_parse_some(s);
                    lemma_digits_value_mono(body, i - start + 1);
                }
            }
            return false;
        }
        acc = acc * 10 + d;
        i = i + 1;
    }
    assert(body.take(n - start) =~= body);
    proof {
        lemma_digits_value_nonneg(body);
    }
    acc > 0
}

/// The printable tracklist's header for a disc.
pub open spec fn tracklist_header(disc_num: nat) -> Seq<char> {
    "ytmusicdw \u{2014} disc "@ + decimal(disc_num) + " tracklist\n"@ + repeat_char('-', 32)
        + "\n\n"@
}

/// One line of the printable tracklist: number, title, artist, and the
/// album in brackets when there is one.
pub open spec fn tracklist_line(number: nat, t: BurnTrackModel) -> Seq<char> {
    pad_left(decimal(number), 2, ' ') + ". "@ + t.title + " \u{2014} "@ + t.artist + match t.album {
        Some(a) => " ["@ + a + "]"@,
        None => Seq::empty(),
    } + "\n"@
}

/// The lines for the tracks, numbered from one.
pub open spec fn tracklist_lines(ts: Seq<BurnTrackModel>) -> Seq<char>
    decreases ts.len(),
{
    if ts.len() == 0 {
        Seq::empty()
    } else {
        tracklist_lines(ts.drop_last()) + tracklist_line(ts.len(), ts.last())
    }
}

/// The printable tracklist written next to the downloads, since IMAPI2
/// cannot put CD-Text on the disc.
pub fn tracklist_text(tracks: &Vec<BurnTrack>, disc_num: usize) -> (r: String)
    ensures
        r@ == tracklist_header(disc_num as nat) + tracklist_lines(burn_tracks_view(tracks@)),
{
    let ghost ts = burn_tracks_view(tracks@);
    let mut r = "ytmusicdw \u{2014} disc ".to_owned();
    push_decimal(&mut r, disc_num as u64);
    r.append(" tracklist\n");
    push_repeat(&mut r, '-', 32);
    r.append("\n\n");
    let ghost header = r@;
    assert(header =~= tracklist_header(disc_num as nat));
    let mut i: usize = 0;
    while i < tracks.len()
        invariant
            i <= tracks@.len(),
            ts == burn_tracks_view(tracks@),
            r@ == header + tracklist_lines(ts.take(i as int)),
        decreases tracks@.len() - i,
    {
        let t = &tracks[i];
        let ghost before = r@;
        push_decimal_padded(&mut r, (i + 1) as u64, 2, ' ');
        r.append(". ");
        r.append(t.title.as_str());
        r.append(" \u{2014} ");
        r.append(t.artist.as_str());
        match &t.album {
            Some(a) => {
                r.append(" [");
                r.append(a.as_str());
                r.append("]");
            },
            None => {},
        }
        r.append("\n");
        proof {
            assert(r@ =~= before + tracklist_line((i + 1) as nat, t@));
            assert(ts.take(i + 1).drop_last() =~= ts.take(i as int));
            assert(ts.take(i + 1).last() == ts[i as int]);
        }
        i = i + 1;
    }
    assert(ts.take(i as int) =~= ts);
    r
}

/// The name of the `i`-th raw track file: `track_NNN.raw`.
pub fn raw_track_name(i: usize) -> (n: String)
    ensures
        n@ == "track_"@ + pad_left(decimal(i as nat), 3, '0') + ".raw"@,
{
    let mut n = "track_".to_owned();
    push_decimal_padded(&mut n, i as u64, 3, '0');
    n.append(".raw");
    n
}

/// Paths joined by commas, as the burn script's `-TrackFiles` takes them.
pub open spec fn comma_joined(ps: Seq<Seq<char>>) -> Seq<char>
    decreases ps.len(),
{
    if ps.len() == 0 {
        Seq::empty()
    } else if ps.len() == 1 {
        ps[0]
    } else {
        comma_joined(ps.drop_last()) + seq![','] + ps.last()
    }
}

/// Joins the raw track paths with commas.
pub fn join_track_files(paths: &Vec<String>) -> (r: String)
    ensures
        r@ == comma_joined(strings_view(paths@)),
{
    let ghost ps = strings_view(paths@);
    let mut r = String::new();
    let mut i: usize = 0;
    while i < paths.len()
        invariant
            i <= paths@.len(),
            ps == strings_view(paths@),
            r@ == comma_joined(ps.take(i as int)),
        decreases paths@.len() - i,
    {
        if i > 0 {
            push_char(&mut r, ',');
        }
        r.append(paths[i].as_str());
        proof {
            assert(ps.take(i + 1).drop_last() =~= ps.take(i as int));
            assert(ps.take(i + 1).last() == ps[i as int]);
            if i == 0 {
                assert(ps.take(1)[0] == ps[0]);
            }
        }
        i = i + 1;
        assert(r@ =~= comma_joined(ps.take(i as int)));
    }
    assert(ps.take(i as int) =~= ps);
    r
}

/// A 16-bit sample as the unsigned value of its two's-complement bits.
pub open spec fn sample_bits(s: i16) -> int {
    if s < 0 {
        s + 65536
    } else {
        s as int
    }
}

/// Raw little-endian PCM: each sample's low byte, then its high byte.
pub open spec fn is_pcm_le(samples: Seq<i16>, bytes: Seq<u8>) -> bool {
    &&& bytes.len() == 2 * samples.len()
    &&& forall|i: int|
        0 <= i < samples.len() ==> {
            &&& bytes[2 * i] == sample_bits(#[trigger] samples[i]) % 256
            &&& bytes[2 * i + 1] == sample_bits(samples[i]) / 256
        }
}

/// Appends the samples as raw little-endian 16-bit PCM, the byte stream
/// IMAPI2's Track-At-Once API takes.
pub fn push_pcm_le(out: &mut Vec<u8>, samples: &Vec<i16>)
    requires
        old(out)@.len() + 2 * samples@.len() <= usize::MAX,
    ensures
        final(out)@.take(old(out)@.len() as int) == old(out)@,
        is_pcm_le(samples@, final(out)@.skip(old(out)@.len() as int)),
{
    let ghost start = out@;
    let base = out.len();
    let mut i: usize = 0;
    while i < samples.len()
        invariant
            i <= samples@.len(),
            base == start.len(),
            base + 2 * samples@.len() <= usize::MAX,
            out@.len() == base + 2 * i,
            out@.take(base as int) == start,
            forall|k: int|
                0 <= k < i ==> {
                    &&& out@[base + 2 * k] == sample_bits(#[trigger] samples@[k]) % 256
                    &&& out@[base + 2 * k + 1] == sample_bits(samples@[k]) / 256
                },
        decreases samples@.len() - i,
    {
        let s = samples[i];
        let u: u32 = if s < 0 { (s as i32 + 65536) as u32 } else { s as u32 };
        assert(u == sample_bits(s));
        let ghost prev = out@;
        out.push((u % 256) as u8);
        out.push((u / 256) as u8);
        assert(out@.take(base as int) =~= prev.take(base as int));
        i = i + 1;
    }
    let ghost tail = out@.skip(base as int);
    assert forall|k: int| 0 <= k < samples@.len() implies {
        &&& tail[2 * k] == sample_bits(#[trigger] samples@[k]) % 256
        &&& tail[2 * k + 1] == sample_bits(samples@[k]) / 256
    } by {
        assert(tail[2 * k] == out@[base + 2 * k]);
        assert(tail[2 * k + 1] == out@[base + 2 * k + 1]);
    }
}

/// The progress line shown when the disc goes to IMAPI2.
pub fn handoff_message(disc_num: usize, total_discs: usize) -> (m: String)
    ensures
        m@ == "Handing disc "@ + decimal(disc_num as nat) + seq!['/'] + decimal(total_discs as nat)
            + " to Windows IMAPI2 (this can take a few minutes)..."@,
{
    let mut m = "Handing disc ".to_owned();
    push_decimal(&mut m, disc_num as u64);
    push_char(&mut m, '/');
    push_decimal(&mut m, total_discs as u64);
    m.append(" to Windows IMAPI2 (this can take a few minutes)...");
    m
}

} // verus!
