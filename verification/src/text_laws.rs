//! What the rendered and transformed texts mean: decimal digits read back
//! as the number, trimming removes only outer whitespace, the TOC lists
//! every track in order.

use vstd::prelude::*;
use crate::burn::BurnTrackModel;
use crate::burn::linux::{cdtext, first_album, toc_path, toc_track, toc_tracks};
use crate::burn::windows::{all_digits, digits_value, is_digit, probe_reports_recorder};
use crate::text::{decimal, digit_char, is_space, pad_left, trim, trim_end, trim_start};
use crate::ui::{log_tail_lines, selection_summary_text, truncated};
use crate::burn::{after_last, lemma_after_last_props, path_extension, strip_tail};
use crate::ytdlp::{duration_text, is_safe_file_char, sanitized};

verus! {

proof fn lemma_digit_char(d: nat)
    requires
        d < 10,
    ensures
        is_digit(digit_char(d)),
        digit_char(d) as int - '0' as int == d,
        d > 0 ==> digit_char(d) != '0',
{
}

/// The decimal rendering of `n` is all digits, has no leading zero, and
/// reads back as `n`.
pub proof fn law_decimal_reads_back(n: nat)
    ensures
        all_digits(decimal(n)),
        digits_value(decimal(n)) == n,
        decimal(n).len() >= 1,
        decimal(n).len() > 1 ==> decimal(n)[0] != '0',
    decreases n,
{
    if n < 10 {
        lemma_digit_char(n);
        let s = seq![digit_char(n)];
        assert(s.drop_last() =~= Seq::<char>::empty());
        assert(digits_value(Seq::<char>::empty()) == 0);
        assert(digits_value(s) == 10 * digits_value(s.drop_last()) + (s.last() as int - '0' as int));
        assert(decimal(n).len() == 1);
    } else {
        law_decimal_reads_back(n / 10);
        lemma_digit_char(n % 10);
        let s = decimal(n);
        assert(s.drop_last() == decimal(n / 10));
        assert forall|i: int| 0 <= i < s.len() implies is_digit(#[trigger] s[i]) by {
            if i < s.len() - 1 {
                assert(s[i] == decimal(n / 10)[i]);
            }
        }
        assert(s.last() == digit_char(n % 10));
        assert(digits_value(s) == 10 * digits_value(s.drop_last()) + (s.last() as int - '0' as int));
        assert(s[0] == decimal(n / 10)[0]);
        if n / 10 < 10 {
            lemma_digit_char(n / 10);
            assert(decimal(n / 10) == seq![digit_char(n / 10)]);
            assert(n / 10 > 0);
            assert(digit_char(n / 10) != '0');
            assert(s[0] != '0');
        } else {
            law_decimal_reads_back(n / 100);
            assert(decimal(n / 10) == decimal(n / 10 / 10).push(digit_char(n / 10 % 10)));
            assert(decimal(n / 10).len() > 1);
            assert(s[0] != '0');
        }
    }
}

proof fn lemma_digits_no_space(s: Seq<char>)
    requires
        all_digits(s),
    ensures
        trim(s) == s,
{
    if s.len() > 0 {
        assert(is_digit(s[0]));
        assert(is_digit(s.last()));
    }
}

/// The recorder probe reads any count it may print back as that count: a
/// recorder is present exactly when the count is positive.
pub proof fn law_probe_reads_counts(n: nat)
    requires
        n <= i64::MAX,
    ensures
        probe_reports_recorder(decimal(n)) == (n > 0),
{
    law_decimal_reads_back(n);
    lemma_digits_no_space(decimal(n));
    assert(decimal(n)[0] != '-' && decimal(n)[0] != '+') by {
        assert(is_digit(decimal(n)[0]));
    }
}

/// A known duration reads as minutes, a colon, and exactly two digits of
/// seconds, each reading back as its part of the duration.
pub proof fn law_duration_label_reads_back(s: u64)
    ensures
        ({
            let label = duration_text(Some(s));
            let m = decimal((s / 60) as nat);
            let k = m.len() as int;
            &&& label.len() == k + 3
            &&& label.subrange(0, k) == m
            &&& digits_value(m) == s / 60
            &&& label[k] == ':'
            &&& all_digits(label.subrange(k + 1, k + 3))
            &&& digits_value(label.subrange(k + 1, k + 3)) == s % 60
        }),
{
    let label = duration_text(Some(s));
    let m = decimal((s / 60) as nat);
    let k = m.len() as int;
    law_decimal_reads_back((s / 60) as nat);
    let x = (s % 60) as nat;
    law_decimal_reads_back(x);
    let sec = pad_left(decimal(x), 2, '0');
    if x < 10 {
        assert(sec =~= seq!['0', digit_char(x)]);
        lemma_digit_char(x);
        assert(seq!['0', digit_char(x)].drop_last() =~= seq!['0']);
        assert(seq!['0'].drop_last() =~= Seq::<char>::empty());
        assert(digits_value(Seq::<char>::empty()) == 0);
        assert(digits_value(seq!['0']) == 10 * digits_value(Seq::<char>::empty()) + 0);
        assert(digits_value(sec) == 10 * digits_value(seq!['0']) + (digit_char(x) as int - '0' as int));
        assert(digits_value(sec) == x);
    } else {
        lemma_digit_char(x / 10);
        assert(decimal(x / 10) == seq![digit_char(x / 10)]);
        assert(sec.len() == 2);
        assert(sec == decimal(x));
    }
    assert(label =~= m + seq![':'] + sec);
    assert(sec.len() == 2);
    assert(label.len() == k + 3);
    assert(label.subrange(0, k) =~= m);
    assert(label[k] == ':');
    assert(label.subrange(k + 1, k + 3) =~= sec);
    assert(all_digits(sec));
    assert(digits_value(sec) == s % 60);
}

proof fn lemma_trim_start_shape(s: Seq<char>)
    ensures
        trim_start(s).len() <= s.len(),
        trim_start(s) == s.skip(s.len() - trim_start(s).len()),
        forall|i: int| 0 <= i < s.len() - trim_start(s).len() ==> is_space(#[trigger] s[i]),
    decreases s.len(),
{
    if s.len() > 0 && is_space(s[0]) {
        let t = s.drop_first();
        lemma_trim_start_shape(t);
        assert(t.skip(t.len() - trim_start(s).len()) =~= s.skip(s.len() - trim_start(s).len()));
        assert forall|i: int| 0 <= i < s.len() - trim_start(s).len() implies is_space(
            #[trigger] s[i],
        ) by {
            if i > 0 {
                assert(s[i] == t[i - 1]);
            }
        }
    } else {
        assert(s.skip(0) =~= s);
    }
}

proof fn lemma_trim_end_shape(s: Seq<char>)
    ensures
        trim_end(s).len() <= s.len(),
        trim_end(s) == s.take(trim_end(s).len() as int),
        forall|i: int| trim_end(s).len() <= i < s.len() ==> is_space(#[trigger] s[i]),
    decreases s.len(),
{
    if s.len() > 0 && is_space(s.last()) {
        let t = s.drop_last();
        lemma_trim_end_shape(t);
        assert(t.take(trim_end(s).len() as int) =~= s.take(trim_end(s).len() as int));
        assert forall|i: int| trim_end(s).len() <= i < s.len() implies is_space(#[trigger] s[i]) by {
            if i < s.len() - 1 {
                assert(s[i] == t[i]);
            }
        }
    } else {
        assert(s.take(s.len() as int) =~= s);
    }
}

/// Trimming removes whitespace from the two ends and nothing else: the
/// result is a contiguous part of the text, and everything cut off before
/// or after it is whitespace.
pub proof fn law_trim_removes_only_outer_space(s: Seq<char>)
    ensures
        exists|i: int, j: int|
            #![trigger s.subrange(i, j)]
            0 <= i <= j <= s.len() && trim(s) == s.subrange(i, j) && (forall|k: int|
                0 <= k < i ==> is_space(#[trigger] s[k])) && (forall|k: int|
                j <= k < s.len() ==> is_space(#[trigger] s[k])),
{
    let a = trim_start(s);
    lemma_trim_start_shape(s);
    lemma_trim_end_shape(a);
    let i = s.len() - a.len();
    let j = i + trim_end(a).len();
    assert(trim(s) =~= s.subrange(i, j));
    assert forall|k: int| j <= k < s.len() implies is_space(#[trigger] s[k]) by {
        assert(s[k] == a[k - i]);
    }
}

/// A CD-Text field holds the first 160 characters of the text, in order,
/// with each double quote turned into a single quote.
pub proof fn law_cdtext_keeps_text(s: Seq<char>)
    ensures
        ({
            let n = if s.len() <= 160 { s.len() as int } else { 160int };
            &&& cdtext(s).len() == n + 2
            &&& forall|i: int|
                0 <= i < n ==> #[trigger] cdtext(s)[i + 1] == if s[i] == '"' {
                    '\''
                } else {
                    s[i]
                }
        }),
{
}

/// A TOC file path keeps every character of the path, in order, with each
/// double quote turned into a single quote, between double quotes.
pub proof fn law_toc_path_keeps_path(p: Seq<char>)
    ensures
        toc_path(p).len() == p.len() + 2,
        toc_path(p)[0] == '"' && toc_path(p).last() == '"',
        forall|i: int|
            0 <= i < p.len() ==> #[trigger] toc_path(p)[i + 1] == if p[i] == '"' {
                '\''
            } else {
                p[i]
            },
{
}

/// A truncated text starts with the text itself: all of it when it fits,
/// else all but the last kept character, which becomes `…`.
pub proof fn law_truncated_is_prefix(s: Seq<char>, max: nat)
    requires
        max >= 1,
    ensures
        forall|i: int|
            0 <= i < truncated(s, max).len() - 1 ==> #[trigger] truncated(s, max)[i] == s[i],
        s.len() > max ==> truncated(s, max).len() == max && truncated(s, max).last() == '\u{2026}',
{
}

/// Sanitizing keeps every file-safe character where it is.
pub proof fn law_sanitize_keeps_safe_chars(id: Seq<char>)
    ensures
        forall|i: int|
            0 <= i < id.len() && is_safe_file_char(id[i]) ==> #[trigger] sanitized(id)[i] == id[i],
        forall|i: int|
            0 <= i < id.len() && !is_safe_file_char(id[i]) ==> #[trigger] sanitized(id)[i] == '_',
{
}

/// The TOC of two runs of tracks is the TOC of the first followed by that
/// of the second.
pub proof fn law_toc_tracks_concat(a: Seq<BurnTrackModel>, b: Seq<BurnTrackModel>)
    ensures
        toc_tracks(a + b) == toc_tracks(a) + toc_tracks(b),
    decreases b.len(),
{
    if b.len() == 0 {
        assert(a + b =~= a);
        assert(toc_tracks(a) + toc_tracks(b) =~= toc_tracks(a));
    } else {
        assert((a + b).drop_last() =~= a + b.drop_last());
        law_toc_tracks_concat(a, b.drop_last());
        assert(toc_tracks(a + b) =~= toc_tracks(a) + toc_tracks(b));
    }
}

/// One track's TOC is its own block.
pub proof fn law_toc_tracks_single(t: BurnTrackModel)
    ensures
        toc_tracks(seq![t]) == toc_track(t),
{
    assert(seq![t].drop_last() =~= Seq::<BurnTrackModel>::empty());
    assert(toc_tracks(Seq::<BurnTrackModel>::empty()) == Seq::<char>::empty());
    assert(toc_tracks(seq![t]) == toc_tracks(Seq::<BurnTrackModel>::empty()) + toc_track(t));
    assert(toc_tracks(seq![t]) =~= toc_track(t));
}

/// The disc takes the album of the first track that names one; with no
/// album anywhere there is none.
pub proof fn law_first_album(ts: Seq<BurnTrackModel>)
    ensures
        first_album(ts) matches Some(a) ==> exists|i: int|
            0 <= i < ts.len() && #[trigger] ts[i].album == Some(a) && forall|j: int|
                0 <= j < i ==> (#[trigger] ts[j]).album is None,
        first_album(ts) is None ==> forall|i: int| 0 <= i < ts.len() ==> (#[trigger] ts[i]).album is None,
    decreases ts.len(),
{
    if ts.len() > 0 && ts[0].album is None {
        let t = ts.drop_first();
        law_first_album(t);
        if first_album(ts) is Some {
            let i = choose|i: int|
                0 <= i < t.len() && #[trigger] t[i].album == first_album(ts) && forall|j: int|
                    0 <= j < i ==> (#[trigger] t[j]).album is None;
            assert(ts[i + 1] == t[i]);
            assert forall|j: int| 0 <= j < i + 1 implies (#[trigger] ts[j]).album is None by {
                if j > 0 {
                    assert(ts[j] == t[j - 1]);
                }
            }
        } else {
            assert forall|i: int| 0 <= i < ts.len() implies (#[trigger] ts[i]).album is None by {
                if i > 0 {
                    assert(ts[i] == t[i - 1]);
                }
            }
        }
    } else if ts.len() > 0 {
        assert(ts[0].album == first_album(ts));
    }
}


/// A signed count reads as its sign says: `+n` reports a recorder when `n`
/// is positive, `-n` never does.
pub proof fn law_probe_reads_signs(n: nat)
    requires
        n <= i64::MAX,
    ensures
        probe_reports_recorder(seq!['+'] + decimal(n)) == (n > 0),
        !probe_reports_recorder(seq!['-'] + decimal(n)),
{
    law_decimal_reads_back(n);
    let d = decimal(n);
    assert(is_digit(d.last()));
    let plus = seq!['+'] + d;
    let minus = seq!['-'] + d;
    assert(plus.last() == d.last() && minus.last() == d.last());
    assert(trim(plus) == plus);
    assert(trim(minus) == minus);
    assert(plus.drop_first() =~= d);
    assert(minus.drop_first() =~= d);
}

/// A path's extension holds neither `.` nor `/`.
pub proof fn law_extension_shape(p: Seq<char>)
    ensures
        path_extension(p) matches Some(e) ==> forall|i: int|
            0 <= i < e.len() ==> #[trigger] e[i] != '.' && e[i] != '/',
{
    if path_extension(p) is Some {
        let st = strip_tail(p);
        let n = after_last(st, '/');
        let e = after_last(n, '.');
        lemma_after_last_props(st, '/');
        lemma_after_last_props(n, '.');
        assert forall|i: int| 0 <= i < e.len() implies #[trigger] e[i] != '.' && e[i] != '/' by {
            let k = n.len() - e.len() + i;
            assert(e[i] == n[k]);
            assert(n[k] == st[st.len() - n.len() + k]);
        }
    }
}

/// The summary ends by saying whether the selection fits on one CD-R, and
/// starts with how many tracks are selected.
pub proof fn law_summary_says_fit(selected: nat, count: nat, total: nat)
    ensures
        ({
            let t = selection_summary_text(selected, count, total);
            let d = decimal(selected);
            &&& t.subrange(0, d.len() as int) == d
            &&& t[d.len() as int] == '/'
            &&& total <= 4800 ==> t.subrange(t.len() - 4, t.len() as int) == "fits"@
            &&& total > 4800 ==> t.subrange(t.len() - 23, t.len() as int)
                == "OVER 80-min CD-R limit!"@
        }),
{
    reveal_strlit("fits");
    reveal_strlit("OVER 80-min CD-R limit!");
    let t = selection_summary_text(selected, count, total);
    let d = decimal(selected);
    assert(t.subrange(0, d.len() as int) =~= d);
    if total <= 4800 {
        assert(t.subrange(t.len() - 4, t.len() as int) =~= "fits"@);
    } else {
        assert(t.subrange(t.len() - 23, t.len() as int) =~= "OVER 80-min CD-R limit!"@);
    }
}

/// The visible log is its newest lines in order: as many as fit, ending
/// with the newest.
pub proof fn law_log_tail_is_newest(log: Seq<Seq<char>>, height: nat)
    ensures
        ({
            let t = log_tail_lines(log, height);
            &&& t.len() == if log.len() <= height { log.len() } else { height }
            &&& forall|i: int| 0 <= i < t.len() ==> #[trigger] t[i] == log[log.len() - t.len() + i]
        }),
{
}
} // verus!
