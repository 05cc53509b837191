//! Audio-CD burning: what fits on a disc, which files qualify, and the
//! per-platform pieces that turn a track list into burner input.

use vstd::prelude::*;

pub mod linux;
pub mod windows;

verus! {

/// A standard 80-minute CD-R, in seconds.
pub const MAX_CD_SECONDS: u64 = 80 * 60;

/// Whether `total_seconds` of audio fit on one standard CD-R.
pub fn fits_on_one_cd(total_seconds: u64) -> (b: bool)
    ensures
        b == (total_seconds <= MAX_CD_SECONDS),
{
    total_seconds <= MAX_CD_SECONDS
}

/// One track as it goes onto a disc.
pub struct BurnTrack {
    pub path: String,
    pub title: String,
    pub artist: String,
    pub album: Option<String>,
}

/// The abstract value of a [`BurnTrack`].
pub struct BurnTrackModel {
    pub path: Seq<char>,
    pub title: Seq<char>,
    pub artist: Seq<char>,
    pub album: Option<Seq<char>>,
}

impl View for BurnTrack {
    type V = BurnTrackModel;

    open spec fn view(&self) -> BurnTrackModel {
        BurnTrackModel {
            path: self.path@,
            title: self.title@,
            artist: self.artist@,
            album: match self.album {
                Some(a) => Some(a@),
                None => None,
            },
        }
    }
}

/// The abstract values of a list of burn tracks.
pub open spec fn burn_tracks_view(v: Seq<BurnTrack>) -> Seq<BurnTrackModel> {
    v.map_values(|t: BurnTrack| t@)
}

/// `p` with trailing separators and trailing `.` components removed, as
/// `Path::components` skips them.
pub open spec fn strip_tail(p: Seq<char>) -> Seq<char>
    decreases p.len(),
{
    if p.len() > 0 && p.last() == '/' {
        strip_tail(p.drop_last())
    } else if p.len() == 1 && p[0] == '.' {
        strip_tail(p.drop_last())
    } else if p.len() >= 2 && p.last() == '.' && p[p.len() - 2] == '/' {
        strip_tail(p.drop_last())
    } else {
        p
    }
}

/// The part of `p` after its last `c` (all of `p` when there is none).
pub open spec fn after_last(p: Seq<char>, c: char) -> Seq<char>
    decreases p.len(),
{
    if p.len() == 0 {
        p
    } else if p.last() == c {
        Seq::empty()
    } else {
        after_last(p.drop_last(), c).push(p.last())
    }
}

/// The final component of a `/`-separated path, as `Path::file_name`
/// gives it: none for an empty path, the root, or a path ending in `..`.
pub open spec fn file_name(p: Seq<char>) -> Option<Seq<char>> {
    let n = after_last(strip_tail(p), '/');
    if n.len() == 0 || n == seq!['.', '.'] {
        None
    } else {
        Some(n)
    }
}

/// The extension of a file name, as `Path::extension` gives it: the part
/// after the last `.`, unless there is no `.` or the only one leads the name.
pub open spec fn name_extension(n: Seq<char>) -> Option<Seq<char>> {
    let e = after_last(n, '.');
    if e.len() == n.len() || e.len() + 1 == n.len() {
        None
    } else {
        Some(e)
    }
}

/// The extension of a `/`-separated path.
pub open spec fn path_extension(p: Seq<char>) -> Option<Seq<char>> {
    match file_name(p) {
        Some(n) => name_extension(n),
        None => None,
    }
}

proof fn lemma_strip_tail_take(v: Seq<char>, j: int)
    requires
        0 <= j <= v.len(),
        strip_tail(v) == strip_tail(v.take(j)),
        j > 0 && v[j - 1] == '/' || j == 1 && v[0] == '.' || j >= 2 && v[j - 1] == '.' && v[j
            - 2] == '/',
    ensures
        strip_tail(v) == strip_tail(v.take(j - 1)),
{
    assert(v.take(j).drop_last() =~= v.take(j - 1));
}

/// The part after the last `c` of a prefix `v[..j]` is `v[k..j]` when
/// `v[k-1]` is that `c` (or `k` is zero) and no `c` follows it.
pub proof fn lemma_after_last(v: Seq<char>, c: char, k: int, j: int)
    requires
        0 <= k <= j <= v.len(),
        k == 0 || v[k - 1] == c,
        forall|i: int| k <= i < j ==> v[i] != c,
    ensures
        after_last(v.take(j), c) == v.subrange(k, j),
    decreases j - k,
{
    if j == k {
        if k > 0 {
            assert(v.take(j).last() == c);
        }
        assert(after_last(v.take(j), c) =~= v.subrange(k, j));
    } else {
        lemma_after_last(v, c, k, j - 1);
        assert(v.take(j).drop_last() =~= v.take(j - 1));
        assert(v.subrange(k, j) =~= v.subrange(k, j - 1).push(v[j - 1]));
    }
}

/// The length of `v` once [`strip_tail`] has removed what it removes.
fn stripped_len(v: &Vec<char>) -> (j: usize)
    ensures
        j <= v@.len(),
        strip_tail(v@) == v@.take(j as int),
{
    let n = v.len();
    let mut j = n;
    assert(v@.take(n as int) =~= v@);
    while (j > 0 && v[j - 1] == '/') || (j == 1 && v[0] == '.') || (j >= 2 && v[j - 1] == '.'
        && v[j - 2] == '/')
        invariant
            j <= n == v@.len(),
            strip_tail(v@) == strip_tail(v@.take(j as int)),
        decreases j,
    {
        proof {
            lemma_strip_tail_take(v@, j as int);
        }
        j = j - 1;
    }
    j
}

/// Where the part of `v[..j]` after its last `c` begins.
fn start_after_last(v: &Vec<char>, j: usize, c: char) -> (k: usize)
    requires
        j <= v@.len(),
    ensures
        k <= j,
        after_last(v@.take(j as int), c) == v@.subrange(k as int, j as int),
{
    let mut k = j;
    while k > 0 && v[k - 1] != c
        invariant
            k <= j <= v@.len(),
            forall|i: int| k <= i < j ==> v@[i] != c,
        decreases k,
    {
        k = k - 1;
    }
    proof {
        lemma_after_last(v@, c, k as int, j as int);
    }
    k
}

/// Whether a path names a `.wav` file, by its extension with `/` as the
/// separator.
pub fn wav_path_ok(p: &str) -> (b: bool)
    ensures
        b == (path_extension(p@) == Some("wav"@)),
{
    let v = crate::text::chars_of(p);
    let j = stripped_len(&v);
    let k = start_after_last(&v, j, '/');
    let ghost name = v@.subrange(k as int, j as int);
    if j == k || (j - k == 2 && v[k] == '.' && v[k + 1] == '.') {
        assert(name.len() == 0 || name =~= seq!['.', '.']);
        return false;
    }
    assert(name != seq!['.', '.']) by {
        if name == seq!['.', '.'] {
            assert(name[0] == v@[k as int]);
            assert(name[1] == v@[k + 1]);
        }
    }
    assert(file_name(p@) == Some(name));
    let d = start_after_last(&v, j, '.');
    if d <= k {
        // no '.' inside the name
        proof {
            lemma_no_char_in_tail(v@, '.', k as int, d as int, j as int);
        }
        return false;
    }
    proof {
        lemma_tail_within(v@, '.', k as int, d as int, j as int);
    }
    if d == k + 1 {
        return false;
    }
    let ext_ok = j - d == 3 && v[d] == 'w' && v[d + 1] == 'a' && v[d + 2] == 'v';
    proof {
        reveal_strlit("wav");
        let e = v@.subrange(d as int, j as int);
        if ext_ok {
            assert(e =~= "wav"@);
        } else if e == "wav"@ {
            assert(e[0] == v@[d as int]);
            assert(e[1] == v@[d + 1]);
            assert(e[2] == v@[d + 2]);
        }
    }
    ext_ok
}

/// The part after the last `c` is a suffix of `v` holding no `c`, and the
/// character before it (if any) is `c`.
pub proof fn lemma_after_last_props(v: Seq<char>, c: char)
    ensures
        after_last(v, c).len() <= v.len(),
        after_last(v, c) =~= v.subrange(v.len() - after_last(v, c).len(), v.len() as int),
        forall|i: int|
            v.len() - after_last(v, c).len() <= i < v.len() ==> v[i] != c,
        after_last(v, c).len() < v.len() ==> v[v.len() - after_last(v, c).len() - 1] == c,
    decreases v.len(),
{
    if v.len() > 0 && v.last() != c {
        lemma_after_last_props(v.drop_last(), c);
        let w = v.drop_last();
        assert forall|i: int|
            v.len() - after_last(v, c).len() <= i < v.len() implies v[i] != c by {
            if i < v.len() - 1 {
                assert(v[i] == w[i]);
            }
        }
        if after_last(v, c).len() < v.len() {
            assert(v[v.len() - after_last(v, c).len() - 1] == w[w.len() - after_last(w, c).len()
                - 1]);
        }
    }
}

proof fn lemma_no_char_in_tail(v: Seq<char>, c: char, k: int, d: int, j: int)
    requires
        c == '.',
        0 <= d <= k <= j <= v.len(),
        after_last(v.take(j), c) == v.subrange(d, j),
    ensures
        name_extension(v.subrange(k, j)) is None,
{
    let name = v.subrange(k, j);
    lemma_after_last_props(v.take(j), c);
    assert forall|i: int| 0 <= i < name.len() implies name[i] != c by {
        assert(name[i] == v.take(j)[k + i]);
    }
    lemma_after_last_whole(name, c);
}

proof fn lemma_after_last_whole(v: Seq<char>, c: char)
    requires
        forall|i: int| 0 <= i < v.len() ==> v[i] != c,
    ensures
        after_last(v, c) == v,
    decreases v.len(),
{
    if v.len() > 0 {
        lemma_after_last_whole(v.drop_last(), c);
        assert(v.drop_last().push(v.last()) =~= v);
    }
}

proof fn lemma_tail_within(v: Seq<char>, c: char, k: int, d: int, j: int)
    requires
        0 <= k < d <= j <= v.len(),
        after_last(v.take(j), c) == v.subrange(d, j),
    ensures
        after_last(v.subrange(k, j), c) == v.subrange(d, j),
{
    lemma_after_last_props(v.take(j), c);
    let name = v.subrange(k, j);
    assert(v[d - 1] == c) by {
        assert(v.take(j)[d - 1] == v[d - 1]);
    }
    assert forall|i: int| d - k <= i < j - k implies name[i] != c by {
        assert(v.take(j)[k + i] == v[k + i]);
    }
    lemma_after_last(name, c, d - k, j - k);
    assert(name.take(j - k) =~= name);
    assert(name.subrange(d - k, j - k) =~= v.subrange(d, j));
}

} // verus!
