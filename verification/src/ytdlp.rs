//! Playlist entries as yt-dlp reports them, and what the tool derives from
//! them: the track list, watch URLs, duration labels and safe file names.

use vstd::prelude::*;
use crate::text::{chars_of, decimal, pad_left, push_char, push_decimal, push_decimal_padded, trim, trimmed};

verus! {

/// One playlist entry.
#[derive(Debug)]
pub struct Track {
    pub id: String,
    pub title: String,
    /// Duration in whole seconds; None if yt-dlp couldn't tell us (e.g. live streams).
    pub duration: Option<u64>,
}

/// The abstract value of a [`Track`].
pub struct TrackModel {
    pub id: Seq<char>,
    pub title: Seq<char>,
    pub duration: Option<u64>,
}

impl View for Track {
    type V = TrackModel;

    open spec fn view(&self) -> TrackModel {
        TrackModel { id: self.id@, title: self.title@, duration: self.duration }
    }
}

/// The abstract values of a sequence of tracks.
pub open spec fn tracks_view(v: Seq<Track>) -> Seq<TrackModel> {
    v.map_values(|t: Track| t@)
}

/// The address of a video on YouTube.
pub open spec fn watch_url(id: Seq<char>) -> Seq<char> {
    "https://www.youtube.com/watch?v="@ + id
}

/// `m:ss` for a known duration, `--:--` otherwise.
pub open spec fn duration_text(duration: Option<u64>) -> Seq<char> {
    match duration {
        Some(s) => decimal((s / 60) as nat) + seq![':'] + pad_left(decimal((s % 60) as nat), 2, '0'),
        None => "--:--"@,
    }
}

/// Characters kept as they are in a file name; all others become `_`.
pub open spec fn is_safe_file_char(c: char) -> bool {
    ||| ('a' <= c && c <= 'z')
    ||| ('A' <= c && c <= 'Z')
    ||| ('0' <= c && c <= '9')
    ||| c == '-'
    ||| c == '_'
}

/// An id made safe to use as a file name.
pub open spec fn sanitized(id: Seq<char>) -> Seq<char> {
    id.map_values(|c: char| if is_safe_file_char(c) { c } else { '_' })
}

impl Track {
    /// A copy of this track.
    pub fn duplicate(&self) -> (t: Track)
        ensures
            t@ == self@,
    {
        Track { id: self.id.clone(), title: self.title.clone(), duration: self.duration }
    }

    /// The watch URL of this track.
    pub fn url(&self) -> (u: String)
        ensures
            u@ == watch_url(self.id@),
    {
        let mut u = "https://www.youtube.com/watch?v=".to_owned();
        u.append(self.id.as_str());
        u
    }

    /// The duration as `m:ss`, or `--:--` when it is unknown.
    pub fn duration_label(&self) -> (l: String)
        ensures
            l@ == duration_text(self.duration),
    {
        match self.duration {
            Some(s) => {
                let mut l = String::new();
                push_decimal(&mut l, s / 60);
                push_char(&mut l, ':');
                push_decimal_padded(&mut l, s % 60, 2, '0');
                assert(l@ =~= duration_text(self.duration));
                l
            },
            None => "--:--".to_owned(),
        }
    }

    /// The output template handed to yt-dlp: `<safe id>.%(ext)s`.
    pub fn output_template_name(&self) -> (n: String)
        ensures
            n@ == sanitized(self.id@) + ".%(ext)s"@,
    {
        let mut n = sanitize(self.id.as_str());
        n.append(".%(ext)s");
        n
    }

    /// The file name the transcoded audio ends up under: `<safe id>.wav`.
    pub fn wav_file_name(&self) -> (n: String)
        ensures
            n@ == sanitized(self.id@) + ".wav"@,
    {
        let mut n = sanitize(self.id.as_str());
        n.append(".wav");
        n
    }

    /// The error reported when yt-dlp fails on this track.
    pub fn download_failure_message(&self) -> (m: String)
        ensures
            m@ == "yt-dlp failed to download \""@ + self.title@ + seq!['"'],
    {
        let mut m = "yt-dlp failed to download \"".to_owned();
        m.append(self.title.as_str());
        push_char(&mut m, '"');
        m
    }
}

/// Replaces every character other than ASCII letters, digits, `-` and `_`
/// by `_`, so that an id can name a file.
pub fn sanitize(id: &str) -> (s: String)
    ensures
        s@ == sanitized(id@),
{
    let v = chars_of(id);
    let mut s = String::new();
    let mut i: usize = 0;
    while i < v.len()
        invariant
            i <= v@.len(),
            v@ == id@,
            s@ == sanitized(v@.take(i as int)),
        decreases v@.len() - i,
    {
        let c = v[i];
        let keep = ('a' <= c && c <= 'z') || ('A' <= c && c <= 'Z') || ('0' <= c && c <= '9')
            || c == '-' || c == '_';
        push_char(&mut s, if keep { c } else { '_' });
        i = i + 1;
        assert(s@ =~= sanitized(v@.take(i as int)));
    }
    assert(v@.take(i as int) =~= v@);
    s
}

/// One entry of a flat playlist listing, durations already in whole seconds.
pub struct FlatEntry {
    pub id: String,
    pub title: Option<String>,
    pub duration: Option<u64>,
}

/// A flat playlist listing: either `entries`, or a lone video described by
/// its own `id`, `title` and `duration`.
pub struct FlatPlaylist {
    pub entries: Option<Vec<FlatEntry>>,
    pub id: Option<String>,
    pub title: Option<String>,
    pub duration: Option<u64>,
}

/// Why a listing yields no tracks.
#[derive(Debug, Clone, Copy, PartialEq, Eq, Structural)]
pub enum PlaylistError {
    /// Neither entries nor a lone video id.
    NoTracks,
    /// An entry list with nothing in it.
    Empty,
}

impl PlaylistError {
    /// The message shown for this error.
    pub fn message(&self) -> (m: &'static str)
        ensures
            m@ == match self {
                PlaylistError::NoTracks => "that link didn't resolve to any tracks"@,
                PlaylistError::Empty => "playlist is empty (or every entry was unavailable)"@,
            },
    {
        match self {
            PlaylistError::NoTracks => "that link didn't resolve to any tracks",
            PlaylistError::Empty => "playlist is empty (or every entry was unavailable)",
        }
    }
}

/// The title used when yt-dlp reports none.
pub open spec fn untitled() -> Seq<char> {
    "(untitled)"@
}

/// The title, or [`untitled`].
pub open spec fn title_or_default(title: Option<String>) -> Seq<char> {
    match title {
        Some(t) => t@,
        None => untitled(),
    }
}

/// The track an entry stands for.
pub open spec fn entry_track(e: FlatEntry) -> TrackModel {
    TrackModel { id: e.id@, title: title_or_default(e.title), duration: e.duration }
}

/// The tracks a list of entries stands for.
pub open spec fn entries_tracks(es: Seq<FlatEntry>) -> Seq<TrackModel> {
    es.map_values(|e: FlatEntry| entry_track(e))
}

/// The tracks a listing stands for, or why it has none.
pub open spec fn playlist_tracks(p: FlatPlaylist) -> Result<Seq<TrackModel>, PlaylistError> {
    match p.entries {
        Some(es) => if es@.len() == 0 {
            Err(PlaylistError::Empty)
        } else {
            Ok(entries_tracks(es@))
        },
        None => match p.id {
            Some(id) => Ok(
                seq![TrackModel { id: id@, title: title_or_default(p.title), duration: p.duration }],
            ),
            None => Err(PlaylistError::NoTracks),
        },
    }
}

fn title_or_untitled(title: Option<String>) -> (t: String)
    ensures
        t@ == title_or_default(title),
{
    match title {
        Some(t) => t,
        None => "(untitled)".to_owned(),
    }
}

/// Turns a flat listing into the track list: every entry in order, or the
/// lone video; an empty or missing listing is an error.
pub fn tracks_from_playlist(p: FlatPlaylist) -> (res: Result<Vec<Track>, PlaylistError>)
    ensures
        match (res, playlist_tracks(p)) {
            (Ok(v), Ok(s)) => tracks_view(v@) == s,
            (Err(e), Err(f)) => e == f,
            _ => false,
        },
{
    match p.entries {
        Some(entries) => {
            if entries.len() == 0 {
                return Err(PlaylistError::Empty);
            }
            let ghost es = entries@;
            let mut out: Vec<Track> = Vec::new();
            for e in it: entries
                invariant
                    it.seq() == es,
                    tracks_view(out@) == entries_tracks(es.take(it.index() as int)),
            {
                let ghost e0 = e;
                let ghost k = it.index() as int;
                let ghost prev = out@;
                assert(e0 == es[k]);
                let t = Track { id: e.id, title: title_or_untitled(e.title), duration: e.duration };
                out.push(t);
                proof {
                    let l = tracks_view(out@);
                    let r = entries_tracks(es.take(k + 1));
                    assert(tracks_view(prev).len() == prev.len());
                    assert(l.len() == k + 1 && r.len() == k + 1);
                    assert forall|i: int| 0 <= i < k + 1 implies l[i] == r[i] by {
                        if i < k {
                            assert(tracks_view(prev)[i] == entries_tracks(es.take(k))[i]);
                        }
                    }
                    assert(l =~= r);
                }
            }
            assert(es.take(es.len() as int) =~= es);
            Ok(out)
        },
        None => match p.id {
            Some(id) => {
                let t = Track { id, title: title_or_untitled(p.title), duration: p.duration };
                let mut out: Vec<Track> = Vec::new();
                out.push(t);
                assert(tracks_view(out@) =~= seq![t@]);
                Ok(out)
            },
            None => Err(PlaylistError::NoTracks),
        },
    }
}

/// The error reported when yt-dlp cannot read a link, quoting its
/// diagnostics without surrounding whitespace.
pub fn read_failure_message(stderr: &str) -> (m: String)
    ensures
        m@ == "yt-dlp failed to read that link:\n"@ + trim(stderr@),
{
    let mut m = "yt-dlp failed to read that link:\n".to_owned();
    let t = trimmed(stderr);
    m.append(t.as_str());
    m
}

} // verus!
