//! Track metadata: heuristic inference of artist and title from a display
//! name, and planning of the tag frames written for a track.
use vstd::prelude::*;
use vstd::string::StringExecFns;
use vstd::utf8::encode_utf8;

use crate::text::{
    chars_of, check_ends_with, check_u32_string, ends_with_spec, first_non_space, is_space,
    last_non_space_end, lemma_trim_fixed, parses_as_u32, string_of, sub_chars, trim_chars,
    trim_spec,
};

verus! {

/// The descriptive fields a track can carry; absent fields write no frame.
#[derive(Debug, Clone)]
pub struct TrackMetadata {
    pub title: Option<String>,
    pub artist: Option<String>,
    pub album: Option<String>,
    pub year: Option<String>,
    pub genre: Option<String>,
    pub track_number: Option<String>,
    pub album_artist: Option<String>,
    pub comment: Option<String>,
}

impl Default for TrackMetadata {
    /// A record with every field absent.
    fn default() -> (r: Self)
        ensures
            r.title is None,
            r.artist is None,
            r.album is None,
            r.year is None,
            r.genre is None,
            r.track_number is None,
            r.album_artist is None,
            r.comment is None,
    {
        TrackMetadata {
            title: None,
            artist: None,
            album: None,
            year: None,
            genre: None,
            track_number: None,
            album_artist: None,
            comment: None,
        }
    }
}

// ---------------------------------------------------------------------------
// Artist/title inference
// ---------------------------------------------------------------------------

/// The dash family accepted as an artist/title separator.
pub open spec fn is_dash_char(c: char) -> bool {
    c == '-' || c == '\u{2013}' || c == '\u{2014}'
}

pub open spec fn is_sep_char(c: char, colon: bool) -> bool {
    if colon {
        c == ':'
    } else {
        is_dash_char(c)
    }
}

/// First separator strictly after the start of the string, or -1.
pub open spec fn first_sep_from(s: Seq<char>, colon: bool, k: int) -> int
    decreases s.len() - k,
{
    if k < 1 || k >= s.len() {
        -1
    } else if is_sep_char(s[k], colon) {
        k
    } else {
        first_sep_from(s, colon, k + 1)
    }
}

pub proof fn lemma_first_sep_from(s: Seq<char>, colon: bool, k: int)
    requires
        1 <= k,
    ensures
        first_sep_from(s, colon, k) == -1 || first_sep_from(s, colon, k) >= k,
        first_sep_from(s, colon, k) == -1 ==> forall|j: int|
            k <= j < s.len() ==> !is_sep_char(s[j], colon),
        first_sep_from(s, colon, k) >= 0 ==> k <= first_sep_from(s, colon, k) < s.len()
            && is_sep_char(s[first_sep_from(s, colon, k)], colon) && forall|j: int|
            k <= j < first_sep_from(s, colon, k) ==> !is_sep_char(s[j], colon),
    decreases s.len() - k,
{
    if !(k >= s.len()) && !is_sep_char(s[k], colon) {
        lemma_first_sep_from(s, colon, k + 1);
    }
}

/// Both sides of a candidate split are usable: nonempty, and short enough in
/// bytes that the left side is plausibly an artist name.
pub open spec fn split_accepted(a: Seq<char>, t: Seq<char>) -> bool {
    a.len() > 0 && t.len() > 0 && encode_utf8(a).len() < 100 && encode_utf8(t).len() < 200
}

/// The trimmed halves around the first separator, if the string has one.
pub open spec fn try_split(s: Seq<char>, colon: bool) -> Option<(Seq<char>, Seq<char>)> {
    let k = first_sep_from(s, colon, 1);
    if k < 0 {
        None
    } else {
        Some((trim_spec(s.take(k)), trim_spec(s.skip(k + 1))))
    }
}

/// What inference yields on a display name: an optional artist and a title.
/// The dash family is tried before the colon; a split whose sides fail the
/// acceptance guard falls through; with no accepted split the whole trimmed
/// name is the title.
pub open spec fn infer_spec(title: Seq<char>) -> (Option<Seq<char>>, Seq<char>) {
    let c = trim_spec(title);
    let d = try_split(c, false);
    let e = try_split(c, true);
    if d is Some && split_accepted((d->0).0, (d->0).1) {
        (Some((d->0).0), (d->0).1)
    } else if e is Some && split_accepted((e->0).0, (e->0).1) {
        (Some((e->0).0), (e->0).1)
    } else {
        (None, c)
    }
}

/// Joining an artist and a title with a dash and splitting again gives both
/// back: inference inverts that join whenever the artist holds no separator
/// and neither side starts or ends with whitespace, is empty, or overruns
/// the length guard.  (An artist such as `" a"`, with leading whitespace,
/// comes back trimmed, so the round trip holds only of trimmed inputs.)
pub proof fn lemma_infer_round_trip(a: Seq<char>, t: Seq<char>)
    requires
        a.len() > 0,
        t.len() > 0,
        forall|i: int| 0 <= i < a.len() ==> !is_dash_char(#[trigger] a[i]) && a[i] != ':',
        forall|i: int| 0 <= i < t.len() ==> !is_dash_char(#[trigger] t[i]) && t[i] != ':',
        !is_space(a[0]),
        !is_space(a[a.len() - 1]),
        !is_space(t[0]),
        !is_space(t[t.len() - 1]),
        encode_utf8(a).len() < 100,
        encode_utf8(t).len() < 200,
    ensures
        infer_spec(a + " - "@ + t) == (Some(a), t),
{
    reveal_strlit(" - ");
    let m = " - "@;
    assert(m.len() == 3);
    assert(m[0] == ' ' && m[1] == '-' && m[2] == ' ');
    let s = a + m + t;
    assert(s.len() == a.len() + 3 + t.len());
    assert(forall|i: int| 0 <= i < a.len() ==> s[i] == a[i]);
    assert(forall|i: int| 0 <= i < 3 ==> s[a.len() + i] == m[i]);
    assert(forall|i: int| 0 <= i < t.len() ==> s[a.len() + 3 + i] == t[i]);
    assert(s[0] == a[0]);
    assert(s[s.len() - 1] == t[t.len() - 1]);
    lemma_trim_fixed(s);
    // the first separator is the dash between the two halves
    let k = a.len() as int + 1;
    assert(s[k] == '-');
    lemma_first_sep_from(s, false, 1);
    let f = first_sep_from(s, false, 1);
    if f == -1 {
        assert(!is_sep_char(s[k], false));
        assert(false);
    }
    if f < k {
        if f < a.len() {
            assert(s[f] == a[f]);
            assert(false);
        } else {
            assert(s[f] == ' ');
            assert(false);
        }
    }
    if f > k {
        assert(!is_sep_char(s[k], false));
        assert(false);
    }
    assert(f == k);
    // the left half trims back to the artist
    let la = s.take(k);
    assert(la =~= a + seq![' ']);
    assert(la[0] == a[0]);
    assert(first_non_space(la) == 0);
    assert(la.last() == ' ');
    assert(la.drop_last() =~= a);
    assert(a.last() == a[a.len() - 1]);
    assert(last_non_space_end(a) == a.len());
    assert(last_non_space_end(la) == a.len());
    assert(trim_spec(la) =~= a);
    // the right half trims back to the title
    let rt = s.skip(k + 1);
    assert(rt =~= seq![' '] + t);
    assert(rt[0] == ' ');
    assert(rt.drop_first() =~= t);
    assert(first_non_space(t) == 0);
    assert(first_non_space(rt) == 1);
    assert(rt.last() == t[t.len() - 1]);
    assert(last_non_space_end(rt) == rt.len());
    assert(trim_spec(rt) =~= t);
    // the split is accepted and the dash family is tried first
    let d = try_split(s, false);
    assert(d is Some && (d->0).0 == a && (d->0).1 == t);
    assert(split_accepted(a, t));
    assert(infer_spec(a + " - "@ + t).0 == Some(a));
    assert(infer_spec(a + " - "@ + t).1 == t);
}

fn find_sep(v: &Vec<char>, colon: bool) -> (r: Option<usize>)
    ensures
        r is Some ==> first_sep_from(v@, colon, 1) == r->0 && r->0 < v@.len(),
        r is None ==> first_sep_from(v@, colon, 1) == -1,
{
    let n = v.len();
    let mut k: usize = 1;
    while k < n
        invariant
            n == v@.len(),
            1 <= k,
            first_sep_from(v@, colon, 1) == first_sep_from(v@, colon, k as int),
        decreases n - k,
    {
        let c = v[k];
        let hit = if colon {
            c == ':'
        } else {
            c == '-' || c == '\u{2013}' || c == '\u{2014}'
        };
        if hit {
            return Some(k);
        }
        k = k + 1;
    }
    None
}

/// The trimmed halves around the first separator, as strings, with a flag
/// that tells whether the acceptance guard passes.
fn split_exec(v: &Vec<char>, colon: bool) -> (r: Option<(String, String, bool)>)
    ensures
        r is Some <==> try_split(v@, colon) is Some,
        r is Some ==> {
            let p = try_split(v@, colon)->0;
            (r->0).0@ == p.0 && (r->0).1@ == p.1 && (r->0).2 == split_accepted(p.0, p.1)
        },
{
    let n = v.len();
    match find_sep(v, colon) {
        None => None,
        Some(k) => {
            let left = trim_chars(&sub_chars(v, 0, k));
            let right = trim_chars(&sub_chars(v, k + 1, n));
            proof {
                assert(v@.subrange(0, k as int) =~= v@.take(k as int));
                assert(v@.subrange(k as int + 1, v@.len() as int) =~= v@.skip(k as int + 1));
            }
            let left_s = string_of(&left);
            let right_s = string_of(&right);
            let ok = left.len() > 0 && right.len() > 0 && left_s.as_str().as_bytes().len() < 100
                && right_s.as_str().as_bytes().len() < 200;
            Some((left_s, right_s, ok))
        },
    }
}

/// Splits an `Artist <sep> Title` display name into artist and title, first
/// on the dash family and then on a colon; with no accepted split the whole
/// trimmed name becomes the title and the artist stays unset.  Other fields
/// are never filled here.
pub fn parse_title_for_metadata(title: &str) -> (m: TrackMetadata)
    ensures
        m.artist is Some <==> infer_spec(title@).0 is Some,
        m.artist is Some ==> m.artist->0@ == infer_spec(title@).0->0,
        m.title is Some && m.title->0@ == infer_spec(title@).1,
        m.album is None,
        m.year is None,
        m.genre is None,
        m.track_number is None,
        m.album_artist is None,
        m.comment is None,
{
    let cv = trim_chars(&chars_of(title));
    let mut m = TrackMetadata::default();
    if let Some((artist, song, ok)) = split_exec(&cv, false) {
        if ok {
            m.artist = Some(artist);
            m.title = Some(song);
            return m;
        }
    }
    if let Some((artist, song, ok)) = split_exec(&cv, true) {
        if ok {
            m.artist = Some(artist);
            m.title = Some(song);
            return m;
        }
    }
    m.title = Some(string_of(&cv));
    m
}

/// When the caller supplied no title, inference from the cleaned display
/// name fills the title, and the artist too if it is also missing.  Fields
/// the caller supplied are never overwritten.
pub fn fill_from_title(meta: &mut TrackMetadata, cleaned_name: &str)
    ensures
        old(meta).title is Some ==> *final(meta) == *old(meta),
        old(meta).title is None ==> {
            &&& final(meta).title is Some && final(meta).title->0@ == infer_spec(
                cleaned_name@,
            ).1
            &&& (old(meta).artist is Some ==> final(meta).artist == old(meta).artist)
            &&& (old(meta).artist is None ==> (final(meta).artist is Some <==> infer_spec(
                cleaned_name@,
            ).0 is Some) && (final(meta).artist is Some ==> final(meta).artist->0@ == infer_spec(
                cleaned_name@,
            ).0->0))
        },
        final(meta).album == old(meta).album,
        final(meta).year == old(meta).year,
        final(meta).genre == old(meta).genre,
        final(meta).track_number == old(meta).track_number,
        final(meta).album_artist == old(meta).album_artist,
        final(meta).comment == old(meta).comment,
{
    if meta.title.is_none() {
        let inferred = parse_title_for_metadata(cleaned_name);
        meta.title = inferred.title;
        if meta.artist.is_none() {
            meta.artist = inferred.artist;
        }
    }
}

// ---------------------------------------------------------------------------
// Tag frame planning
// ---------------------------------------------------------------------------

/// Ghost image of one planned tag frame.
pub enum FrameV {
    Text { id: Seq<char>, value: Seq<char> },
    Comment { lang: Seq<char>, description: Seq<char>, text: Seq<char> },
}

/// One tag frame to write: either a text frame or the fixed-language comment.
#[derive(Debug, Clone)]
pub enum TagFrame {
    Text { id: String, value: String },
    Comment { lang: String, description: String, text: String },
}

impl View for TagFrame {
    type V = FrameV;

    open spec fn view(&self) -> FrameV {
        match self {
            TagFrame::Text { id, value } => FrameV::Text { id: id@, value: value@ },
            TagFrame::Comment { lang, description, text } => FrameV::Comment {
                lang: lang@,
                description: description@,
                text: text@,
            },
        }
    }
}

pub open spec fn text_frame(id: Seq<char>, value: Seq<char>) -> FrameV {
    FrameV::Text { id, value }
}

pub open spec fn title_seg(m: TrackMetadata) -> Seq<FrameV> {
    if m.title is Some {
        seq![text_frame("TIT2"@, m.title->0@)]
    } else {
        Seq::empty()
    }
}

pub open spec fn artist_seg(m: TrackMetadata) -> Seq<FrameV> {
    if m.artist is Some {
        seq![text_frame("TPE1"@, m.artist->0@)]
    } else {
        Seq::empty()
    }
}

pub open spec fn album_seg(m: TrackMetadata) -> Seq<FrameV> {
    if m.album is Some {
        seq![text_frame("TALB"@, m.album->0@)]
    } else {
        Seq::empty()
    }
}

pub open spec fn year_seg(m: TrackMetadata) -> Seq<FrameV> {
    if m.year is Some && parses_as_u32(m.year->0@) {
        seq![text_frame("TYER"@, m.year->0@), text_frame("TDOR"@, m.year->0@)]
    } else {
        Seq::empty()
    }
}

pub open spec fn genre_seg(m: TrackMetadata) -> Seq<FrameV> {
    if m.genre is Some {
        seq![text_frame("TCON"@, m.genre->0@)]
    } else {
        Seq::empty()
    }
}

pub open spec fn track_seg(m: TrackMetadata) -> Seq<FrameV> {
    if m.track_number is Some {
        seq![text_frame("TRCK"@, m.track_number->0@)]
    } else {
        Seq::empty()
    }
}

pub open spec fn album_artist_seg(m: TrackMetadata) -> Seq<FrameV> {
    if m.album_artist is Some {
        seq![text_frame("TPE2"@, m.album_artist->0@)]
    } else {
        Seq::empty()
    }
}

pub open spec fn comment_seg(m: TrackMetadata) -> Seq<FrameV> {
    if m.comment is Some {
        seq![
            (FrameV::Comment {
                lang: "eng"@,
                description: "Downloaded from YouTube"@,
                text: m.comment->0@,
            }),
        ]
    } else {
        Seq::empty()
    }
}

/// The exact frames written for a record: one text frame per present field
/// (the year only when it parses as a number, and then twice, as recording
/// year and as original release date), and one fixed-language comment.
pub open spec fn frames_spec(m: TrackMetadata) -> Seq<FrameV> {
    title_seg(m) + artist_seg(m) + album_seg(m) + year_seg(m) + genre_seg(m) + track_seg(m)
        + album_artist_seg(m) + comment_seg(m)
}

fn push_text_frame(frames: &mut Vec<TagFrame>, id: &str, value: &String)
    ensures
        final(frames)@.map_values(|f: TagFrame| f@) == old(frames)@.map_values(
            |f: TagFrame| f@,
        ).push(text_frame(id@, value@)),
{
    frames.push(TagFrame::Text { id: String::from_str(id), value: value.clone() });
    proof {
        assert(final(frames)@.map_values(|f: TagFrame| f@) =~= old(frames)@.map_values(
            |f: TagFrame| f@,
        ).push(text_frame(id@, value@)));
    }
}

/// The ordered list of frames to write for the record.
#[verifier::rlimit(100)]
pub fn plan_tag_frames(m: &TrackMetadata) -> (frames: Vec<TagFrame>)
    ensures
        frames@.map_values(|f: TagFrame| f@) == frames_spec(*m),
{
    let mut frames: Vec<TagFrame> = Vec::new();
    if let Some(title) = &m.title {
        push_text_frame(&mut frames, "TIT2", title);
    }
    proof {
        assert(frames@.map_values(|f: TagFrame| f@) =~= title_seg(*m));
    }
    if let Some(artist) = &m.artist {
        push_text_frame(&mut frames, "TPE1", artist);
    }
    proof {
        assert(frames@.map_values(|f: TagFrame| f@) =~= title_seg(*m) + artist_seg(*m));
    }
    if let Some(album) = &m.album {
        push_text_frame(&mut frames, "TALB", album);
    }
    proof {
        assert(frames@.map_values(|f: TagFrame| f@) =~= title_seg(*m) + artist_seg(*m)
            + album_seg(*m));
    }
    if let Some(year) = &m.year {
        if check_u32_string(&chars_of(year.as_str())) {
            push_text_frame(&mut frames, "TYER", year);
            push_text_frame(&mut frames, "TDOR", year);
        }
    }
    proof {
        assert(frames@.map_values(|f: TagFrame| f@) =~= title_seg(*m) + artist_seg(*m)
            + album_seg(*m) + year_seg(*m));
    }
    if let Some(genre) = &m.genre {
        push_text_frame(&mut frames, "TCON", genre);
    }
    proof {
        assert(frames@.map_values(|f: TagFrame| f@) =~= title_seg(*m) + artist_seg(*m)
            + album_seg(*m) + year_seg(*m) + genre_seg(*m));
    }
    if let Some(track) = &m.track_number {
        push_text_frame(&mut frames, "TRCK", track);
    }
    proof {
        assert(frames@.map_values(|f: TagFrame| f@) =~= title_seg(*m) + artist_seg(*m)
            + album_seg(*m) + year_seg(*m) + genre_seg(*m) + track_seg(*m));
    }
    if let Some(album_artist) = &m.album_artist {
        push_text_frame(&mut frames, "TPE2", album_artist);
    }
    proof {
        assert(frames@.map_values(|f: TagFrame| f@) =~= title_seg(*m) + artist_seg(*m)
            + album_seg(*m) + year_seg(*m) + genre_seg(*m) + track_seg(*m) + album_artist_seg(
            *m,
        ));
    }
    if let Some(comment) = &m.comment {
        frames.push(
            TagFrame::Comment {
                lang: String::from_str("eng"),
                description: String::from_str("Downloaded from YouTube"),
                text: comment.clone(),
            },
        );
    }
    proof {
        assert(frames@.map_values(|f: TagFrame| f@) =~= frames_spec(*m));
    }
    frames
}

/// Checks that a tag request points at a usable file: the file must exist
/// and carry the tagger's extension.
pub fn tag_target_check(file_path: &str, file_exists: bool) -> (r: Result<(), String>)
    ensures
        !file_exists ==> r is Err && r->Err_0@ == "File does not exist: "@ + file_path@,
        file_exists && !ends_with_spec(file_path@, ".mp3"@) ==> r is Err && r->Err_0@
            == "File is not an MP3 file"@,
        file_exists && ends_with_spec(file_path@, ".mp3"@) ==> r is Ok,
{
    if !file_exists {
        return Err(String::from_str("File does not exist: ").concat(file_path));
    }
    let pv = chars_of(file_path);
    let suffix = chars_of(".mp3");
    if !check_ends_with(&pv, &suffix) {
        return Err(String::from_str("File is not an MP3 file"));
    }
    Ok(())
}

} // verus!
