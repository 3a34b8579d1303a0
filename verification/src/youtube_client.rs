//! The compute half of the video client: mapping a search reply onto a
//! video record, planning the downloader tool's argument list, and
//! recovering the produced file's path from the tool's captured output.
use vstd::prelude::*;
use vstd::string::StringExecFns;

use crate::text::{
    chars_of, check_match_at, find_match_from, first_match_from, matches_at, string_of, sub_chars,
};

verus! {

/// What one search hit carries; optional fields stay absent when the reply
/// does not provide them.
#[derive(Debug, Clone)]
pub struct VideoInfo {
    pub id: String,
    pub title: String,
    pub url: String,
    pub thumbnail_url: Option<String>,
    pub uploader: Option<String>,
    pub duration_seconds: Option<u64>,
    pub upload_date: Option<String>,
}

/// The raw fields read from the first line of a search reply, before the
/// fallbacks between alternate key names are applied.
#[derive(Debug, Clone)]
pub struct SearchReply {
    pub id: Option<String>,
    pub title: Option<String>,
    pub thumbnail: Option<String>,
    pub first_thumbnail_url: Option<String>,
    pub uploader: Option<String>,
    pub uploader_name: Option<String>,
    pub duration: Option<u64>,
    pub duration_seconds: Option<u64>,
    pub upload_date: Option<String>,
}

/// Whether the line is valid JSON (the shape a reply must have at all).
pub uninterp spec fn json_reply_ok(line: Seq<char>) -> bool;

/// The string value of the `id` member of the line's JSON, if it is one.
pub uninterp spec fn json_id_of(line: Seq<char>) -> Option<Seq<char>>;

/// The string value of the `title` member, if it is one.
pub uninterp spec fn json_title_of(line: Seq<char>) -> Option<Seq<char>>;

/// The string value of the `thumbnail` member, if it is one.
pub uninterp spec fn json_thumbnail_of(line: Seq<char>) -> Option<Seq<char>>;

/// The string `url` member of the first element of `thumbnails`, if any.
pub uninterp spec fn json_first_thumbnail_of(line: Seq<char>) -> Option<Seq<char>>;

/// The string value of the `uploader` member, if it is one.
pub uninterp spec fn json_uploader_of(line: Seq<char>) -> Option<Seq<char>>;

/// The string value of the `uploader_name` member, if it is one.
pub uninterp spec fn json_uploader_name_of(line: Seq<char>) -> Option<Seq<char>>;

/// The unsigned value of the `duration` member, if it is one.
pub uninterp spec fn json_duration_of(line: Seq<char>) -> Option<u64>;

/// The unsigned value of the `duration_seconds` member, if it is one.
pub uninterp spec fn json_duration_seconds_of(line: Seq<char>) -> Option<u64>;

/// The string value of the `upload_date` member, if it is one.
pub uninterp spec fn json_upload_date_of(line: Seq<char>) -> Option<Seq<char>>;

/// An optional string carries the given optional text.
pub open spec fn opt_like(o: Option<String>, s: Option<Seq<char>>) -> bool {
    (o is Some <==> s is Some) && (o is Some ==> o->0@ == s->0)
}

/// Relies on serde_json::from_str and serde_json's Value indexing with
/// Value::as_str / Value::as_u64: parses the line, which succeeds exactly
/// when it is valid JSON, and reads each member the reply can carry;
/// indexing a missing key or a non-object yields no value rather than a
/// failure, so absent members become absent fields.
#[verifier::external_body]
fn read_search_reply(line: &str) -> (r: Option<SearchReply>)
    ensures
        (r is Some) == json_reply_ok(line@),
        r is Some ==> ({
            let rep = r->0;
            &&& opt_like(rep.id, json_id_of(line@))
            &&& opt_like(rep.title, json_title_of(line@))
            &&& opt_like(rep.thumbnail, json_thumbnail_of(line@))
            &&& opt_like(rep.first_thumbnail_url, json_first_thumbnail_of(line@))
            &&& opt_like(rep.uploader, json_uploader_of(line@))
            &&& opt_like(rep.uploader_name, json_uploader_name_of(line@))
            &&& rep.duration == json_duration_of(line@)
            &&& rep.duration_seconds == json_duration_seconds_of(line@)
            &&& opt_like(rep.upload_date, json_upload_date_of(line@))
        }),
{
    let v: serde_json::Value = serde_json::from_str(line).ok()?;
    let f = |k: &str| v[k].as_str().map(String::from);
    Some(SearchReply {
        id: f("id"),
        title: f("title"),
        thumbnail: f("thumbnail"),
        first_thumbnail_url: v["thumbnails"][0]["url"].as_str().map(String::from),
        uploader: f("uploader"),
        uploader_name: f("uploader_name"),
        duration: v["duration"].as_u64(),
        duration_seconds: v["duration_seconds"].as_u64(),
        upload_date: f("upload_date"),
    })
}

/// Maps the raw reply fields onto a video record: a reply without an id is
/// an error; the title falls back to empty; thumbnail, uploader and
/// duration each fall back to their alternate key; the canonical watch URL
/// is rebuilt from the id.
pub fn video_info_from_reply(reply: SearchReply) -> (r: Result<VideoInfo, String>)
    ensures
        reply.id is None ==> r is Err && r->Err_0@ == "No video ID in response"@,
        reply.id is Some ==> r is Ok && ({
            let v = r->Ok_0;
            &&& v.id@ == reply.id->0@
            &&& v.url@ == "https://www.youtube.com/watch?v="@ + reply.id->0@
            &&& (reply.title is Some ==> v.title@ == reply.title->0@)
            &&& (reply.title is None ==> v.title@ == Seq::<char>::empty())
            &&& v.thumbnail_url == (if reply.thumbnail is Some {
                reply.thumbnail
            } else {
                reply.first_thumbnail_url
            })
            &&& v.uploader == (if reply.uploader is Some {
                reply.uploader
            } else {
                reply.uploader_name
            })
            &&& v.duration_seconds == (if reply.duration is Some {
                reply.duration
            } else {
                reply.duration_seconds
            })
            &&& v.upload_date == reply.upload_date
        }),
{
    let id = match reply.id {
        None => {
            return Err(String::from_str("No video ID in response"));
        },
        Some(id) => id,
    };
    let url = String::from_str("https://www.youtube.com/watch?v=").concat(id.as_str());
    let title = match reply.title {
        Some(t) => t,
        None => String::new(),
    };
    let thumbnail_url = match reply.thumbnail {
        Some(t) => Some(t),
        None => reply.first_thumbnail_url,
    };
    let uploader = match reply.uploader {
        Some(u) => Some(u),
        None => reply.uploader_name,
    };
    let duration_seconds = match reply.duration {
        Some(d) => Some(d),
        None => reply.duration_seconds,
    };
    Ok(
        VideoInfo {
            id,
            title,
            url,
            thumbnail_url,
            uploader,
            duration_seconds,
            upload_date: reply.upload_date,
        },
    )
}

/// The first line of the captured output; a carriage return before the
/// newline belongs to the line ending, not to the line.
pub open spec fn first_line_spec(s: Seq<char>) -> Seq<char> {
    let k = first_match_from(s, seq!['\n'], 0);
    if k < 0 {
        s
    } else if k > 0 && s[k - 1] == '\r' {
        s.take(k - 1)
    } else {
        s.take(k)
    }
}

fn first_line(v: &Vec<char>) -> (r: Vec<char>)
    ensures
        r@ == first_line_spec(v@),
{
    let n = v.len();
    let nl: Vec<char> = vec!['\n'];
    proof {
        assert(nl@ =~= seq!['\n']);
    }
    match find_match_from(v, &nl, 0) {
        Some(k) => {
            proof {
                crate::text::lemma_first_match_from(v@, nl@, 0);
            }
            let mut line = sub_chars(v, 0, k);
            if line.len() > 0 && line[line.len() - 1] == '\r' {
                line.pop();
                proof {
                    assert(line@ =~= v@.take(k - 1));
                }
            }
            line
        },
        None => {
            let line = sub_chars(v, 0, n);
            proof {
                assert(line@ =~= v@);
            }
            line
        },
    }
}

/// Reads the search reply out of the downloader tool's captured standard
/// output: the first line is parsed as JSON and mapped defensively onto a
/// video record.  Empty output means no result; output whose first line is
/// not valid JSON, or whose reply lacks an id, is an error.
pub fn parse_search_output(stdout: &str) -> (r: Result<Option<VideoInfo>, String>)
    ensures
        stdout@.len() == 0 ==> r is Ok && r->Ok_0 is None,
        stdout@.len() > 0 ==> ({
            let fl = first_line_spec(stdout@);
            &&& (!json_reply_ok(fl) ==> r is Err && r->Err_0@
                == "Search reply was not valid JSON"@)
            &&& (json_reply_ok(fl) && json_id_of(fl) is None ==> r is Err && r->Err_0@
                == "No video ID in response"@)
            &&& (json_reply_ok(fl) && json_id_of(fl) is Some ==> r is Ok && r->Ok_0 is Some && ({
                let v = (r->Ok_0)->0;
                &&& v.id@ == json_id_of(fl)->0
                &&& v.url@ == "https://www.youtube.com/watch?v="@ + json_id_of(fl)->0
                &&& (json_title_of(fl) is Some ==> v.title@ == json_title_of(fl)->0)
                &&& (json_title_of(fl) is None ==> v.title@ == Seq::<char>::empty())
                &&& opt_like(
                    v.thumbnail_url,
                    if json_thumbnail_of(fl) is Some {
                        json_thumbnail_of(fl)
                    } else {
                        json_first_thumbnail_of(fl)
                    },
                )
                &&& opt_like(
                    v.uploader,
                    if json_uploader_of(fl) is Some {
                        json_uploader_of(fl)
                    } else {
                        json_uploader_name_of(fl)
                    },
                )
                &&& v.duration_seconds == (if json_duration_of(fl) is Some {
                    json_duration_of(fl)
                } else {
                    json_duration_seconds_of(fl)
                })
                &&& opt_like(v.upload_date, json_upload_date_of(fl))
            }))
        }),
{
    let v = chars_of(stdout);
    if v.len() == 0 {
        return Ok(None);
    }
    let line = first_line(&v);
    let line_s = string_of(&line);
    match read_search_reply(line_s.as_str()) {
        None => Err(String::from_str("Search reply was not valid JSON")),
        Some(reply) => {
            match video_info_from_reply(reply) {
                Ok(info) => Ok(Some(info)),
                Err(e) => Err(e),
            }
        },
    }
}

// ---------------------------------------------------------------------------
// Download planning
// ---------------------------------------------------------------------------

/// The argument list handed to the downloader tool for one audio download:
/// best audio, extracted to MP3 at maximum quality, no playlist, with the
/// output template embedding title and id, and optionally an explicit
/// transcoder location.
pub open spec fn download_args_spec(
    id: Seq<char>,
    output_path: Seq<char>,
    ffmpeg_location: Option<Seq<char>>,
) -> Seq<Seq<char>> {
    let base = seq![
        "--format"@,
        "bestaudio[ext=m4a]/bestaudio[ext=webm]/bestaudio"@,
        "--output"@,
        output_path + "/%(title)s [%(id)s].%(ext)s"@,
        "--extract-audio"@,
        "--audio-format"@,
        "mp3"@,
        "--audio-quality"@,
        "0"@,
        "--no-playlist"@,
        "--no-warnings"@,
        "--progress"@,
    ];
    let tail = seq!["https://www.youtube.com/watch?v="@ + id];
    match ffmpeg_location {
        Some(loc) => base + seq!["--ffmpeg-location"@, loc] + tail,
        None => base + tail,
    }
}

/// Plans the downloader tool's argument list for one download.
pub fn build_download_args(video_id: &str, output_path: &str, ffmpeg_location: Option<&str>) -> (r:
    Vec<String>)
    ensures
        ffmpeg_location is Some ==> r.deep_view() == download_args_spec(
            video_id@,
            output_path@,
            Some(ffmpeg_location->0@),
        ),
        ffmpeg_location is None ==> r.deep_view() == download_args_spec(
            video_id@,
            output_path@,
            None,
        ),
{
    let mut args: Vec<String> = Vec::new();
    args.push(String::from_str("--format"));
    args.push(String::from_str("bestaudio[ext=m4a]/bestaudio[ext=webm]/bestaudio"));
    args.push(String::from_str("--output"));
    args.push(String::from_str(output_path).concat("/%(title)s [%(id)s].%(ext)s"));
    args.push(String::from_str("--extract-audio"));
    args.push(String::from_str("--audio-format"));
    args.push(String::from_str("mp3"));
    args.push(String::from_str("--audio-quality"));
    args.push(String::from_str("0"));
    args.push(String::from_str("--no-playlist"));
    args.push(String::from_str("--no-warnings"));
    args.push(String::from_str("--progress"));
    if let Some(loc) = ffmpeg_location {
        args.push(String::from_str("--ffmpeg-location"));
        args.push(String::from_str(loc));
    }
    args.push(String::from_str("https://www.youtube.com/watch?v=").concat(video_id));
    proof {
        if ffmpeg_location is Some {
            assert(args.deep_view() =~~= download_args_spec(
                video_id@,
                output_path@,
                Some(ffmpeg_location->0@),
            ));
        } else {
            assert(args.deep_view() =~~= download_args_spec(video_id@, output_path@, None));
        }
    }
    args
}

/// The argument list handed to the downloader tool for one search: a JSON
/// dump of up to ten candidates, without downloading anything.
pub open spec fn search_args_spec(query: Seq<char>) -> Seq<Seq<char>> {
    seq![
        "--dump-json"@,
        "--no-download"@,
        "--quiet"@,
        "--no-warnings"@,
        "ytsearch10:"@ + query,
    ]
}

/// Plans the downloader tool's argument list for one search.
pub fn build_search_args(query: &str) -> (r: Vec<String>)
    ensures
        r.deep_view() == search_args_spec(query@),
{
    let mut args: Vec<String> = Vec::new();
    args.push(String::from_str("--dump-json"));
    args.push(String::from_str("--no-download"));
    args.push(String::from_str("--quiet"));
    args.push(String::from_str("--no-warnings"));
    args.push(String::from_str("ytsearch10:").concat(query));
    proof {
        assert(args.deep_view() =~~= search_args_spec(query@));
    }
    args
}

// ---------------------------------------------------------------------------
// Recovering the produced file from the tool's output
// ---------------------------------------------------------------------------

/// The audio suffix ends at position `e` (exclusive).
pub open spec fn mp3_at(s: Seq<char>, e: int) -> bool {
    e >= 4 && e <= s.len() && s[e - 4] == '.' && s[e - 3] == 'm' && s[e - 2] == 'p' && s[e - 1]
        == '3'
}

/// Where the line that position `i` sits on ends: the next newline, or the
/// end of the text.
pub open spec fn eol_from(s: Seq<char>, i: int) -> int {
    let k = first_match_from(s, seq!['\n'], i);
    if k < 0 {
        s.len() as int
    } else {
        k
    }
}

/// The end of the last audio suffix in `[start+5, e]`, or -1; the lower
/// bound keeps at least one captured character before the suffix.
pub open spec fn last_mp3_end(s: Seq<char>, start: int, e: int) -> int
    decreases e - start,
{
    if e - start < 5 {
        -1
    } else if mp3_at(s, e) {
        e
    } else {
        last_mp3_end(s, start, e - 1)
    }
}

/// The marker at position `i` starts a capturable line: the text after it,
/// up to the end of the line, ends somewhere in an audio suffix.
pub open spec fn marker_at(s: Seq<char>, p: Seq<char>, i: int) -> bool {
    matches_at(s, p, i) && last_mp3_end(s, i + p.len(), eol_from(s, i + p.len())) >= 0
}

/// The first capturable occurrence of the marker, or -1.
pub open spec fn first_marker_from(s: Seq<char>, p: Seq<char>, i: int) -> int
    decreases s.len() - i,
{
    if i < 0 || i >= s.len() || i + p.len() > s.len() {
        -1
    } else if marker_at(s, p, i) {
        i
    } else {
        first_marker_from(s, p, i + 1)
    }
}

/// What one marker captures: the text between the first capturable
/// occurrence of the marker and the end of the last audio suffix on that
/// line.
pub open spec fn marker_capture(s: Seq<char>, p: Seq<char>) -> Option<Seq<char>> {
    let i = first_marker_from(s, p, 0);
    if i < 0 {
        None
    } else {
        Some(s.subrange(i + p.len(), last_mp3_end(s, i + p.len(), eol_from(s, i + p.len()))))
    }
}

/// The recovered path: the extraction-destination message is tried first,
/// then the merge-destination message, then the generic info message, the
/// first capturable one winning.
pub open spec fn extract_filename_spec(s: Seq<char>) -> Option<Seq<char>> {
    if marker_capture(s, "[ExtractAudio] Destination: "@) is Some {
        marker_capture(s, "[ExtractAudio] Destination: "@)
    } else if marker_capture(s, "[Merger] Merging formats into "@) is Some {
        marker_capture(s, "[Merger] Merging formats into "@)
    } else {
        marker_capture(s, "[info] "@)
    }
}

/// The merge-destination message outranks the generic info message: when no
/// extraction message captures but a merge message does, the merge path is
/// the recovered one, whatever any info line says.
pub proof fn lemma_merger_priority_over_info(s: Seq<char>)
    requires
        marker_capture(s, "[ExtractAudio] Destination: "@) is None,
        marker_capture(s, "[Merger] Merging formats into "@) is Some,
    ensures
        extract_filename_spec(s) == marker_capture(s, "[Merger] Merging formats into "@),
{
}

fn check_mp3_at(v: &Vec<char>, e: usize) -> (r: bool)
    requires
        e <= v@.len(),
    ensures
        r == mp3_at(v@, e as int),
{
    e >= 4 && v[e - 4] == '.' && v[e - 3] == 'm' && v[e - 2] == 'p' && v[e - 1] == '3'
}

/// The end of the last audio suffix on the line segment, scanned backwards.
fn find_last_mp3(v: &Vec<char>, start: usize, eol: usize) -> (r: Option<usize>)
    requires
        start <= eol <= v@.len(),
    ensures
        r is Some ==> last_mp3_end(v@, start as int, eol as int) == r->0 && start <= r->0 <= eol,
        r is None ==> last_mp3_end(v@, start as int, eol as int) == -1,
{
    let mut e: usize = eol;
    while e >= start && e - start >= 5
        invariant
            start <= eol <= v@.len(),
            e <= eol,
            start <= eol,
            last_mp3_end(v@, start as int, eol as int) == last_mp3_end(v@, start as int, e as int),
        decreases e,
    {
        if check_mp3_at(v, e) {
            return Some(e);
        }
        e = e - 1;
    }
    None
}

/// The capture bounds of the first capturable occurrence of the marker.
fn scan_marker(v: &Vec<char>, p: &Vec<char>) -> (r: Option<(usize, usize)>)
    requires
        p@.len() > 0,
    ensures
        r is Some ==> ({
            let i = first_marker_from(v@, p@, 0);
            i >= 0 && (r->0).0 == i + p@.len() && (r->0).1 == last_mp3_end(
                v@,
                i + p@.len(),
                eol_from(v@, i + p@.len()),
            ) && (r->0).0 <= (r->0).1 <= v@.len()
        }),
        r is None ==> first_marker_from(v@, p@, 0) == -1,
{
    let n = v.len();
    let nl: Vec<char> = vec!['\n'];
    let mut i: usize = 0;
    while i <= n && n - i >= p.len()
        invariant
            n == v@.len(),
            nl@ =~= seq!['\n'],
            p@.len() > 0,
            i <= n,
            first_marker_from(v@, p@, 0) == first_marker_from(v@, p@, i as int),
        decreases n + 1 - i,
    {
        if check_match_at(v, p, i) {
            let start = i + p.len();
            let eol: usize = match find_match_from(v, &nl, start) {
                Some(k) => {
                    proof {
                        crate::text::lemma_first_match_from(v@, nl@, start as int);
                    }
                    k
                },
                None => n,
            };
            assert(eol == eol_from(v@, start as int));
            match find_last_mp3(v, start, eol) {
                Some(e) => {
                    assert(marker_at(v@, p@, i as int));
                    assert(first_marker_from(v@, p@, i as int) == i);
                    return Some((start, e));
                },
                None => {
                    assert(!marker_at(v@, p@, i as int));
                },
            }
        } else {
            assert(!marker_at(v@, p@, i as int));
        }
        i = i + 1;
    }
    None
}

/// Scans the downloader tool's captured output for the produced audio
/// file's path, trying the known completion messages in priority order.
pub fn extract_downloaded_filename(output: &str) -> (r: Option<String>)
    ensures
        r is Some <==> extract_filename_spec(output@) is Some,
        r is Some ==> r->0@ == extract_filename_spec(output@)->0,
{
    let v = chars_of(output);
    let extract = chars_of("[ExtractAudio] Destination: ");
    let merger = chars_of("[Merger] Merging formats into ");
    let info = chars_of("[info] ");
    proof {
        reveal_strlit("[ExtractAudio] Destination: ");
        reveal_strlit("[Merger] Merging formats into ");
        reveal_strlit("[info] ");
    }
    match scan_marker(&v, &extract) {
        Some((a, b)) => {
            return Some(string_of(&sub_chars(&v, a, b)));
        },
        None => {},
    }
    match scan_marker(&v, &merger) {
        Some((a, b)) => {
            return Some(string_of(&sub_chars(&v, a, b)));
        },
        None => {},
    }
    match scan_marker(&v, &info) {
        Some((a, b)) => {
            return Some(string_of(&sub_chars(&v, a, b)));
        },
        None => {},
    }
    None
}

} // verus!
