//! Acquisition pipeline for audio tracks: free-text and CSV input
//! classification, filename sanitation, metadata inference and tag planning,
//! download-tool invocation planning, and recovery of results from the
//! download tool's output.
pub mod csv_parser;
pub mod file_processor;
pub mod metadata;
pub mod provision;
pub mod text;
pub mod youtube_client;

use vstd::prelude::*;
use vstd::string::StringExecFns;

use crate::text::{
    chars_of, check_match_at, first_match_from, lemma_first_match_skip, lemma_trim_ends,
    matches_at, string_of, sub_chars, trim_chars, trim_spec,
};

verus! {

/// The three search flavours a caller can ask for; each appends a different
/// qualifier to the search phrase handed to the downloader tool.
#[derive(Debug, Clone, PartialEq, Eq, Structural)]
pub enum AudioMode {
    Official,
    Raw,
    Clean,
}

/// The qualifier appended to a search phrase for the given mode.
pub open spec fn mode_suffix_spec(mode: AudioMode) -> Seq<char> {
    match mode {
        AudioMode::Official => "official audio"@,
        AudioMode::Raw => "raw audio"@,
        AudioMode::Clean => "clean audio"@,
    }
}

pub fn get_audio_mode_suffix(mode: &AudioMode) -> (r: &'static str)
    ensures
        r@ == mode_suffix_spec(*mode),
{
    match mode {
        AudioMode::Official => "official audio",
        AudioMode::Raw => "raw audio",
        AudioMode::Clean => "clean audio",
    }
}

/// How one line of free-text input was classified.
#[derive(Debug, Clone, PartialEq, Eq, Structural)]
pub enum InputType {
    Url,
    SearchQuery,
}

/// One classified line of free-text input.
#[derive(Debug, Clone, PartialEq)]
pub struct ProcessedItem {
    pub input_type: InputType,
    pub original_input: String,
    pub processed_query: String,
    pub video_id: Option<String>,
}

/// Every classified line of a free-text batch, with its tallies.
#[derive(Debug, Clone, PartialEq)]
pub struct ProcessInputResult {
    pub items: Vec<ProcessedItem>,
    pub total_count: usize,
    pub url_count: usize,
    pub search_count: usize,
}

// ---------------------------------------------------------------------------
// Video-id extraction
// ---------------------------------------------------------------------------

/// The characters a video id is drawn from.
pub open spec fn is_id_char(c: char) -> bool {
    ('a' <= c && c <= 'z') || ('A' <= c && c <= 'Z') || ('0' <= c && c <= '9') || c == '_' || c
        == '-'
}

/// Where a recognized watch-page prefix ending at position `p` stops, or -1.
pub open spec fn url_prefix_end(s: Seq<char>, p: int) -> int {
    if matches_at(s, "youtube.com/watch?v="@, p) {
        p + "youtube.com/watch?v="@.len()
    } else if matches_at(s, "youtu.be/"@, p) {
        p + "youtu.be/"@.len()
    } else if matches_at(s, "youtube.com/shorts/"@, p) {
        p + "youtube.com/shorts/"@.len()
    } else {
        -1
    }
}

/// Eleven id characters start at position `e`.
pub open spec fn id_at(s: Seq<char>, e: int) -> bool {
    e >= 0 && e + 11 <= s.len() && forall|j: int| 0 <= j < 11 ==> is_id_char(#[trigger] s[e + j])
}

/// A recognized prefix starts at `p` and is followed by eleven id characters.
pub open spec fn full_match_at(s: Seq<char>, p: int) -> bool {
    url_prefix_end(s, p) >= 0 && id_at(s, url_prefix_end(s, p))
}

/// The first position at or after `p` holding a full video-link match, or -1.
pub open spec fn first_full_match_from(s: Seq<char>, p: int) -> int
    decreases s.len() - p,
{
    if p < 0 || p >= s.len() {
        -1
    } else if full_match_at(s, p) {
        p
    } else {
        first_full_match_from(s, p + 1)
    }
}

/// The id of the first video link found in the text, if there is one.
pub open spec fn extract_id_spec(s: Seq<char>) -> Option<Seq<char>> {
    let p = first_full_match_from(s, 0);
    if p < 0 {
        None
    } else {
        Some(s.subrange(url_prefix_end(s, p), url_prefix_end(s, p) + 11))
    }
}

fn id_char(c: char) -> (r: bool)
    ensures
        r == is_id_char(c),
{
    ('a' <= c && c <= 'z') || ('A' <= c && c <= 'Z') || ('0' <= c && c <= '9') || c == '_' || c
        == '-'
}

fn check_id_at(v: &Vec<char>, e: usize) -> (r: bool)
    ensures
        r == id_at(v@, e as int),
{
    let n = v.len();
    if n < 11 || e > n - 11 {
        return false;
    }
    let mut j: usize = 0;
    while j < 11
        invariant
            n == v@.len(),
            e + 11 <= n,
            j <= 11,
            forall|k: int| 0 <= k < j ==> is_id_char(#[trigger] v@[e + k]),
        decreases 11 - j,
    {
        if !id_char(v[e + j]) {
            return false;
        }
        j = j + 1;
    }
    true
}

/// Pulls the 11-character video id out of the first recognized video link in
/// the text, if any of the three accepted link shapes occurs in it.
pub fn extract_video_id(url: &str) -> (r: Option<String>)
    ensures
        r is Some <==> extract_id_spec(url@) is Some,
        r is Some ==> r->0@ == extract_id_spec(url@)->0,
{
    let v = chars_of(url);
    let watch = chars_of("youtube.com/watch?v=");
    let short = chars_of("youtu.be/");
    let shorts = chars_of("youtube.com/shorts/");
    let n = v.len();
    let mut p: usize = 0;
    while p < n
        invariant
            v@ == url@,
            n == v@.len(),
            watch@ == "youtube.com/watch?v="@,
            short@ == "youtu.be/"@,
            shorts@ == "youtube.com/shorts/"@,
            first_full_match_from(v@, 0) == first_full_match_from(v@, p as int),
        decreases n - p,
    {
        let e_opt: Option<usize> = if check_match_at(&v, &watch, p) {
            Some(p + watch.len())
        } else if check_match_at(&v, &short, p) {
            Some(p + short.len())
        } else if check_match_at(&v, &shorts, p) {
            Some(p + shorts.len())
        } else {
            None
        };
        if let Some(e) = e_opt {
            assert(e == url_prefix_end(v@, p as int));
            if check_id_at(&v, e) {
                assert(full_match_at(v@, p as int));
                assert(first_full_match_from(v@, p as int) == p);
                let id = sub_chars(&v, e, e + 11);
                return Some(string_of(&id));
            }
            assert(!full_match_at(v@, p as int));
        } else {
            assert(url_prefix_end(v@, p as int) == -1);
            assert(!full_match_at(v@, p as int));
        }
        p = p + 1;
    }
    None
}

/// Whether the line holds a recognized video link.
pub fn is_youtube_url(text: &str) -> (r: bool)
    ensures
        r == (extract_id_spec(text@) is Some),
{
    extract_video_id(text).is_some()
}

/// The search phrase for one line: the trimmed line with the mode qualifier.
pub fn construct_search_query(line: &str, mode: &AudioMode) -> (r: String)
    ensures
        r@ == trim_spec(line@) + " "@ + mode_suffix_spec(*mode),
{
    let trimmed = string_of(&trim_chars(&chars_of(line)));
    let suffix = get_audio_mode_suffix(mode);
    trimmed.concat(" ").concat(suffix)
}

// ---------------------------------------------------------------------------
// Free-text batch classification
// ---------------------------------------------------------------------------

/// The text split at every newline; the pieces keep any carriage returns,
/// which the later trim removes.
pub open spec fn lines_of(s: Seq<char>) -> Seq<Seq<char>>
    decreases s.len(),
{
    let k = first_match_from(s, seq!['\n'], 0);
    if k < 0 || k >= s.len() {
        seq![s]
    } else {
        seq![s.take(k)] + lines_of(s.skip(k + 1))
    }
}

/// The trimmed lines that remain once blank lines are dropped.
pub open spec fn kept_of(ls: Seq<Seq<char>>) -> Seq<Seq<char>>
    decreases ls.len(),
{
    if ls.len() == 0 {
        Seq::empty()
    } else {
        let rest = kept_of(ls.drop_first());
        if trim_spec(ls[0]).len() > 0 {
            seq![trim_spec(ls[0])] + rest
        } else {
            rest
        }
    }
}

pub open spec fn kept_lines(s: Seq<char>) -> Seq<Seq<char>> {
    kept_of(lines_of(s))
}

/// How many of the lines hold a recognized video link.
pub open spec fn url_count_of(ls: Seq<Seq<char>>) -> int
    decreases ls.len(),
{
    if ls.len() == 0 {
        0
    } else {
        url_count_of(ls.drop_last()) + if extract_id_spec(ls.last()) is Some {
            1int
        } else {
            0int
        }
    }
}

/// The classification of one kept line.
pub open spec fn item_ok(it: ProcessedItem, line: Seq<char>, mode: AudioMode) -> bool {
    &&& it.original_input@ == line
    &&& if extract_id_spec(line) is Some {
        &&& it.input_type == InputType::Url
        &&& it.processed_query@ == line
        &&& it.video_id is Some && it.video_id->0@ == extract_id_spec(line)->0
    } else {
        &&& it.input_type == InputType::SearchQuery
        &&& it.processed_query@ == trim_spec(line) + " "@ + mode_suffix_spec(mode)
        &&& it.video_id is None
    }
}

fn split_lines(v: &Vec<char>) -> (r: Vec<Vec<char>>)
    ensures
        r.deep_view() == lines_of(v@),
{
    let n = v.len();
    let nl: Vec<char> = vec!['\n'];
    let mut out: Vec<Vec<char>> = Vec::new();
    let mut pos: usize = 0;
    let mut finished = false;
    proof {
        assert(v@.skip(0) =~= v@);
    }
    while !finished
        invariant
            n == v@.len(),
            nl@ =~= seq!['\n'],
            pos <= n,
            !finished ==> lines_of(v@) == out.deep_view() + lines_of(v@.skip(pos as int)),
            finished ==> lines_of(v@) == out.deep_view(),
        decreases n - pos, (if finished { 0int } else { 1int }),
    {
        let ghost rest = v@.skip(pos as int);
        let ghost pre = out.deep_view();
        match crate::text::find_match_from(v, &nl, pos) {
            None => {
                proof {
                    lemma_first_match_skip(v@, nl@, pos as int, pos as int);
                    assert(first_match_from(rest, seq!['\n'], 0) < 0);
                }
                let line = sub_chars(v, pos, n);
                proof {
                    assert(v@.subrange(pos as int, n as int) =~= rest);
                    assert(line.deep_view() =~= rest);
                }
                out.push(line);
                finished = true;
                proof {
                    assert(lines_of(rest) == seq![rest]);
                    assert(out.deep_view() =~= pre + seq![rest]);
                }
            },
            Some(k) => {
                proof {
                    crate::text::lemma_first_match_from(v@, nl@, pos as int);
                    lemma_first_match_skip(v@, nl@, pos as int, pos as int);
                    assert(first_match_from(rest, seq!['\n'], 0) == k - pos);
                }
                assert(matches_at(v@, nl@, k as int));
                assert(k < n);
                let line = sub_chars(v, pos, k);
                proof {
                    assert(rest.take(k - pos) =~= v@.subrange(pos as int, k as int));
                    assert(line.deep_view() =~= rest.take(k - pos));
                }
                out.push(line);
                proof {
                    assert(rest.skip(k - pos + 1) =~= v@.skip(k as int + 1));
                    assert(lines_of(rest) == seq![rest.take(k - pos)] + lines_of(
                        rest.skip(k - pos + 1),
                    ));
                    assert(out.deep_view() =~= pre + seq![rest.take(k - pos)]);
                    assert(out.deep_view() + lines_of(v@.skip(k as int + 1)) =~= pre + lines_of(
                        rest,
                    ));
                }
                pos = k + 1;
            },
        }
    }
    out
}

/// Splits the free-text input into lines, drops blank ones, classifies each
/// kept line as a video link or as a search phrase, and tallies both kinds.
pub fn process_input(input_text: &str, audio_mode: AudioMode) -> (r: Result<
    ProcessInputResult,
    String,
>)
    ensures
        r is Ok,
        r->Ok_0.items@.len() == kept_lines(input_text@).len(),
        forall|i: int|
            0 <= i < r->Ok_0.items@.len() ==> item_ok(
                #[trigger] r->Ok_0.items@[i],
                kept_lines(input_text@)[i],
                audio_mode,
            ),
        r->Ok_0.total_count == kept_lines(input_text@).len(),
        r->Ok_0.url_count == url_count_of(kept_lines(input_text@)),
        r->Ok_0.url_count + r->Ok_0.search_count == r->Ok_0.total_count,
{
    let v = chars_of(input_text);
    let lines = split_lines(&v);
    let n = lines.len();
    let mut items: Vec<ProcessedItem> = Vec::new();
    let mut url_count: usize = 0;
    let mut search_count: usize = 0;
    let ghost all = lines.deep_view();
    let ghost mut done: Seq<Seq<char>> = Seq::empty();
    let mut li: usize = 0;
    proof {
        assert(all.skip(0) =~= all);
        assert(kept_of(all) =~= done + kept_of(all.skip(0)));
    }
    while li < n
        invariant
            n == lines@.len(),
            all == lines.deep_view(),
            li <= n,
            kept_of(all) == done + kept_of(all.skip(li as int)),
            items@.len() == done.len(),
            done.len() <= li,
            forall|i: int|
                0 <= i < done.len() ==> item_ok(#[trigger] items@[i], done[i], audio_mode),
            url_count + search_count == done.len(),
            url_count == url_count_of(done),
        decreases n - li,
    {
        let ghost rest = all.skip(li as int);
        proof {
            assert(rest[0] == all[li as int]);
            assert(rest.drop_first() =~= all.skip(li as int + 1));
            assert(all[li as int] == lines@[li as int].deep_view());
            assert(lines@[li as int].deep_view() =~= lines@[li as int]@);
        }
        let line = &lines[li];
        let trimmed_chars = trim_chars(line);
        if trimmed_chars.len() > 0 {
            let ghost tl = trim_spec(all[li as int]);
            let trimmed = string_of(&trimmed_chars);
            match extract_video_id(trimmed.as_str()) {
                Some(id) => {
                    let it = ProcessedItem {
                        input_type: InputType::Url,
                        original_input: trimmed.clone(),
                        processed_query: trimmed.clone(),
                        video_id: Some(id),
                    };
                    items.push(it);
                    url_count = url_count + 1;
                },
                None => {
                    let processed_query = construct_search_query(trimmed.as_str(), &audio_mode);
                    proof {
                        lemma_trim_ends(all[li as int]);
                    }
                    let it = ProcessedItem {
                        input_type: InputType::SearchQuery,
                        original_input: trimmed.clone(),
                        processed_query,
                        video_id: None,
                    };
                    items.push(it);
                    search_count = search_count + 1;
                },
            }
            proof {
                let done2 = done.push(tl);
                assert(done2.drop_last() =~= done);
                assert(kept_of(rest) == seq![tl] + kept_of(rest.drop_first()));
                assert(done + kept_of(rest) =~= done2 + kept_of(all.skip(li as int + 1)));
                assert(forall|i: int|
                    0 <= i < done.len() ==> item_ok(#[trigger] items@[i], done2[i], audio_mode));
                assert(item_ok(items@[done.len() as int], tl, audio_mode));
                done = done2;
            }
        } else {
            proof {
                assert(kept_of(rest) == kept_of(rest.drop_first()));
            }
        }
        li = li + 1;
    }
    proof {
        assert(all.skip(n as int) =~= Seq::<Seq<char>>::empty());
        assert(kept_of(all) =~= done);
    }
    let total_count = items.len();
    Ok(ProcessInputResult { items, total_count, url_count, search_count })
}

// ---------------------------------------------------------------------------
// CSV import with the mode qualifier applied
// ---------------------------------------------------------------------------

/// The entry built for a row when the import also appends the mode
/// qualifier to each search phrase.
pub open spec fn entry_cmd_ok(
    e: crate::csv_parser::CsvTrackEntry,
    headers: Seq<Seq<char>>,
    rn: int,
    row: Seq<Seq<char>>,
    mode: AudioMode,
) -> bool {
    &&& e.row_number == rn
    &&& crate::csv_parser::opt_match(
        e.metadata.artist_names,
        crate::csv_parser::field_of(headers, row, "Artist Name(s)"@),
    )
    &&& crate::csv_parser::opt_match(
        e.metadata.track_name,
        crate::csv_parser::field_of(headers, row, "Track Name"@),
    )
    &&& crate::csv_parser::opt_match(
        e.metadata.album_name,
        crate::csv_parser::field_of(headers, row, "Album Name"@),
    )
    &&& crate::csv_parser::opt_match(
        e.metadata.artist_genres,
        crate::csv_parser::field_of(headers, row, "Artist Genres"@),
    )
    &&& crate::csv_parser::opt_match(
        e.metadata.album_release_date,
        crate::csv_parser::field_of(headers, row, "Album Release Date"@),
    )
    &&& crate::csv_parser::opt_match(
        e.metadata.bpm_tempo,
        crate::csv_parser::field_of(headers, row, "BPM/Tempo"@),
    )
    &&& crate::csv_parser::row_query(headers, row) is Some
    &&& e.search_query@ == trim_spec(crate::csv_parser::row_query(headers, row)->0) + " "@
        + mode_suffix_spec(mode)
}

fn clone_opt_string(o: &Option<String>) -> (r: Option<String>)
    ensures
        (r is Some <==> o is Some),
        r is Some ==> r->0@ == o->0@,
{
    match o {
        None => None,
        Some(s) => Some(s.clone()),
    }
}

/// Parses the CSV text and appends the mode qualifier to every entry's
/// search phrase; rows, errors and tallies are exactly those of the plain
/// import.
pub fn parse_csv_command(csv_content: &str, audio_mode: AudioMode) -> (r: Result<
    crate::csv_parser::CsvImportResult,
    String,
>)
    ensures
        crate::csv_parser::csv_header_row(csv_content@) is Err ==> r is Err && r->Err_0@
            == "Failed to read CSV headers: "@ + crate::csv_parser::csv_header_row(
            csv_content@,
        )->Err_0,
        crate::csv_parser::csv_header_row(csv_content@) is Ok && crate::csv_parser::csv_records(
            csv_content@,
        ).len() > usize::MAX - 2 ==> r is Err,
        crate::csv_parser::csv_header_row(csv_content@) is Ok && crate::csv_parser::csv_records(
            csv_content@,
        ).len() <= usize::MAX - 2 ==> r is Ok && ({
            let hv = crate::csv_parser::csv_header_row(csv_content@)->Ok_0;
            let recs = crate::csv_parser::csv_records(csv_content@);
            let res = r->Ok_0;
            &&& res.tracks@.len() == crate::csv_parser::kept_rows(hv, recs, 2).len()
            &&& forall|i: int|
                0 <= i < res.tracks@.len() ==> entry_cmd_ok(
                    #[trigger] res.tracks@[i],
                    hv,
                    crate::csv_parser::kept_rows(hv, recs, 2)[i].0,
                    crate::csv_parser::kept_rows(hv, recs, 2)[i].1,
                    audio_mode,
                )
            &&& res.errors.deep_view() == crate::csv_parser::errors_spec(hv, recs, 2)
            &&& res.success_count == res.tracks@.len()
            &&& res.error_count == res.errors@.len()
            &&& res.total_count == res.success_count + res.error_count
            &&& res.total_count == recs.len()
        }),
{
    let parsed = match crate::csv_parser::parse_csv_content(csv_content) {
        Err(e) => {
            return Err(e);
        },
        Ok(p) => p,
    };
    let ghost hv = crate::csv_parser::csv_header_row(csv_content@)->Ok_0;
    let ghost recs = crate::csv_parser::csv_records(csv_content@);
    let ghost kept = crate::csv_parser::kept_rows(hv, recs, 2);
    let crate::csv_parser::CsvImportResult {
        tracks,
        total_count,
        success_count,
        error_count,
        errors,
    } = parsed;
    let n = tracks.len();
    let mut processed: Vec<crate::csv_parser::CsvTrackEntry> = Vec::new();
    let mut i: usize = 0;
    while i < n
        invariant
            n == tracks@.len(),
            n == kept.len(),
            forall|j: int|
                0 <= j < n ==> crate::csv_parser::entry_ok(
                    #[trigger] tracks@[j],
                    hv,
                    kept[j].0,
                    kept[j].1,
                ),
            i <= n,
            processed@.len() == i,
            forall|j: int|
                0 <= j < i ==> entry_cmd_ok(
                    #[trigger] processed@[j],
                    hv,
                    kept[j].0,
                    kept[j].1,
                    audio_mode,
                ),
        decreases n - i,
    {
        let entry = &tracks[i];
        let search_query = construct_search_query(entry.search_query.as_str(), &audio_mode);
        let new_entry = crate::csv_parser::CsvTrackEntry {
            row_number: entry.row_number,
            metadata: crate::csv_parser::CsvTrackMetadata {
                artist_names: clone_opt_string(&entry.metadata.artist_names),
                track_name: clone_opt_string(&entry.metadata.track_name),
                album_name: clone_opt_string(&entry.metadata.album_name),
                artist_genres: clone_opt_string(&entry.metadata.artist_genres),
                album_release_date: clone_opt_string(&entry.metadata.album_release_date),
                bpm_tempo: clone_opt_string(&entry.metadata.bpm_tempo),
            },
            search_query,
        };
        processed.push(new_entry);
        i = i + 1;
    }
    Ok(
        crate::csv_parser::CsvImportResult {
            tracks: processed,
            total_count,
            success_count,
            error_count,
            errors,
        },
    )
}

} // verus!
