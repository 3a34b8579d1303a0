//! Bulk CSV import of track-search records: fuzzy header resolution, per-row
//! fault isolation, and search-query construction.  The tabular syntax is
//! read by the csv crate behind trusted wrappers; everything done with the
//! rows is verified.
use vstd::prelude::*;
use vstd::string::StringExecFns;

use crate::text::{
    chars_of, dec_str, find_match_from, first_match_from, lower_char, string_of, to_lower_char,
    usize_to_string,
};

verus! {

// ---------------------------------------------------------------------------
// The parsed document, as the csv crate hands it over
// ---------------------------------------------------------------------------

/// One data row as the tabular reader produced it: its fields, or the
/// message of the syntax error it failed with.
#[derive(Debug, Clone)]
pub enum CsvRecord {
    Fields(Vec<String>),
    Malformed(String),
}

impl View for CsvRecord {
    type V = Result<Seq<Seq<char>>, Seq<char>>;

    open spec fn view(&self) -> Result<Seq<Seq<char>>, Seq<char>> {
        match self {
            CsvRecord::Fields(fields) => Ok(fields.deep_view()),
            CsvRecord::Malformed(msg) => Err(msg@),
        }
    }
}

/// The header row the tabular reader finds in the text, or the message of
/// the error it reports instead.
pub uninterp spec fn csv_header_row(content: Seq<char>) -> Result<Seq<Seq<char>>, Seq<char>>;

/// The data rows the tabular reader finds after the header: for each row its
/// fields, or the message of the row's syntax error.  Blank lines yield no
/// row.
pub uninterp spec fn csv_records(content: Seq<char>) -> Seq<Result<Seq<Seq<char>>, Seq<char>>>;

/// Relies on csv::ReaderBuilder (headers on, flexible field counts),
/// csv::Reader::headers and csv::Reader::records: reads the whole document
/// once, keeping the rows in file order with one entry per non-blank data
/// row; row errors are isolated per row, a header error fails the read.
#[verifier::external_body]
fn read_csv_document(content: &str) -> (r: Result<(Vec<String>, Vec<CsvRecord>), String>)
    ensures
        (r is Ok) == (csv_header_row(content@) is Ok),
        r is Err ==> r->Err_0@ == csv_header_row(content@)->Err_0,
        r is Ok ==> (r->Ok_0).0.deep_view() == csv_header_row(content@)->Ok_0 && (
        r->Ok_0).1@.map_values(|x: CsvRecord| x@) == csv_records(content@),
{
    let mut reader =
        csv::ReaderBuilder::new().has_headers(true).flexible(true).from_reader(content.as_bytes());
    let headers: Vec<String> = match reader.headers() {
        Ok(h) => h.iter().map(|s| s.to_string()).collect(),
        Err(e) => return Err(e.to_string()),
    };
    let rows: Vec<CsvRecord> = reader.records().map(|rec| match rec {
        Ok(r) => CsvRecord::Fields(r.iter().map(|s| s.to_string()).collect()),
        Err(e) => CsvRecord::Malformed(e.to_string()),
    }).collect();
    Ok((headers, rows))
}

// ---------------------------------------------------------------------------
// Fuzzy header resolution
// ---------------------------------------------------------------------------

/// How one character is rewritten when a header is normalized: lower-cased,
/// with space, hyphen and slash becoming underscores, and parentheses,
/// brackets and quotes dropped.
pub open spec fn norm_char(c: char) -> Seq<char> {
    if c == '(' || c == ')' || c == '[' || c == ']' || c == '"' {
        Seq::empty()
    } else if c == ' ' || c == '-' || c == '/' {
        seq!['_']
    } else {
        seq![lower_char(c)]
    }
}

/// The normalized form of a header name.
pub open spec fn normalize_spec(s: Seq<char>) -> Seq<char>
    decreases s.len(),
{
    if s.len() == 0 {
        Seq::empty()
    } else {
        norm_char(s[0]) + normalize_spec(s.drop_first())
    }
}

fn normalize_chars(v: &Vec<char>) -> (r: Vec<char>)
    ensures
        r@ == normalize_spec(v@),
{
    let n = v.len();
    let mut out: Vec<char> = Vec::new();
    let mut i: usize = 0;
    proof {
        assert(v@.skip(0) =~= v@);
    }
    while i < n
        invariant
            n == v@.len(),
            i <= n,
            normalize_spec(v@) == out@ + normalize_spec(v@.skip(i as int)),
        decreases n - i,
    {
        let ghost pre = out@;
        let ghost rest = v@.skip(i as int);
        proof {
            assert(rest[0] == v@[i as int]);
            assert(rest.drop_first() =~= v@.skip(i as int + 1));
        }
        let c = v[i];
        if c == '(' || c == ')' || c == '[' || c == ']' || c == '"' {
            // dropped
        } else if c == ' ' || c == '-' || c == '/' {
            out.push('_');
        } else {
            out.push(to_lower_char(c));
        }
        i = i + 1;
        proof {
            assert(pre + normalize_spec(rest) =~= out@ + normalize_spec(v@.skip(i as int)));
        }
    }
    proof {
        assert(v@.skip(n as int) =~= Seq::<char>::empty());
        assert(out@ =~= normalize_spec(v@));
    }
    out
}

/// The normalized form of a header name, as a string.
pub fn normalize_header(header: &str) -> (r: String)
    ensures
        r@ == normalize_spec(header@),
{
    string_of(&normalize_chars(&chars_of(header)))
}

/// Whether a header matches a canonical name: after normalizing both, either
/// contains the other (equality included).
pub open spec fn header_matches(h: Seq<char>, t: Seq<char>) -> bool {
    first_match_from(normalize_spec(h), normalize_spec(t), 0) >= 0 || first_match_from(
        normalize_spec(t),
        normalize_spec(h),
        0,
    ) >= 0
}

/// The first matching column for a canonical name, or -1.
pub open spec fn first_col_from(headers: Seq<Seq<char>>, target: Seq<char>, i: int) -> int
    decreases headers.len() - i,
{
    if i < 0 || i >= headers.len() {
        -1
    } else if header_matches(headers[i], target) {
        i
    } else {
        first_col_from(headers, target, i + 1)
    }
}

/// The index of the first input column that fuzzily matches the canonical
/// name, if any column does.
pub fn find_column_index(headers: &Vec<String>, target: &str) -> (r: Option<usize>)
    ensures
        r is Some ==> first_col_from(headers.deep_view(), target@, 0) == r->0,
        r is None ==> first_col_from(headers.deep_view(), target@, 0) == -1,
{
    let nt = normalize_chars(&chars_of(target));
    let n = headers.len();
    let ghost hv = headers.deep_view();
    let mut i: usize = 0;
    while i < n
        invariant
            n == headers@.len(),
            hv == headers.deep_view(),
            hv.len() == n,
            nt@ == normalize_spec(target@),
            i <= n,
            first_col_from(hv, target@, 0) == first_col_from(hv, target@, i as int),
        decreases n - i,
    {
        proof {
            assert(hv[i as int] == headers@[i as int].deep_view());
            assert(headers@[i as int].deep_view() =~= headers@[i as int]@);
        }
        let nh = normalize_chars(&chars_of(headers[i].as_str()));
        let hit = find_match_from(&nh, &nt, 0).is_some() || find_match_from(&nt, &nh, 0).is_some();
        assert(hit == header_matches(hv[i as int], target@));
        if hit {
            return Some(i);
        }
        i = i + 1;
    }
    None
}

// ---------------------------------------------------------------------------
// Track records
// ---------------------------------------------------------------------------

/// The recognized metadata columns of one imported row; a field is absent
/// when its column is missing or empty.
#[derive(Debug, Clone, PartialEq)]
pub struct CsvTrackMetadata {
    pub artist_names: Option<String>,
    pub track_name: Option<String>,
    pub album_name: Option<String>,
    pub artist_genres: Option<String>,
    pub album_release_date: Option<String>,
    pub bpm_tempo: Option<String>,
}

impl Default for CsvTrackMetadata {
    /// A record with every column absent.
    fn default() -> (r: Self)
        ensures
            r.artist_names is None,
            r.track_name is None,
            r.album_name is None,
            r.artist_genres is None,
            r.album_release_date is None,
            r.bpm_tempo is None,
    {
        CsvTrackMetadata {
            artist_names: None,
            track_name: None,
            album_name: None,
            artist_genres: None,
            album_release_date: None,
            bpm_tempo: None,
        }
    }
}

/// One successfully imported row; the row number is 1-based counting the
/// header, so data rows start at 2.
#[derive(Debug, Clone, PartialEq)]
pub struct CsvTrackEntry {
    pub row_number: usize,
    pub metadata: CsvTrackMetadata,
    pub search_query: String,
}

/// The outcome of a whole import: the entries that parsed, the error line
/// for every row that did not, and the tallies.
#[derive(Debug, Clone, PartialEq)]
pub struct CsvImportResult {
    pub tracks: Vec<CsvTrackEntry>,
    pub total_count: usize,
    pub success_count: usize,
    pub error_count: usize,
    pub errors: Vec<String>,
}

// ---------------------------------------------------------------------------
// Row semantics
// ---------------------------------------------------------------------------

/// The value of the column matching a canonical name, with empty values
/// treated as absent.
pub open spec fn field_of(headers: Seq<Seq<char>>, row: Seq<Seq<char>>, target: Seq<char>)
    -> Option<Seq<char>> {
    let i = first_col_from(headers, target, 0);
    if i < 0 {
        None
    } else if i < row.len() && row[i].len() > 0 {
        Some(row[i])
    } else {
        None
    }
}

/// The search phrase built from a row: `artist - track` when both are
/// present, else whichever one is, and nothing when neither is.
pub open spec fn search_query_spec(artist: Option<Seq<char>>, track: Option<Seq<char>>)
    -> Option<Seq<char>> {
    if artist is Some && track is Some {
        Some(artist->0 + " - "@ + track->0)
    } else if artist is Some {
        Some(artist->0)
    } else if track is Some {
        Some(track->0)
    } else {
        None
    }
}

pub open spec fn row_query(headers: Seq<Seq<char>>, row: Seq<Seq<char>>) -> Option<Seq<char>> {
    search_query_spec(
        field_of(headers, row, "Artist Name(s)"@),
        field_of(headers, row, "Track Name"@),
    )
}

pub open spec fn opt_match(o: Option<String>, s: Option<Seq<char>>) -> bool {
    (o is Some <==> s is Some) && (o is Some ==> o->0@ == s->0)
}

/// The entry built from a row that yields a search phrase.
pub open spec fn entry_ok(
    e: CsvTrackEntry,
    headers: Seq<Seq<char>>,
    rn: int,
    row: Seq<Seq<char>>,
) -> bool {
    &&& e.row_number == rn
    &&& opt_match(e.metadata.artist_names, field_of(headers, row, "Artist Name(s)"@))
    &&& opt_match(e.metadata.track_name, field_of(headers, row, "Track Name"@))
    &&& opt_match(e.metadata.album_name, field_of(headers, row, "Album Name"@))
    &&& opt_match(e.metadata.artist_genres, field_of(headers, row, "Artist Genres"@))
    &&& opt_match(e.metadata.album_release_date, field_of(headers, row, "Album Release Date"@))
    &&& opt_match(e.metadata.bpm_tempo, field_of(headers, row, "BPM/Tempo"@))
    &&& row_query(headers, row) is Some
    &&& e.search_query@ == row_query(headers, row)->0
}

/// The error line a row produces, if it produces one: a syntax error is
/// reported with the reader's message, and a row with neither artist nor
/// track is rejected because no search phrase can be built from it.
pub open spec fn row_error(
    headers: Seq<Seq<char>>,
    rec: Result<Seq<Seq<char>>, Seq<char>>,
    rn: int,
) -> Option<Seq<char>> {
    match rec {
        Result::Err(msg) => Some(
            "Row "@ + dec_str(rn as nat) + ": Failed to parse CSV record: "@ + msg,
        ),
        Result::Ok(row) => if row_query(headers, row) is None {
            Some(
                "Row "@ + dec_str(rn as nat)
                    + ": Missing both 'Artist Name(s)' and 'Track Name' - cannot create search query"@,
            )
        } else {
            None
        },
    }
}

/// The error lines of the rows, in file order; `rn0` numbers the first row.
pub open spec fn errors_spec(
    headers: Seq<Seq<char>>,
    recs: Seq<Result<Seq<Seq<char>>, Seq<char>>>,
    rn0: int,
) -> Seq<Seq<char>>
    decreases recs.len(),
{
    if recs.len() == 0 {
        Seq::empty()
    } else {
        errors_spec(headers, recs.drop_last(), rn0) + match row_error(
            headers,
            recs.last(),
            rn0 + recs.len() - 1,
        ) {
            Some(m) => seq![m],
            None => Seq::empty(),
        }
    }
}

/// The rows that become entries, with their row numbers, in file order.
pub open spec fn kept_rows(
    headers: Seq<Seq<char>>,
    recs: Seq<Result<Seq<Seq<char>>, Seq<char>>>,
    rn0: int,
) -> Seq<(int, Seq<Seq<char>>)>
    decreases recs.len(),
{
    if recs.len() == 0 {
        Seq::empty()
    } else {
        kept_rows(headers, recs.drop_last(), rn0) + match recs.last() {
            Result::Ok(row) => if row_query(headers, row) is Some {
                seq![((rn0 + recs.len() - 1), row)]
            } else {
                Seq::empty()
            },
            Result::Err(_) => Seq::empty(),
        }
    }
}

/// A row with neither artist nor track yields exactly one error line -- the
/// missing-both message with its row number -- and no entry.
pub proof fn lemma_missing_both_row(headers: Seq<Seq<char>>, row: Seq<Seq<char>>, rn: int)
    requires
        field_of(headers, row, "Artist Name(s)"@) is None,
        field_of(headers, row, "Track Name"@) is None,
    ensures
        errors_spec(headers, seq![Result::<Seq<Seq<char>>, Seq<char>>::Ok(row)], rn) == seq![
            (
            "Row "@ + dec_str(rn as nat)
                + ": Missing both 'Artist Name(s)' and 'Track Name' - cannot create search query"@
            ),
        ],
        kept_rows(headers, seq![Result::<Seq<Seq<char>>, Seq<char>>::Ok(row)], rn)
            == Seq::<(int, Seq<Seq<char>>)>::empty(),
{
    let one = seq![Result::<Seq<Seq<char>>, Seq<char>>::Ok(row)];
    let emp = Seq::<Result<Seq<Seq<char>>, Seq<char>>>::empty();
    assert(one.drop_last() =~= emp);
    assert(one.last() == Result::<Seq<Seq<char>>, Seq<char>>::Ok(row));
    assert(row_query(headers, row) is None);
    assert(errors_spec(headers, emp, rn) == Seq::<Seq<char>>::empty());
    assert(kept_rows(headers, emp, rn) == Seq::<(int, Seq<Seq<char>>)>::empty());
    assert(errors_spec(headers, one.drop_last(), rn) == Seq::<Seq<char>>::empty());
    assert(kept_rows(headers, one.drop_last(), rn) == Seq::<(int, Seq<Seq<char>>)>::empty());
    assert(errors_spec(headers, one, rn) =~= seq![
        (
        "Row "@ + dec_str(rn as nat)
            + ": Missing both 'Artist Name(s)' and 'Track Name' - cannot create search query"@
        ),
    ]);
    assert(kept_rows(headers, one, rn) =~= Seq::<(int, Seq<Seq<char>>)>::empty());
}

// ---------------------------------------------------------------------------
// Parsing
// ---------------------------------------------------------------------------

fn field_get(headers: &Vec<String>, fields: &Vec<String>, target: &str) -> (r: Option<String>)
    ensures
        opt_match(r, field_of(headers.deep_view(), fields.deep_view(), target@)),
{
    match find_column_index(headers, target) {
        None => None,
        Some(i) => {
            if i < fields.len() {
                proof {
                    assert(fields.deep_view()[i as int] =~= fields@[i as int]@);
                }
                if fields[i].as_str().is_empty() {
                    None
                } else {
                    Some(fields[i].clone())
                }
            } else {
                None
            }
        },
    }
}

/// Parses the whole CSV text into track entries: the header row is resolved
/// fuzzily, every data row is either an entry or one error line, and the
/// tallies always add up to the number of data rows.  Only an unreadable
/// header fails the import as a whole.
pub fn parse_csv_content(content: &str) -> (r: Result<CsvImportResult, String>)
    ensures
        csv_header_row(content@) is Err ==> r is Err && r->Err_0@ == "Failed to read CSV headers: "@
            + csv_header_row(content@)->Err_0,
        csv_header_row(content@) is Ok && csv_records(content@).len() > usize::MAX - 2 ==> r is Err,
        csv_header_row(content@) is Ok && csv_records(content@).len() <= usize::MAX - 2 ==> r is Ok
            && ({
            let hv = csv_header_row(content@)->Ok_0;
            let recs = csv_records(content@);
            let res = r->Ok_0;
            &&& res.tracks@.len() == kept_rows(hv, recs, 2).len()
            &&& forall|i: int|
                0 <= i < res.tracks@.len() ==> entry_ok(
                    #[trigger] res.tracks@[i],
                    hv,
                    kept_rows(hv, recs, 2)[i].0,
                    kept_rows(hv, recs, 2)[i].1,
                )
            &&& res.errors.deep_view() == errors_spec(hv, recs, 2)
            &&& res.success_count == res.tracks@.len()
            &&& res.error_count == res.errors@.len()
            &&& res.total_count == res.success_count + res.error_count
            &&& res.total_count == recs.len()
        }),
{
    let (headers, rows) = match read_csv_document(content) {
        Err(e) => {
            return Err(String::from_str("Failed to read CSV headers: ").concat(e.as_str()));
        },
        Ok(d) => d,
    };
    let n = rows.len();
    if n > usize::MAX - 2 {
        return Err(String::from_str("CSV input holds more rows than this platform can number"));
    }
    let ghost hv = headers.deep_view();
    let ghost recs = rows@.map_values(|x: CsvRecord| x@);
    let mut tracks: Vec<CsvTrackEntry> = Vec::new();
    let mut errors: Vec<String> = Vec::new();
    let mut success_count: usize = 0;
    let mut i: usize = 0;
    proof {
        assert(recs.take(0) =~= Seq::<Result<Seq<Seq<char>>, Seq<char>>>::empty());
    }
    while i < n
        invariant
            n == rows@.len(),
            n <= usize::MAX - 2,
            hv == headers.deep_view(),
            recs == rows@.map_values(|x: CsvRecord| x@),
            recs.len() == n,
            i <= n,
            tracks@.len() == kept_rows(hv, recs.take(i as int), 2).len(),
            forall|j: int|
                0 <= j < tracks@.len() ==> entry_ok(
                    #[trigger] tracks@[j],
                    hv,
                    kept_rows(hv, recs.take(i as int), 2)[j].0,
                    kept_rows(hv, recs.take(i as int), 2)[j].1,
                ),
            errors.deep_view() == errors_spec(hv, recs.take(i as int), 2),
            tracks@.len() + errors@.len() == i,
            success_count == tracks@.len(),
        decreases n - i,
    {
        let rn = i + 2;
        let ghost tk = recs.take(i as int + 1);
        let ghost kept_pre = kept_rows(hv, recs.take(i as int), 2);
        proof {
            assert(tk.drop_last() =~= recs.take(i as int));
            assert(tk.last() == recs[i as int]);
            assert(recs[i as int] == rows@[i as int]@);
        }
        match &rows[i] {
            CsvRecord::Malformed(msg) => {
                let line = String::from_str("Row ").concat(usize_to_string(rn).as_str()).concat(
                    ": Failed to parse CSV record: ",
                ).concat(msg.as_str());
                errors.push(line);
                proof {
                    assert(errors.deep_view() =~= errors_spec(hv, tk, 2));
                    assert(kept_rows(hv, tk, 2) =~= kept_pre);
                }
            },
            CsvRecord::Fields(fields) => {
                let ghost row = fields.deep_view();
                let artist = field_get(&headers, fields, "Artist Name(s)");
                let track = field_get(&headers, fields, "Track Name");
                let album = field_get(&headers, fields, "Album Name");
                let genres = field_get(&headers, fields, "Artist Genres");
                let date = field_get(&headers, fields, "Album Release Date");
                let bpm = field_get(&headers, fields, "BPM/Tempo");
                let query_opt: Option<String> = match (&artist, &track) {
                    (Some(a), Some(t)) => Some(a.clone().concat(" - ").concat(t.as_str())),
                    (Some(a), None) => Some(a.clone()),
                    (None, Some(t)) => Some(t.clone()),
                    (None, None) => None,
                };
                match query_opt {
                    None => {
                        let line = String::from_str("Row ").concat(
                            usize_to_string(rn).as_str(),
                        ).concat(
                            ": Missing both 'Artist Name(s)' and 'Track Name' - cannot create search query",
                        );
                        errors.push(line);
                        proof {
                            assert(row_query(hv, row) is None);
                            assert(errors.deep_view() =~= errors_spec(hv, tk, 2));
                            assert(kept_rows(hv, tk, 2) =~= kept_pre);
                        }
                    },
                    Some(q) => {
                        let entry = CsvTrackEntry {
                            row_number: rn,
                            metadata: CsvTrackMetadata {
                                artist_names: artist,
                                track_name: track,
                                album_name: album,
                                artist_genres: genres,
                                album_release_date: date,
                                bpm_tempo: bpm,
                            },
                            search_query: q,
                        };
                        proof {
                            assert(row_query(hv, row) is Some);
                        }
                        tracks.push(entry);
                        success_count = success_count + 1;
                        proof {
                            assert(kept_rows(hv, tk, 2) =~= kept_pre.push(((rn as int), row)));
                            assert(entry_ok(tracks@[tracks@.len() - 1], hv, rn as int, row));
                            assert(errors_spec(hv, tk, 2) =~= errors.deep_view());
                        }
                    },
                }
            },
        }
        i = i + 1;
    }
    proof {
        assert(recs.take(n as int) =~= recs);
    }
    let total_count = tracks.len() + errors.len();
    let error_count = errors.len();
    Ok(CsvImportResult { tracks, total_count, success_count, error_count, errors })
}

// ---------------------------------------------------------------------------
// Header validation
// ---------------------------------------------------------------------------

/// How many canonical column names the importer recognizes.
pub const EXPECTED_COUNT: usize = 6;

/// The canonical column names, in their reporting order.
pub open spec fn expected_header(i: int) -> Seq<char> {
    if i == 0 {
        "Artist Name(s)"@
    } else if i == 1 {
        "Track Name"@
    } else if i == 2 {
        "Album Name"@
    } else if i == 3 {
        "Artist Genres"@
    } else if i == 4 {
        "Album Release Date"@
    } else {
        "BPM/Tempo"@
    }
}

fn expected_name(i: usize) -> (r: &'static str)
    requires
        i < EXPECTED_COUNT,
    ensures
        r@ == expected_header(i as int),
{
    if i == 0 {
        "Artist Name(s)"
    } else if i == 1 {
        "Track Name"
    } else if i == 2 {
        "Album Name"
    } else if i == 3 {
        "Artist Genres"
    } else if i == 4 {
        "Album Release Date"
    } else {
        "BPM/Tempo"
    }
}

/// The canonical names that some input column fuzzily matches, in canonical
/// order.
pub open spec fn found_headers_spec(hv: Seq<Seq<char>>, n: int) -> Seq<Seq<char>>
    decreases n,
{
    if n <= 0 {
        Seq::empty()
    } else {
        found_headers_spec(hv, n - 1) + if first_col_from(hv, expected_header(n - 1), 0) >= 0 {
            seq![expected_header(n - 1)]
        } else {
            Seq::empty()
        }
    }
}

/// Reports which canonical columns the file's header row provides.
pub fn validate_csv_headers(content: &str) -> (r: Result<Vec<String>, String>)
    ensures
        csv_header_row(content@) is Err ==> r is Err && r->Err_0@ == "Failed to read CSV headers: "@
            + csv_header_row(content@)->Err_0,
        csv_header_row(content@) is Ok ==> r is Ok && r->Ok_0.deep_view() == found_headers_spec(
            csv_header_row(content@)->Ok_0,
            EXPECTED_COUNT as int,
        ),
{
    let (headers, _rows) = match read_csv_document(content) {
        Err(e) => {
            return Err(String::from_str("Failed to read CSV headers: ").concat(e.as_str()));
        },
        Ok(d) => d,
    };
    let ghost hv = headers.deep_view();
    let mut found: Vec<String> = Vec::new();
    let mut i: usize = 0;
    while i < EXPECTED_COUNT
        invariant
            hv == headers.deep_view(),
            i <= EXPECTED_COUNT,
            found.deep_view() == found_headers_spec(hv, i as int),
        decreases EXPECTED_COUNT - i,
    {
        let name = expected_name(i);
        let ghost pre = found.deep_view();
        if find_column_index(&headers, name).is_some() {
            found.push(String::from_str(name));
            proof {
                assert(found.deep_view() =~= pre + seq![expected_header(i as int)]);
            }
        }
        i = i + 1;
    }
    Ok(found)
}

} // verus!
