//! Filename sanitation: strips promotional decorations from a candidate
//! filename against a fixed ban-list (ignoring ASCII case and any whitespace
//! immediately before a banned phrase), collapses whitespace runs, and trims
//! the ends.  Also plans the argument list for an audio transcode.
use vstd::prelude::*;

use vstd::string::StringExecFns;

use crate::text::{
    chars_of, find_match_ci_from, first_match_ci_from, first_match_from, first_non_space, is_space,
    last_non_space_end, lemma_first_match_ci_from, lemma_first_non_space,
    lemma_last_non_space_end, lemma_trim_ends, matches_ci_at, space_char, string_of, trim_chars,
    trim_spec,
};

verus! {

// ---------------------------------------------------------------------------
// Whitespace collapsing
// ---------------------------------------------------------------------------

/// Every maximal run of whitespace becomes a single space character.
pub open spec fn collapse_ws(s: Seq<char>) -> Seq<char>
    decreases s.len(),
{
    if s.len() == 0 {
        Seq::empty()
    } else if is_space(s[0]) {
        if s.len() > 1 && is_space(s[1]) {
            collapse_ws(s.drop_first())
        } else {
            seq![' '] + collapse_ws(s.drop_first())
        }
    } else {
        seq![s[0]] + collapse_ws(s.drop_first())
    }
}

pub fn collapse_chars(v: &Vec<char>) -> (r: Vec<char>)
    ensures
        r@ == collapse_ws(v@),
{
    let n = v.len();
    let mut out: Vec<char> = Vec::new();
    let mut i: usize = 0;
    proof {
        assert(v@.skip(0) =~= v@);
    }
    while i < n
        invariant
            n == v@.len(),
            i <= n,
            collapse_ws(v@) == out@ + collapse_ws(v@.skip(i as int)),
        decreases n - i,
    {
        let ghost pre = out@;
        let ghost rest = v@.skip(i as int);
        proof {
            assert(rest.len() == n - i);
            assert(rest[0] == v@[i as int]);
            if i + 1 < n {
                assert(rest[1] == v@[i as int + 1]);
            }
            assert(rest.drop_first() =~= v@.skip(i as int + 1));
        }
        let c = v[i];
        if space_char(c) {
            if i + 1 < n && space_char(v[i + 1]) {
                // drop this space: the run continues
            } else {
                out.push(' ');
            }
        } else {
            out.push(c);
        }
        i = i + 1;
        proof {
            if is_space(c) {
                if i < n && is_space(v@[i as int]) {
                    assert(collapse_ws(rest) == collapse_ws(v@.skip(i as int)));
                } else {
                    assert(collapse_ws(rest) == seq![' '] + collapse_ws(v@.skip(i as int)));
                    assert(pre + collapse_ws(rest) =~= out@ + collapse_ws(v@.skip(i as int)));
                }
            } else {
                assert(collapse_ws(rest) == seq![c] + collapse_ws(v@.skip(i as int)));
                assert(pre + collapse_ws(rest) =~= out@ + collapse_ws(v@.skip(i as int)));
            }
        }
    }
    proof {
        assert(v@.skip(n as int) =~= Seq::<char>::empty());
        assert(out@ =~= collapse_ws(v@));
    }
    out
}

/// A nonempty input that starts with a non-space keeps that first character.
proof fn lemma_collapse_first(s: Seq<char>)
    ensures
        s.len() > 0 && !is_space(s[0]) ==> collapse_ws(s).len() > 0 && collapse_ws(s)[0] == s[0],
{
}

/// Whitespace surviving the collapse is always the plain space character.
proof fn lemma_collapse_spaces(s: Seq<char>)
    ensures
        forall|i: int|
            0 <= i < collapse_ws(s).len() && is_space(collapse_ws(s)[i]) ==> collapse_ws(s)[i]
                == ' ',
    decreases s.len(),
{
    if s.len() > 0 {
        lemma_collapse_spaces(s.drop_first());
        let c = collapse_ws(s);
        let rest = collapse_ws(s.drop_first());
        assert forall|i: int| 0 <= i < c.len() && is_space(c[i]) implies c[i] == ' ' by {
            if is_space(s[0]) && s.len() > 1 && is_space(s[1]) {
            } else if is_space(s[0]) {
                if i > 0 {
                    assert(c[i] == rest[i - 1]);
                }
            } else {
                if i > 0 {
                    assert(c[i] == rest[i - 1]);
                }
            }
        }
    }
}

/// The collapse never leaves two adjacent whitespace characters.
proof fn lemma_collapse_no_double(s: Seq<char>)
    ensures
        forall|i: int|
            0 <= i && i + 1 < collapse_ws(s).len() ==> !(is_space(#[trigger] collapse_ws(s)[i])
                && is_space(collapse_ws(s)[i + 1])),
    decreases s.len(),
{
    if s.len() > 0 {
        lemma_collapse_no_double(s.drop_first());
        let c = collapse_ws(s);
        let rest = collapse_ws(s.drop_first());
        assert forall|i: int| 0 <= i && i + 1 < c.len() implies !(is_space(#[trigger] c[i])
            && is_space(c[i + 1])) by {
            if is_space(s[0]) && s.len() > 1 && is_space(s[1]) {
            } else if is_space(s[0]) {
                // c == [' '] + rest, and the tail of s starts with a non-space
                if i == 0 {
                    if s.len() > 1 {
                        lemma_collapse_first(s.drop_first());
                        assert(c[1] == rest[0]);
                        assert(rest[0] == s.drop_first()[0]);
                    }
                } else {
                    assert(c[i] == rest[i - 1]);
                    assert(c[i + 1] == rest[i]);
                }
            } else {
                if i > 0 {
                    assert(c[i] == rest[i - 1]);
                    assert(c[i + 1] == rest[i]);
                }
            }
        }
    }
}

/// A string with single plain spaces only is already collapsed.
proof fn lemma_collapse_identity(s: Seq<char>)
    requires
        forall|i: int| 0 <= i < s.len() && is_space(s[i]) ==> s[i] == ' ',
        forall|i: int| 0 <= i && i + 1 < s.len() ==> !(is_space(#[trigger] s[i]) && is_space(s[i + 1])),
    ensures
        collapse_ws(s) == s,
    decreases s.len(),
{
    if s.len() > 0 {
        let rest = s.drop_first();
        assert(forall|i: int| 0 <= i < rest.len() ==> rest[i] == s[i + 1]);
        lemma_collapse_identity(rest);
        if is_space(s[0]) {
            assert(s[0] == ' ');
            assert(!(s.len() > 1 && is_space(s[1])));
            assert(collapse_ws(s) =~= s);
        } else {
            assert(collapse_ws(s) =~= s);
        }
    }
}

// ---------------------------------------------------------------------------
// Banned-phrase removal
// ---------------------------------------------------------------------------

/// Start of the maximal whitespace run that ends just before position `k`.
pub open spec fn ws_run_start(s: Seq<char>, k: int) -> int
    decreases k,
{
    if k > 0 && k <= s.len() && is_space(s[k - 1]) {
        ws_run_start(s, k - 1)
    } else {
        k
    }
}

pub proof fn lemma_ws_run_start(s: Seq<char>, k: int)
    requires
        0 <= k <= s.len(),
    ensures
        0 <= ws_run_start(s, k) <= k,
        forall|j: int| ws_run_start(s, k) <= j < k ==> is_space(s[j]),
        ws_run_start(s, k) > 0 ==> !is_space(s[ws_run_start(s, k) - 1]),
    decreases k,
{
    if k > 0 && is_space(s[k - 1]) {
        lemma_ws_run_start(s, k - 1);
    }
}

/// Removal of every (non-overlapping, leftmost-first) case-insensitive
/// occurrence of the phrase, together with the whitespace run just before it.
pub open spec fn remove_pat(s: Seq<char>, p: Seq<char>) -> Seq<char>
    decreases s.len(),
{
    if p.len() == 0 {
        s
    } else {
        let k = first_match_ci_from(s, p, 0);
        if k < 0 || k + p.len() > s.len() {
            s
        } else {
            s.subrange(0, ws_run_start(s, k)) + remove_pat(
                s.subrange(k + p.len(), s.len() as int),
                p,
            )
        }
    }
}

/// A string without the phrase is unchanged by its removal.
pub proof fn lemma_remove_pat_absent(s: Seq<char>, p: Seq<char>)
    requires
        p.len() == 0 || first_match_ci_from(s, p, 0) < 0,
    ensures
        remove_pat(s, p) == s,
{
}

/// Matches at or after `off` in `s` line up with matches in `s.skip(off)`.
proof fn lemma_first_ci_skip(s: Seq<char>, p: Seq<char>, off: int, k: int)
    requires
        0 <= off <= s.len(),
        off <= k,
    ensures
        first_match_ci_from(s, p, k) >= 0 ==> first_match_ci_from(s.skip(off), p, k - off)
            == first_match_ci_from(s, p, k) - off,
        first_match_ci_from(s, p, k) < 0 ==> first_match_ci_from(s.skip(off), p, k - off) < 0,
    decreases s.len() - k,
{
    assert(s.skip(off).len() == s.len() - off);
    if k + p.len() > s.len() {
    } else {
        assert(matches_ci_at(s, p, k) == matches_ci_at(s.skip(off), p, k - off)) by {
            assert(forall|j: int|
                0 <= j < p.len() ==> #[trigger] s.skip(off)[k - off + j] == s[k + j]);
        }
        if matches_ci_at(s, p, k) {
        } else {
            lemma_first_ci_skip(s, p, off, k + 1);
        }
    }
}

fn copy_chars(v: &Vec<char>) -> (r: Vec<char>)
    ensures
        r@ == v@,
{
    let n = v.len();
    let mut r: Vec<char> = Vec::new();
    let mut i: usize = 0;
    while i < n
        invariant
            n == v@.len(),
            i <= n,
            r@ == v@.subrange(0, i as int),
        decreases n - i,
    {
        r.push(v[i]);
        i = i + 1;
        assert(r@ =~= v@.subrange(0, i as int));
    }
    assert(r@ =~= v@);
    r
}

fn remove_pat_chars(v: &Vec<char>, p: &Vec<char>) -> (r: Vec<char>)
    ensures
        r@ == remove_pat(v@, p@),
{
    if p.len() == 0 {
        return copy_chars(v);
    }
    let n = v.len();
    let mut out: Vec<char> = Vec::new();
    let mut pos: usize = 0;
    proof {
        assert(v@.skip(0) =~= v@);
    }
    while pos < n
        invariant
            n == v@.len(),
            pos <= n,
            p@.len() > 0,
            remove_pat(v@, p@) == out@ + remove_pat(v@.skip(pos as int), p@),
        decreases n - pos,
    {
        let ghost pre = out@;
        let ghost rest = v@.skip(pos as int);
        proof {
            assert(rest.len() == n - pos);
        }
        match find_match_ci_from(v, p, pos) {
            None => {
                // no phrase from here on: the tail is kept as it stands
                proof {
                    lemma_first_ci_skip(v@, p@, pos as int, pos as int);
                    lemma_remove_pat_absent(rest, p@);
                }
                let mut i: usize = pos;
                while i < n
                    invariant
                        n == v@.len(),
                        pos <= i <= n,
                        out@ == pre + v@.subrange(pos as int, i as int),
                    decreases n - i,
                {
                    out.push(v[i]);
                    i = i + 1;
                    assert(out@ =~= pre + v@.subrange(pos as int, i as int));
                }
                proof {
                    assert(v@.subrange(pos as int, n as int) =~= rest);
                    assert(v@.skip(n as int) =~= Seq::<char>::empty());
                    assert(out@ + remove_pat(v@.skip(n as int), p@) =~= pre + rest);
                }
                pos = n;
            },
            Some(k) => {
                proof {
                    lemma_first_match_ci_from(v@, p@, pos as int);
                    lemma_first_ci_skip(v@, p@, pos as int, pos as int);
                }
                assert(matches_ci_at(v@, p@, k as int));
                assert(first_match_ci_from(rest, p@, 0) == k - pos);
                // back over the whitespace run that precedes the phrase
                let mut w: usize = k;
                while w > pos && space_char(v[w - 1])
                    invariant
                        n == v@.len(),
                        pos <= w <= k,
                        k <= n,
                        forall|j: int| w <= j < k ==> is_space(v@[j]),
                    decreases w,
                {
                    w = w - 1;
                }
                proof {
                    lemma_ws_run_start(rest, k - pos);
                    let wr = ws_run_start(rest, k - pos);
                    assert(forall|j: int| 0 <= j < rest.len() ==> rest[j] == v@[pos + j]);
                    if wr < w - pos {
                        assert(is_space(rest[w - pos - 1]));
                        assert(!is_space(v@[w as int - 1]));
                        assert(false);
                    }
                    if w - pos < wr {
                        assert(is_space(rest[wr - 1]));
                        assert(is_space(v@[pos + wr - 1]));
                        assert(forall|j: int| wr <= j < k - pos ==> is_space(rest[j]));
                        assert(false);
                    }
                    assert(wr == w - pos);
                }
                let mut i: usize = pos;
                while i < w
                    invariant
                        n == v@.len(),
                        pos <= i <= w <= n,
                        out@ == pre + v@.subrange(pos as int, i as int),
                    decreases w - i,
                {
                    out.push(v[i]);
                    i = i + 1;
                    assert(out@ =~= pre + v@.subrange(pos as int, i as int));
                }
                let new_pos = k + p.len();
                proof {
                    assert(k + p@.len() <= n);
                    assert(remove_pat(rest, p@) == rest.subrange(0, (w - pos) as int)
                        + remove_pat(rest.subrange((k - pos) as int + p@.len(), rest.len() as int), p@));
                    assert(rest.subrange(0, (w - pos) as int) =~= v@.subrange(
                        pos as int,
                        w as int,
                    ));
                    assert(rest.subrange((k - pos) as int + p@.len(), rest.len() as int) =~= v@.skip(
                        new_pos as int,
                    ));
                    assert(pre + remove_pat(rest, p@) =~= out@ + remove_pat(
                        v@.skip(new_pos as int),
                        p@,
                    ));
                }
                pos = new_pos;
            },
        }
    }
    proof {
        assert(v@.skip(n as int) =~= Seq::<char>::empty());
        assert(out@ =~= remove_pat(v@, p@));
    }
    out
}

// ---------------------------------------------------------------------------
// The ban-list
// ---------------------------------------------------------------------------

/// How many banned phrases the sanitizer knows.
pub const BAN_COUNT: usize = 37;

/// The fixed list of banned decorations, in the order they are removed.
pub open spec fn banned_spec(i: int) -> Seq<char> {
    if i == 0 { "[Audio HD]"@ }
    else if i == 1 { "(Radio Mix)"@ }
    else if i == 2 { "(Official Video)"@ }
    else if i == 3 { "(lyrics)"@ }
    else if i == 4 { "(Radio Edit)"@ }
    else if i == 5 { "[High Quality]"@ }
    else if i == 6 { "(Official Music Video)"@ }
    else if i == 7 { "(Audio)"@ }
    else if i == 8 { "[Clean version]"@ }
    else if i == 9 { "[visualizer]"@ }
    else if i == 10 { "[Official]"@ }
    else if i == 11 { "[Lyric Video]"@ }
    else if i == 12 { "[Lyrics]"@ }
    else if i == 13 { "(Lyric Video)"@ }
    else if i == 14 { "(Explicit)"@ }
    else if i == 15 { "[Explicit]"@ }
    else if i == 16 { "(Clean)"@ }
    else if i == 17 { "[Live]"@ }
    else if i == 18 { "(Studio)"@ }
    else if i == 19 { "[Studio]"@ }
    else if i == 20 { "[Remastered]"@ }
    else if i == 21 { "[Remix]"@ }
    else if i == 22 { "(Remix)"@ }
    else if i == 23 { "[DJ Mix]"@ }
    else if i == 24 { "(DJ Mix)"@ }
    else if i == 25 { "[Acoustic]"@ }
    else if i == 26 { "(Acoustic)"@ }
    else if i == 27 { "[Instrumental]"@ }
    else if i == 28 { "(Instrumental)"@ }
    else if i == 29 { "[Extended]"@ }
    else if i == 30 { "(Extended)"@ }
    else if i == 31 { "[Edit]"@ }
    else if i == 32 { "(Edit)"@ }
    else if i == 33 { "[Version]"@ }
    else if i == 34 { "(Version)"@ }
    else if i == 35 { "[Mixed]"@ }
    else { "(Mixed)"@ }
}

fn banned_phrase(i: usize) -> (p: Vec<char>)
    requires
        i < BAN_COUNT,
    ensures
        p@ == banned_spec(i as int),
{
    if i == 0 { chars_of("[Audio HD]") }
    else if i == 1 { chars_of("(Radio Mix)") }
    else if i == 2 { chars_of("(Official Video)") }
    else if i == 3 { chars_of("(lyrics)") }
    else if i == 4 { chars_of("(Radio Edit)") }
    else if i == 5 { chars_of("[High Quality]") }
    else if i == 6 { chars_of("(Official Music Video)") }
    else if i == 7 { chars_of("(Audio)") }
    else if i == 8 { chars_of("[Clean version]") }
    else if i == 9 { chars_of("[visualizer]") }
    else if i == 10 { chars_of("[Official]") }
    else if i == 11 { chars_of("[Lyric Video]") }
    else if i == 12 { chars_of("[Lyrics]") }
    else if i == 13 { chars_of("(Lyric Video)") }
    else if i == 14 { chars_of("(Explicit)") }
    else if i == 15 { chars_of("[Explicit]") }
    else if i == 16 { chars_of("(Clean)") }
    else if i == 17 { chars_of("[Live]") }
    else if i == 18 { chars_of("(Studio)") }
    else if i == 19 { chars_of("[Studio]") }
    else if i == 20 { chars_of("[Remastered]") }
    else if i == 21 { chars_of("[Remix]") }
    else if i == 22 { chars_of("(Remix)") }
    else if i == 23 { chars_of("[DJ Mix]") }
    else if i == 24 { chars_of("(DJ Mix)") }
    else if i == 25 { chars_of("[Acoustic]") }
    else if i == 26 { chars_of("(Acoustic)") }
    else if i == 27 { chars_of("[Instrumental]") }
    else if i == 28 { chars_of("(Instrumental)") }
    else if i == 29 { chars_of("[Extended]") }
    else if i == 30 { chars_of("(Extended)") }
    else if i == 31 { chars_of("[Edit]") }
    else if i == 32 { chars_of("(Edit)") }
    else if i == 33 { chars_of("[Version]") }
    else if i == 34 { chars_of("(Version)") }
    else if i == 35 { chars_of("[Mixed]") }
    else { chars_of("(Mixed)") }
}

/// Removal of the first `n` banned phrases, applied in list order.
pub open spec fn remove_list(s: Seq<char>, n: int) -> Seq<char>
    decreases n,
{
    if n <= 0 {
        s
    } else {
        remove_pat(remove_list(s, n - 1), banned_spec(n - 1))
    }
}

/// What `clean_filename` computes: ban-list removal, then whitespace
/// normalization, then a trim of the ends.
pub open spec fn sanitize_spec(s: Seq<char>) -> Seq<char> {
    trim_spec(collapse_ws(remove_list(s, BAN_COUNT as int)))
}

/// Removes every banned decoration from the name (ignoring ASCII case, along
/// with the whitespace just before it), collapses whitespace runs to single
/// spaces, and trims the ends.
pub fn clean_filename(original_name: &str) -> (r: String)
    ensures
        r@ == sanitize_spec(original_name@),
{
    let mut cur = chars_of(original_name);
    let mut i: usize = 0;
    while i < BAN_COUNT
        invariant
            i <= BAN_COUNT,
            cur@ == remove_list(original_name@, i as int),
        decreases BAN_COUNT - i,
    {
        let p = banned_phrase(i);
        cur = remove_pat_chars(&cur, &p);
        i = i + 1;
    }
    let collapsed = collapse_chars(&cur);
    let trimmed = trim_chars(&collapsed);
    string_of(&trimmed)
}

// ---------------------------------------------------------------------------
// Idempotence
// ---------------------------------------------------------------------------

/// Some banned phrase still occurs in the string (ignoring ASCII case).
pub open spec fn contains_banned_ci(s: Seq<char>) -> bool {
    exists|i: int| 0 <= i < BAN_COUNT && first_match_ci_from(s, banned_spec(i), 0) >= 0
}

/// A string free of banned phrases is unchanged by the whole removal pass.
proof fn lemma_remove_list_absent(s: Seq<char>, n: int)
    requires
        !contains_banned_ci(s),
        0 <= n <= BAN_COUNT,
    ensures
        remove_list(s, n) == s,
    decreases n,
{
    if n > 0 {
        lemma_remove_list_absent(s, n - 1);
        assert(first_match_ci_from(s, banned_spec(n - 1), 0) < 0);
        lemma_remove_pat_absent(s, banned_spec(n - 1));
    }
}

/// Sanitizing is idempotent on every input whose sanitized form is free of
/// banned phrases.  (When a banned phrase survives the first pass -- which
/// takes nested decorations spliced inside one another -- a second pass
/// removes it, so the two sides differ on exactly those inputs.)
pub proof fn lemma_sanitize_idempotent(s: Seq<char>)
    requires
        !contains_banned_ci(sanitize_spec(s)),
    ensures
        sanitize_spec(sanitize_spec(s)) == sanitize_spec(s),
{
    let x = remove_list(s, BAN_COUNT as int);
    let c = collapse_ws(x);
    let r = sanitize_spec(s);
    assert(r == trim_spec(c));
    lemma_remove_list_absent(r, BAN_COUNT as int);
    // r inherits the collapsed shape from c through the trim
    lemma_collapse_spaces(x);
    lemma_collapse_no_double(x);
    lemma_first_non_space(c);
    lemma_last_non_space_end(c);
    let a = first_non_space(c);
    let b = last_non_space_end(c);
    if a < b {
        assert(r =~= c.subrange(a, b));
        assert(forall|i: int| 0 <= i < r.len() ==> r[i] == c[a + i]);
        assert(forall|i: int| 0 <= i < r.len() && is_space(r[i]) ==> r[i] == ' ');
        assert(forall|i: int|
            0 <= i && i + 1 < r.len() ==> !(is_space(#[trigger] r[i]) && is_space(r[i + 1])));
        lemma_collapse_identity(r);
        lemma_trim_ends(c);
        assert(trim_spec(r) == r) by {
            assert(trim_spec(c) == r);
            lemma_trim_ends(c);
        }
        assert(sanitize_spec(r) == r);
    } else {
        assert(r =~= Seq::<char>::empty());
        assert(remove_list(r, BAN_COUNT as int) == r);
        assert(collapse_ws(r) =~= Seq::<char>::empty());
        assert(trim_spec(collapse_ws(r)) =~= Seq::<char>::empty());
        assert(sanitize_spec(r) == r);
    }
}

// ---------------------------------------------------------------------------
// Renaming a downloaded file
// ---------------------------------------------------------------------------

/// The name with the first `[id]` token removed, along with the whitespace
/// run just before it; a name without the token is unchanged.  The token was
/// embedded in the on-disk name purely to avoid collisions.
pub open spec fn strip_id_spec(stem: Seq<char>, id: Seq<char>) -> Seq<char> {
    let tok = seq!['['] + id + seq![']'];
    let k = first_match_from(stem, tok, 0);
    if k < 0 {
        stem
    } else {
        stem.subrange(0, ws_run_start(stem, k)) + stem.subrange(
            k + tok.len(),
            stem.len() as int,
        )
    }
}

/// Removes the embedded `[id]` collision token from a file stem.
pub fn strip_video_id_token(stem: &str, video_id: &str) -> (r: String)
    ensures
        r@ == strip_id_spec(stem@, video_id@),
{
    let v = chars_of(stem);
    let idv = chars_of(video_id);
    let mut tok: Vec<char> = Vec::new();
    tok.push('[');
    let mut j: usize = 0;
    while j < idv.len()
        invariant
            j <= idv@.len(),
            tok@ == seq!['['] + idv@.take(j as int),
        decreases idv@.len() - j,
    {
        tok.push(idv[j]);
        j = j + 1;
        assert(tok@ =~= seq!['['] + idv@.take(j as int));
    }
    tok.push(']');
    proof {
        assert(idv@.take(idv@.len() as int) =~= idv@);
        assert(tok@ =~= seq!['['] + video_id@ + seq![']']);
    }
    let n = v.len();
    match crate::text::find_match_from(&v, &tok, 0) {
        None => string_of(&v),
        Some(k) => {
            proof {
                crate::text::lemma_first_match_from(v@, tok@, 0);
                lemma_ws_run_start(v@, k as int);
            }
            let mut w: usize = k;
            while w > 0 && space_char(v[w - 1])
                invariant
                    n == v@.len(),
                    w <= k <= n,
                    forall|j2: int| w <= j2 < k ==> is_space(v@[j2]),
                decreases w,
            {
                w = w - 1;
            }
            proof {
                let wr = ws_run_start(v@, k as int);
                if wr < w {
                    assert(is_space(v@[w as int - 1]));
                    assert(false);
                }
                if w < wr {
                    assert(is_space(v@[wr - 1]));
                    assert(false);
                }
            }
            let mut out: Vec<char> = crate::text::sub_chars(&v, 0, w);
            let mut i: usize = k + tok.len();
            while i < n
                invariant
                    n == v@.len(),
                    k + tok@.len() <= i <= n,
                    out@ == v@.subrange(0, w as int) + v@.subrange(
                        (k + tok@.len()) as int,
                        i as int,
                    ),
                decreases n - i,
            {
                out.push(v[i]);
                i = i + 1;
                assert(out@ =~= v@.subrange(0, w as int) + v@.subrange(
                    (k + tok@.len()) as int,
                    i as int,
                ));
            }
            proof {
                assert(out@ =~= strip_id_spec(stem@, video_id@));
            }
            string_of(&out)
        },
    }
}

/// The final on-disk name for a downloaded track: the stem without its
/// collision token, sanitized, with the audio extension.
pub fn plan_final_filename(file_stem: &str, video_id: &str) -> (r: String)
    ensures
        r@ == sanitize_spec(strip_id_spec(file_stem@, video_id@)) + ".mp3"@,
{
    let stripped = strip_video_id_token(file_stem, video_id);
    let cleaned = clean_filename(stripped.as_str());
    cleaned.concat(".mp3")
}

// ---------------------------------------------------------------------------
// Transcode planning
// ---------------------------------------------------------------------------

/// The argument list handed to the audio transcoder for an MP3 extraction.
pub open spec fn mp3_args_spec(input: Seq<char>, output: Seq<char>) -> Seq<Seq<char>> {
    seq![
        "-i"@,
        input,
        "-vn"@,
        "-acodec"@,
        "libmp3lame"@,
        "-q:a"@,
        "0"@,
        "-y"@,
        output,
    ]
}

/// Plans an MP3 conversion: rejects a missing input file, and otherwise
/// yields the exact transcoder argument list for the given paths.
pub fn convert_to_mp3(input_path: &str, output_path: &str, input_exists: bool) -> (r: Result<
    Vec<String>,
    String,
>)
    ensures
        !input_exists ==> r is Err && r->Err_0@ == "Input file does not exist: "@ + input_path@,
        input_exists ==> r is Ok && r->Ok_0.deep_view() == mp3_args_spec(
            input_path@,
            output_path@,
        ),
{
    if !input_exists {
        let msg = String::from_str("Input file does not exist: ").concat(input_path);
        return Err(msg);
    }
    let mut args: Vec<String> = Vec::new();
    args.push(String::from_str("-i"));
    args.push(String::from_str(input_path));
    args.push(String::from_str("-vn"));
    args.push(String::from_str("-acodec"));
    args.push(String::from_str("libmp3lame"));
    args.push(String::from_str("-q:a"));
    args.push(String::from_str("0"));
    args.push(String::from_str("-y"));
    args.push(String::from_str(output_path));
    proof {
        assert(args.deep_view() =~~= mp3_args_spec(input_path@, output_path@));
    }
    Ok(args)
}

} // verus!
