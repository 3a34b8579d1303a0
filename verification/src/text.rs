//! Character-level helpers shared by the text transforms of this library:
//! whitespace classification, ASCII case folding, trimming, substring
//! search, and decimal rendering of numbers.
use vstd::prelude::*;
use vstd::string::StrSliceExecFns;

verus! {

/// The whitespace characters this library recognizes.
pub open spec fn is_space(c: char) -> bool {
    c == ' ' || c == '\t' || c == '\n' || c == '\r' || c == '\u{b}' || c == '\u{c}'
}

pub fn space_char(c: char) -> (r: bool)
    ensures
        r == is_space(c),
{
    c == ' ' || c == '\t' || c == '\n' || c == '\r' || c == '\u{b}' || c == '\u{c}'
}

/// ASCII lower-casing of a single character; other characters are unchanged.
pub open spec fn lower_char(c: char) -> char {
    if 'A' <= c && c <= 'Z' {
        ((c as u8) + 32) as char
    } else {
        c
    }
}

pub fn to_lower_char(c: char) -> (r: char)
    ensures
        r == lower_char(c),
{
    if 'A' <= c && c <= 'Z' {
        ((c as u8) + 32) as char
    } else {
        c
    }
}

/// The characters of a string slice, in order.
pub fn chars_of(s: &str) -> (v: Vec<char>)
    ensures
        v@ == s@,
{
    let n = s.unicode_len();
    let mut v: Vec<char> = Vec::new();
    let mut i: usize = 0;
    while i < n
        invariant
            n == s@.len(),
            i <= n,
            v@ == s@.subrange(0, i as int),
        decreases n - i,
    {
        v.push(s.get_char(i));
        i = i + 1;
        assert(v@ =~= s@.subrange(0, i as int));
    }
    assert(v@ =~= s@);
    v
}

/// Relies on String::push: appends one character to the string.
#[verifier::external_body]
fn push_char(s: &mut String, c: char)
    ensures
        final(s)@ == old(s)@.push(c),
{
    s.push(c);
}

/// A freshly allocated string holding exactly the given characters.
pub fn string_of(v: &Vec<char>) -> (s: String)
    ensures
        s@ == v@,
{
    let mut s = String::new();
    let mut i: usize = 0;
    while i < v.len()
        invariant
            i <= v@.len(),
            s@ == v@.subrange(0, i as int),
        decreases v@.len() - i,
    {
        push_char(&mut s, v[i]);
        i = i + 1;
        assert(s@ =~= v@.subrange(0, i as int));
    }
    assert(s@ =~= v@);
    s
}

// ---------------------------------------------------------------------------
// Trimming
// ---------------------------------------------------------------------------

/// Index of the first character that is not whitespace (the length if all are).
pub open spec fn first_non_space(s: Seq<char>) -> int
    decreases s.len(),
{
    if s.len() == 0 {
        0
    } else if is_space(s[0]) {
        1 + first_non_space(s.drop_first())
    } else {
        0
    }
}

/// One past the index of the last character that is not whitespace (0 if all are).
pub open spec fn last_non_space_end(s: Seq<char>) -> int
    decreases s.len(),
{
    if s.len() == 0 {
        0
    } else if is_space(s.last()) {
        last_non_space_end(s.drop_last())
    } else {
        s.len() as int
    }
}

/// The string with leading and trailing whitespace removed.
pub open spec fn trim_spec(s: Seq<char>) -> Seq<char> {
    if first_non_space(s) < last_non_space_end(s) {
        s.subrange(first_non_space(s), last_non_space_end(s))
    } else {
        Seq::empty()
    }
}

pub proof fn lemma_first_non_space(s: Seq<char>)
    ensures
        0 <= first_non_space(s) <= s.len(),
        forall|j: int| 0 <= j < first_non_space(s) ==> is_space(s[j]),
        first_non_space(s) < s.len() ==> !is_space(s[first_non_space(s)]),
    decreases s.len(),
{
    if s.len() > 0 && is_space(s[0]) {
        lemma_first_non_space(s.drop_first());
        assert forall|j: int| 0 <= j < first_non_space(s) implies is_space(s[j]) by {
            if j > 0 {
                assert(s.drop_first()[j - 1] == s[j]);
            }
        }
    }
}

pub proof fn lemma_last_non_space_end(s: Seq<char>)
    ensures
        0 <= last_non_space_end(s) <= s.len(),
        forall|j: int| last_non_space_end(s) <= j < s.len() ==> is_space(s[j]),
        last_non_space_end(s) > 0 ==> !is_space(s[last_non_space_end(s) - 1]),
    decreases s.len(),
{
    if s.len() > 0 && is_space(s.last()) {
        lemma_last_non_space_end(s.drop_last());
        assert forall|j: int| last_non_space_end(s) <= j < s.len() implies is_space(s[j]) by {
            if j < s.len() - 1 {
                assert(s.drop_last()[j] == s[j]);
            }
        }
    }
}

/// A string whose first and last characters are not whitespace is fixed by trimming.
pub proof fn lemma_trim_fixed(s: Seq<char>)
    requires
        s.len() == 0 || (!is_space(s[0]) && !is_space(s[s.len() - 1])),
    ensures
        trim_spec(s) == s,
{
    if s.len() == 0 {
        assert(trim_spec(s) =~= s);
    } else {
        assert(first_non_space(s) == 0);
        assert(last_non_space_end(s) == s.len());
        assert(trim_spec(s) =~= s);
    }
}

/// Trimming leaves a string that is fixed by trimming (ends are not whitespace).
pub proof fn lemma_trim_ends(s: Seq<char>)
    ensures
        trim_spec(s).len() > 0 ==> !is_space(trim_spec(s)[0]) && !is_space(
            trim_spec(s)[trim_spec(s).len() - 1],
        ),
        trim_spec(trim_spec(s)) == trim_spec(s),
{
    lemma_first_non_space(s);
    lemma_last_non_space_end(s);
    let a = first_non_space(s);
    let b = last_non_space_end(s);
    if a < b {
        assert(!is_space(s[a]));
        assert(b <= s.len());
        assert(!is_space(s[b - 1])) by {
            if b == s.len() {
            }
        }
        assert(trim_spec(s)[0] == s[a]);
        assert(trim_spec(s)[trim_spec(s).len() - 1] == s[b - 1]);
        lemma_trim_fixed(trim_spec(s));
    } else {
        assert(trim_spec(s).len() == 0);
        lemma_trim_fixed(trim_spec(s));
    }
}

/// The trimmed copy of a character vector.
pub fn trim_chars(v: &Vec<char>) -> (r: Vec<char>)
    ensures
        r@ == trim_spec(v@),
{
    proof {
        lemma_first_non_space(v@);
        lemma_last_non_space_end(v@);
    }
    let n = v.len();
    let mut a: usize = 0;
    while a < n && space_char(v[a])
        invariant
            n == v@.len(),
            a <= n,
            forall|j: int| 0 <= j < a ==> is_space(v@[j]),
        decreases n - a,
    {
        a = a + 1;
    }
    proof {
        // a is the first non-space index: both satisfy the same characterization
        if a < first_non_space(v@) {
            assert(is_space(v@[a as int]));
        }
        if first_non_space(v@) < a {
            assert(is_space(v@[first_non_space(v@)]));
        }
        assert(a == first_non_space(v@));
    }
    let mut b: usize = n;
    while b > a && space_char(v[b - 1])
        invariant
            n == v@.len(),
            a <= b <= n,
            a == first_non_space(v@),
            forall|j: int| b <= j < n ==> is_space(v@[j]),
        decreases b,
    {
        b = b - 1;
    }
    let mut r: Vec<char> = Vec::new();
    if b == a {
        proof {
            // everything from a on is whitespace, so the trim is empty
            if last_non_space_end(v@) > a {
                assert(is_space(v@[last_non_space_end(v@) - 1]));
            }
            assert(trim_spec(v@) =~= r@);
        }
        return r;
    }
    proof {
        assert(!is_space(v@[b - 1]));
        if b < last_non_space_end(v@) {
            assert(is_space(v@[last_non_space_end(v@) - 1]));
        }
        if last_non_space_end(v@) < b {
            assert(is_space(v@[b - 1]));
        }
        assert(b == last_non_space_end(v@));
    }
    let mut i: usize = a;
    while i < b
        invariant
            a <= i <= b <= n,
            n == v@.len(),
            r@ == v@.subrange(a as int, i as int),
        decreases b - i,
    {
        r.push(v[i]);
        i = i + 1;
        assert(r@ =~= v@.subrange(a as int, i as int));
    }
    proof {
        assert(r@ =~= trim_spec(v@));
    }
    r
}

// ---------------------------------------------------------------------------
// Substring search
// ---------------------------------------------------------------------------

/// The pattern occurs at position `i` of `s`, character for character.
pub open spec fn matches_at(s: Seq<char>, p: Seq<char>, i: int) -> bool {
    &&& 0 <= i
    &&& i + p.len() <= s.len()
    &&& forall|j: int| 0 <= j < p.len() ==> s[i + j] == p[j]
}

/// The pattern occurs at position `i` of `s`, ignoring ASCII case.
pub open spec fn matches_ci_at(s: Seq<char>, p: Seq<char>, i: int) -> bool {
    &&& 0 <= i
    &&& i + p.len() <= s.len()
    &&& forall|j: int| 0 <= j < p.len() ==> lower_char(s[i + j]) == lower_char(p[j])
}

pub fn check_match_at(s: &Vec<char>, p: &Vec<char>, i: usize) -> (r: bool)
    requires
        i <= s@.len(),
    ensures
        r == matches_at(s@, p@, i as int),
{
    if s.len() - i < p.len() {
        return false;
    }
    let n = s.len();
    let mut j: usize = 0;
    while j < p.len()
        invariant
            n == s@.len(),
            i + p@.len() <= n,
            j <= p@.len(),
            forall|k: int| 0 <= k < j ==> s@[i + k] == p@[k],
        decreases p@.len() - j,
    {
        if s[i + j] != p[j] {
            return false;
        }
        j = j + 1;
    }
    true
}

pub fn check_match_ci_at(s: &Vec<char>, p: &Vec<char>, i: usize) -> (r: bool)
    requires
        i <= s@.len(),
    ensures
        r == matches_ci_at(s@, p@, i as int),
{
    if s.len() - i < p.len() {
        return false;
    }
    let n = s.len();
    let mut j: usize = 0;
    while j < p.len()
        invariant
            n == s@.len(),
            i + p@.len() <= n,
            j <= p@.len(),
            forall|k: int| 0 <= k < j ==> lower_char(s@[i + k]) == lower_char(p@[k]),
        decreases p@.len() - j,
    {
        if to_lower_char(s[i + j]) != to_lower_char(p[j]) {
            return false;
        }
        j = j + 1;
    }
    true
}

/// Index of the first occurrence of `p` at or after `k`, or -1 if there is none.
pub open spec fn first_match_from(s: Seq<char>, p: Seq<char>, k: int) -> int
    decreases s.len() - k,
{
    if k < 0 || k + p.len() > s.len() {
        -1
    } else if matches_at(s, p, k) {
        k
    } else {
        first_match_from(s, p, k + 1)
    }
}

/// Index of the first case-insensitive occurrence of `p` at or after `k`, or -1.
pub open spec fn first_match_ci_from(s: Seq<char>, p: Seq<char>, k: int) -> int
    decreases s.len() - k,
{
    if k < 0 || k + p.len() > s.len() {
        -1
    } else if matches_ci_at(s, p, k) {
        k
    } else {
        first_match_ci_from(s, p, k + 1)
    }
}

pub proof fn lemma_first_match_from(s: Seq<char>, p: Seq<char>, k: int)
    requires
        0 <= k,
    ensures
        first_match_from(s, p, k) == -1 ==> forall|j: int| j >= k ==> !matches_at(s, p, j),
        first_match_from(s, p, k) >= 0 ==> k <= first_match_from(s, p, k) && matches_at(
            s,
            p,
            first_match_from(s, p, k),
        ) && forall|j: int| k <= j < first_match_from(s, p, k) ==> !matches_at(s, p, j),
    decreases s.len() - k,
{
    if !(k + p.len() > s.len()) && !matches_at(s, p, k) {
        lemma_first_match_from(s, p, k + 1);
    }
}

pub proof fn lemma_first_match_ci_from(s: Seq<char>, p: Seq<char>, k: int)
    requires
        0 <= k,
    ensures
        first_match_ci_from(s, p, k) == -1 ==> forall|j: int| j >= k ==> !matches_ci_at(s, p, j),
        first_match_ci_from(s, p, k) >= 0 ==> k <= first_match_ci_from(s, p, k) && matches_ci_at(
            s,
            p,
            first_match_ci_from(s, p, k),
        ) && forall|j: int| k <= j < first_match_ci_from(s, p, k) ==> !matches_ci_at(s, p, j),
    decreases s.len() - k,
{
    if !(k + p.len() > s.len()) && !matches_ci_at(s, p, k) {
        lemma_first_match_ci_from(s, p, k + 1);
    }
}

pub fn find_match_from(s: &Vec<char>, p: &Vec<char>, from: usize) -> (r: Option<usize>)
    ensures
        r is Some ==> first_match_from(s@, p@, from as int) == r->0,
        r is None ==> first_match_from(s@, p@, from as int) == -1,
{
    let n = s.len();
    let mut i: usize = from;
    while i <= n && n - i >= p.len()
        invariant
            n == s@.len(),
            from <= i,
            first_match_from(s@, p@, from as int) == first_match_from(s@, p@, i as int),
        decreases n + 1 - i,
    {
        if check_match_at(s, p, i) {
            return Some(i);
        }
        i = i + 1;
    }
    None
}

pub fn find_match_ci_from(s: &Vec<char>, p: &Vec<char>, from: usize) -> (r: Option<usize>)
    ensures
        r is Some ==> first_match_ci_from(s@, p@, from as int) == r->0,
        r is None ==> first_match_ci_from(s@, p@, from as int) == -1,
{
    let n = s.len();
    let mut i: usize = from;
    while i <= n && n - i >= p.len()
        invariant
            n == s@.len(),
            from <= i,
            first_match_ci_from(s@, p@, from as int) == first_match_ci_from(s@, p@, i as int),
        decreases n + 1 - i,
    {
        if check_match_ci_at(s, p, i) {
            return Some(i);
        }
        i = i + 1;
    }
    None
}

/// Matches at or after `off` in `s` line up with matches in `s.skip(off)`.
pub proof fn lemma_first_match_skip(s: Seq<char>, p: Seq<char>, off: int, k: int)
    requires
        0 <= off <= s.len(),
        off <= k,
    ensures
        first_match_from(s, p, k) >= 0 ==> first_match_from(s.skip(off), p, k - off)
            == first_match_from(s, p, k) - off,
        first_match_from(s, p, k) < 0 ==> first_match_from(s.skip(off), p, k - off) < 0,
    decreases s.len() - k,
{
    assert(s.skip(off).len() == s.len() - off);
    if k + p.len() > s.len() {
    } else {
        assert(matches_at(s, p, k) == matches_at(s.skip(off), p, k - off)) by {
            assert(forall|j: int|
                0 <= j < p.len() ==> #[trigger] s.skip(off)[k - off + j] == s[k + j]);
        }
        if matches_at(s, p, k) {
        } else {
            lemma_first_match_skip(s, p, off, k + 1);
        }
    }
}

// ---------------------------------------------------------------------------
// Decimal rendering and parsing
// ---------------------------------------------------------------------------

pub open spec fn digit_char(d: int) -> char {
    ((48 + d) as u8) as char
}

/// The decimal digits of a number, most significant first.
pub open spec fn dec_str(n: nat) -> Seq<char>
    decreases n,
{
    if n < 10 {
        seq![digit_char(n as int)]
    } else {
        dec_str(n / 10).push(digit_char((n % 10) as int))
    }
}

pub fn usize_to_string(n: usize) -> (s: String)
    ensures
        s@ == dec_str(n as nat),
    decreases n,
{
    if n < 10 {
        let mut s = String::new();
        push_char(&mut s, (48u8 + n as u8) as char);
        assert(s@ =~= dec_str(n as nat));
        s
    } else {
        let mut s = usize_to_string(n / 10);
        push_char(&mut s, (48u8 + (n % 10) as u8) as char);
        assert(s@ =~= dec_str(n as nat));
        s
    }
}

pub fn u64_to_string(n: u64) -> (s: String)
    ensures
        s@ == dec_str(n as nat),
    decreases n,
{
    if n < 10 {
        let mut s = String::new();
        push_char(&mut s, (48u8 + n as u8) as char);
        assert(s@ =~= dec_str(n as nat));
        s
    } else {
        let mut s = u64_to_string(n / 10);
        push_char(&mut s, (48u8 + (n % 10) as u8) as char);
        assert(s@ =~= dec_str(n as nat));
        s
    }
}

pub open spec fn is_digit(c: char) -> bool {
    '0' <= c && c <= '9'
}

pub open spec fn all_digits(s: Seq<char>) -> bool {
    forall|i: int| 0 <= i < s.len() ==> is_digit(s[i])
}

/// Numeric value of a digit string, most significant digit first.
pub open spec fn dec_val(s: Seq<char>) -> int
    decreases s.len(),
{
    if s.len() == 0 {
        0
    } else {
        dec_val(s.drop_last()) * 10 + (s.last() as int - 48)
    }
}

proof fn lemma_dec_val_bounds(s: Seq<char>)
    requires
        all_digits(s),
    ensures
        dec_val(s) >= 0,
        s.len() > 0 ==> dec_val(s) >= dec_val(s.drop_last()),
    decreases s.len(),
{
    if s.len() > 0 {
        assert(forall|i: int| 0 <= i < s.drop_last().len() ==> s.drop_last()[i] == s[i]);
        lemma_dec_val_bounds(s.drop_last());
    }
}

proof fn lemma_dec_val_monotonic(s: Seq<char>, i: int)
    requires
        all_digits(s),
        0 <= i <= s.len(),
    ensures
        dec_val(s) >= dec_val(s.take(i)),
    decreases s.len() - i,
{
    if i < s.len() {
        lemma_dec_val_monotonic(s, i + 1);
        assert(s.take(i + 1).drop_last() =~= s.take(i));
        assert(forall|j: int| 0 <= j < i + 1 ==> s.take(i + 1)[j] == s[j]);
        lemma_dec_val_bounds(s.take(i + 1));
    } else {
        assert(s.take(i) =~= s);
    }
}

/// The digits-only part of a candidate year: a leading `+` sign is allowed.
pub open spec fn digits_part(s: Seq<char>) -> Seq<char> {
    if s.len() > 0 && s[0] == '+' {
        s.drop_first()
    } else {
        s
    }
}

/// Whether the string is accepted by a decimal parse into a 32-bit number.
pub open spec fn parses_as_u32(s: Seq<char>) -> bool {
    let d = digits_part(s);
    d.len() > 0 && all_digits(d) && dec_val(d) <= u32::MAX
}

pub fn check_u32_string(v: &Vec<char>) -> (r: bool)
    ensures
        r == parses_as_u32(v@),
{
    let n = v.len();
    if n == 0 {
        return false;
    }
    let start: usize = if v[0] == '+' {
        1
    } else {
        0
    };
    let ghost d = digits_part(v@);
    proof {
        assert(d =~= v@.subrange(start as int, n as int));
    }
    if n == start {
        return false;
    }
    let mut acc: u32 = 0;
    let mut i: usize = start;
    while i < n
        invariant
            n == v@.len(),
            start <= i <= n,
            d == digits_part(v@),
            d == v@.subrange(start as int, n as int),
            forall|j: int| start <= j < i ==> is_digit(v@[j]),
            all_digits(d.take(i - start)),
            acc == dec_val(d.take(i - start)),
        decreases n - i,
    {
        let c = v[i];
        if !('0' <= c && c <= '9') {
            assert(!is_digit(d[i - start]));
            return false;
        }
        let dig: u32 = (c as u8 - 48u8) as u32;
        proof {
            assert(d.take(i + 1 - start).drop_last() =~= d.take(i - start));
            assert(d.take(i + 1 - start).last() == v@[i as int]);
            assert(dec_val(d.take(i + 1 - start)) == acc * 10 + dig);
        }
        if acc > 429496729 || (acc == 429496729 && dig > 5) {
            // the value already exceeds what fits in 32 bits
            proof {
                assert(dec_val(d.take(i + 1 - start)) > u32::MAX);
                if all_digits(d) {
                    lemma_dec_val_monotonic(d, i + 1 - start);
                }
            }
            return false;
        }
        acc = acc * 10 + dig;
        i = i + 1;
        proof {
            assert(forall|j: int|
                0 <= j < i - start ==> is_digit(#[trigger] d.take(i - start)[j]));
        }
    }
    proof {
        assert(d.take(n - start) =~= d);
    }
    true
}

/// A copy of the characters in the half-open range `[from, to)`.
pub fn sub_chars(v: &Vec<char>, from: usize, to: usize) -> (r: Vec<char>)
    requires
        from <= to <= v@.len(),
    ensures
        r@ == v@.subrange(from as int, to as int),
{
    let mut r: Vec<char> = Vec::new();
    let mut i: usize = from;
    while i < to
        invariant
            from <= i <= to <= v@.len(),
            r@ == v@.subrange(from as int, i as int),
        decreases to - i,
    {
        r.push(v[i]);
        i = i + 1;
        assert(r@ =~= v@.subrange(from as int, i as int));
    }
    r
}

/// The string ends with the given suffix.
pub open spec fn ends_with_spec(s: Seq<char>, suffix: Seq<char>) -> bool {
    s.len() >= suffix.len() && matches_at(s, suffix, s.len() - suffix.len())
}

pub fn check_ends_with(s: &Vec<char>, suffix: &Vec<char>) -> (r: bool)
    ensures
        r == ends_with_spec(s@, suffix@),
{
    if s.len() < suffix.len() {
        return false;
    }
    check_match_at(s, suffix, s.len() - suffix.len())
}

} // verus!
