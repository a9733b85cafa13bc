//! Coordinates written by ExifTool into Box's `embedded_metadata`
//! (`35 deg 39' 29.99"`, `35 deg 39' 29.99" N`, `35,39.4999N`, `N 35.658`, `35.658`),
//! read into an exact model: the decimal texts of degrees, minutes and seconds
//! and the hemisphere that applies to them.
use vstd::prelude::*;
use crate::charclass::{self, is_digit_char, is_word_char};
use crate::json::{Json, JsonNumber};
use crate::text::{self, from_chars, has_prefix, to_ascii_lower, to_chars, trim_bounds};

verus! {

/// `undef`, which ExifTool writes for a value it cannot read.
pub open spec fn undef_text() -> Seq<char> {
    seq!['u', 'n', 'd', 'e', 'f']
}

/// `Unknown`, the start of ExifTool's `Unknown (...)` values.
pub open spec fn unknown_text() -> Seq<char> {
    seq!['U', 'n', 'k', 'n', 'o', 'w', 'n']
}

/// `(Binary data`, the start of ExifTool's binary-data placeholders.
pub open spec fn binary_text() -> Seq<char> {
    seq!['(', 'B', 'i', 'n', 'a', 'r', 'y', ' ', 'd', 'a', 't', 'a']
}

/// `t` equals the lower-case ASCII word `w`, ignoring ASCII case (`str::eq_ignore_ascii_case`).
pub open spec fn eq_ignore_ascii_case(t: Seq<char>, w: Seq<char>) -> bool {
    t.len() == w.len() && forall|k: int| 0 <= k < t.len() ==> text::ascii_lower(#[trigger] t[k]) == w[k]
}

/// A value that ExifTool writes when a tag holds nothing: blank, `undef`,
/// `Unknown (...)` or `(Binary data ...)`.
pub open spec fn is_placeholder_spec(s: Seq<char>) -> bool {
    let t = text::trim(s);
    ||| t.len() == 0
    ||| eq_ignore_ascii_case(t, undef_text())
    ||| text::starts_with(t, unknown_text())
    ||| text::starts_with(t, binary_text())
}

fn eq_ignore_ascii_case_at(t: &[char], w: &[char]) -> (r: bool)
    ensures
        r == eq_ignore_ascii_case(t@, w@),
{
    if t.len() != w.len() {
        return false;
    }
    let mut k: usize = 0;
    while k < t.len()
        invariant
            t@.len() == w@.len(),
            k <= t@.len(),
            forall|j: int| 0 <= j < k ==> text::ascii_lower(#[trigger] t@[j]) == w@[j],
        decreases t.len() - k,
    {
        if to_ascii_lower(t[k]) != w[k] {
            return false;
        }
        k = k + 1;
    }
    true
}

pub fn is_placeholder_chars(s: &[char]) -> (r: bool)
    ensures
        r == is_placeholder_spec(s@),
{
    let (a, b) = trim_bounds(s);
    let t = &s[a..b];
    assert(t@ == text::trim(s@));
    if t.len() == 0 {
        return true;
    }
    let undef: [char; 5] = ['u', 'n', 'd', 'e', 'f'];
    let unknown: [char; 7] = ['U', 'n', 'k', 'n', 'o', 'w', 'n'];
    let binary: [char; 12] = ['(', 'B', 'i', 'n', 'a', 'r', 'y', ' ', 'd', 'a', 't', 'a'];
    assert(undef@ =~= undef_text());
    assert(unknown@ =~= unknown_text());
    assert(binary@ =~= binary_text());
    eq_ignore_ascii_case_at(t, &undef) || has_prefix(t, &unknown) || has_prefix(t, &binary)
}

/// `is_placeholder`: whether ExifTool wrote a placeholder rather than a value.
pub fn is_placeholder(s: &str) -> (r: bool)
    ensures
        r == is_placeholder_spec(s@),
{
    let v = to_chars(s);
    is_placeholder_chars(v.as_slice())
}

/// ASCII upper case of a character (`char::to_ascii_uppercase`).
pub open spec fn ascii_upper(c: char) -> char {
    if 'a' <= c && c <= 'z' {
        ((c as u8) - 32) as char
    } else {
        c
    }
}

/// The hemisphere named by `s`: `Some(true)` for north or east (`N`, `E`, `North`, `East`),
/// `Some(false)` for south or west, decided by the first character after trimming.
pub open spec fn hemisphere_sign_spec(s: Seq<char>) -> Option<bool> {
    let t = text::trim(s);
    if is_placeholder_spec(t) || t.len() == 0 {
        None
    } else if ascii_upper(t[0]) == 'N' || ascii_upper(t[0]) == 'E' {
        Some(true)
    } else if ascii_upper(t[0]) == 'S' || ascii_upper(t[0]) == 'W' {
        Some(false)
    } else {
        None
    }
}

pub fn hemisphere_sign_chars(s: &[char]) -> (r: Option<bool>)
    ensures
        r == hemisphere_sign_spec(s@),
{
    let (a, b) = trim_bounds(s);
    let t = &s[a..b];
    assert(t@ == text::trim(s@));
    if is_placeholder_chars(t) || t.len() == 0 {
        return None;
    }
    let c = t[0];
    let u = if 'a' <= c && c <= 'z' {
        ((c as u8) - 32) as char
    } else {
        c
    };
    assert(u == ascii_upper(t@[0]));
    if u == 'N' || u == 'E' {
        Some(true)
    } else if u == 'S' || u == 'W' {
        Some(false)
    } else {
        None
    }
}

/// `hemisphere_sign`: the sign that a hemisphere reference such as `GPSLatitudeRef` gives:
/// `Some(true)` for `N`/`E`/`North`/`East`, `Some(false)` for `S`/`W`/`South`/`West`.
pub fn hemisphere_sign(s: &str) -> (r: Option<bool>)
    ensures
        r == hemisphere_sign_spec(s@),
{
    let v = to_chars(s);
    hemisphere_sign_chars(v.as_slice())
}


/// `c` matches the lower-case ASCII letter `l` in a case-insensitive pattern of the
/// `regex` crate: an ASCII character where it is `l` in either case, any other as the
/// crate's case folding has it.
pub open spec fn ci_char(c: char, l: char) -> bool {
    if (c as u32) < 128 {
        text::ascii_lower(c) == l
    } else {
        charclass::regex_ci_match(c, l)
    }
}

fn ci_char_exec(c: char, l: char) -> (r: bool)
    requires
        'a' <= l <= 'z',
    ensures
        r == ci_char(c, l),
{
    if (c as u32) < 128 {
        to_ascii_lower(c) == l
    } else {
        charclass::matches_ignoring_case(c, l)
    }
}

/// `(?i)deg` matches at position `i` of `s`.
pub open spec fn deg_at(s: Seq<char>, i: int) -> bool {
    0 <= i && i + 3 <= s.len() && ci_char(s[i], 'd') && ci_char(s[i + 1], 'e') && ci_char(
        s[i + 2],
        'g',
    )
}

/// `s` with every match of `(?i)deg` replaced by a space, matches taken left to right
/// (`Regex::replace_all`).
pub open spec fn replace_deg(s: Seq<char>) -> Seq<char>
    decreases s.len(),
{
    if s.len() == 0 {
        s
    } else if deg_at(s, 0) {
        seq![' '] + replace_deg(s.skip(3))
    } else {
        seq![s[0]] + replace_deg(s.skip(1))
    }
}

fn replace_deg_exec(s: &[char]) -> (r: Vec<char>)
    ensures
        r@ == replace_deg(s@),
{
    let n = s.len();
    let mut out: Vec<char> = Vec::new();
    let mut i: usize = 0;
    assert(s@.skip(0) =~= s@);
    while i < n
        invariant
            n == s@.len(),
            i <= n,
            out@ + replace_deg(s@.skip(i as int)) == replace_deg(s@),
        decreases n - i,
    {
        let t = Ghost(s@.skip(i as int));
        if n - i >= 3 && ci_char_exec(s[i], 'd') && ci_char_exec(s[i + 1], 'e') && ci_char_exec(
            s[i + 2],
            'g',
        ) {
            assert(deg_at(t@, 0));
            assert(t@.skip(3) =~= s@.skip(i + 3));
            out.push(' ');
            assert(out@ + replace_deg(s@.skip(i + 3)) =~= replace_deg(s@));
            i = i + 3;
        } else {
            assert(!deg_at(t@, 0));
            assert(t@.skip(1) =~= s@.skip(i + 1));
            out.push(s[i]);
            assert(out@ + replace_deg(s@.skip(i + 1)) =~= replace_deg(s@));
            i = i + 1;
        }
    }
    assert(out@ + replace_deg(s@.skip(n as int)) =~= out@);
    out
}

/// The word character test that `\b` of the `regex` crate applies at position `p`
/// (positions outside the text count as non-word).
pub open spec fn word_at(s: Seq<char>, p: int) -> bool {
    0 <= p < s.len() && charclass::word_char(s[p])
}

/// `\b` holds between `s[p - 1]` and `s[p]`.
pub open spec fn boundary(s: Seq<char>, p: int) -> bool {
    word_at(s, p - 1) != word_at(s, p)
}

fn word_at_exec(s: &[char], p: usize) -> (r: bool)
    ensures
        r == word_at(s@, p as int),
{
    p < s.len() && is_word_char(s[p])
}

fn boundary_exec(s: &[char], p: usize) -> (r: bool)
    requires
        p <= s@.len(),
    ensures
        r == boundary(s@, p as int),
{
    let before = if p == 0 {
        false
    } else {
        word_at_exec(s, p - 1)
    };
    before != word_at_exec(s, p)
}

pub open spec fn north_word() -> Seq<char> {
    seq!['n', 'o', 'r', 't', 'h']
}

pub open spec fn south_word() -> Seq<char> {
    seq!['s', 'o', 'u', 't', 'h']
}

pub open spec fn east_word() -> Seq<char> {
    seq!['e', 'a', 's', 't']
}

pub open spec fn west_word() -> Seq<char> {
    seq!['w', 'e', 's', 't']
}

/// The lower-case word `w` matches case-insensitively at position `i` of `s`.
pub open spec fn ci_word_at(s: Seq<char>, i: int, w: Seq<char>) -> bool {
    0 <= i && i + w.len() <= s.len() && forall|k: int|
        0 <= k < w.len() ==> ci_char(#[trigger] s[i + k], w[k])
}

fn ci_word_at_exec(s: &[char], i: usize, w: &[char]) -> (r: bool)
    requires
        forall|k: int| 0 <= k < w@.len() ==> 'a' <= #[trigger] w@[k] <= 'z',
    ensures
        r == ci_word_at(s@, i as int, w@),
{
    if i > s.len() || w.len() > s.len() - i {
        return false;
    }
    let mut k: usize = 0;
    let n = s.len();
    while k < w.len()
        invariant
            n == s@.len(),
            i + w@.len() <= s@.len(),
            k <= w@.len(),
            forall|k: int| 0 <= k < w@.len() ==> 'a' <= #[trigger] w@[k] <= 'z',
            forall|j: int| 0 <= j < k ==> ci_char(#[trigger] s@[i + j], w@[j]),
        decreases w.len() - k,
    {
        if !ci_char_exec(s[i + k], w[k]) {
            return false;
        }
        k = k + 1;
    }
    true
}

/// The length of the match of `(?i)\b(north|south|east|west)\b` that starts at `i`, or 0.
pub open spec fn hemisphere_word_len(s: Seq<char>, i: int) -> nat {
    if !boundary(s, i) {
        0
    } else if ci_word_at(s, i, north_word()) && boundary(s, i + 5) {
        5
    } else if ci_word_at(s, i, south_word()) && boundary(s, i + 5) {
        5
    } else if ci_word_at(s, i, east_word()) && boundary(s, i + 4) {
        4
    } else if ci_word_at(s, i, west_word()) && boundary(s, i + 4) {
        4
    } else {
        0
    }
}

fn hemisphere_word_len_exec(s: &[char], i: usize) -> (r: usize)
    requires
        i <= s@.len(),
    ensures
        r == hemisphere_word_len(s@, i as int),
{
    let n = s.len();
    let north: [char; 5] = ['n', 'o', 'r', 't', 'h'];
    let south: [char; 5] = ['s', 'o', 'u', 't', 'h'];
    let east: [char; 4] = ['e', 'a', 's', 't'];
    let west: [char; 4] = ['w', 'e', 's', 't'];
    assert(north@ =~= north_word());
    assert(south@ =~= south_word());
    assert(east@ =~= east_word());
    assert(west@ =~= west_word());
    if !boundary_exec(s, i) {
        0
    } else if ci_word_at_exec(s, i, &north) && boundary_exec(s, i + 5) {
        5
    } else if ci_word_at_exec(s, i, &south) && boundary_exec(s, i + 5) {
        5
    } else if ci_word_at_exec(s, i, &east) && boundary_exec(s, i + 4) {
        4
    } else if ci_word_at_exec(s, i, &west) && boundary_exec(s, i + 4) {
        4
    } else {
        0
    }
}

/// The leftmost position, at `i` or after, where a hemisphere word matches.
pub open spec fn first_hemisphere_word(s: Seq<char>, i: int) -> Option<int>
    decreases s.len() - i,
{
    if i < 0 || i >= s.len() {
        None
    } else if hemisphere_word_len(s, i) > 0 {
        Some(i)
    } else {
        first_hemisphere_word(s, i + 1)
    }
}

/// `c` is a hemisphere letter of `(?i)[nsew]`.
pub open spec fn hemisphere_letter(c: char) -> bool {
    ci_char(c, 'n') || ci_char(c, 's') || ci_char(c, 'e') || ci_char(c, 'w')
}

fn hemisphere_letter_exec(c: char) -> (r: bool)
    ensures
        r == hemisphere_letter(c),
{
    ci_char_exec(c, 'n') || ci_char_exec(c, 's') || ci_char_exec(c, 'e') || ci_char_exec(c, 'w')
}

/// Where the hemisphere was written in a coordinate text: the span replaced by a space,
/// and the span of the hemisphere itself.
pub struct HemisphereMatch {
    pub start: usize,
    pub end: usize,
    pub group_start: usize,
    pub group_end: usize,
}

/// The first of the three patterns that matches, in the order in which they are tried:
/// a hemisphere word (`North`), a trailing letter (`35,39.4999N`), a leading letter (`N 35.658`).
pub open spec fn hemisphere_match(s: Seq<char>) -> Option<(int, int, int, int)> {
    let t = text::trim_end(s);
    let k = text::lead_ws(s) as int;
    match first_hemisphere_word(s, 0) {
        Some(i) => Some((i, i + hemisphere_word_len(s, i), i, i + hemisphere_word_len(s, i))),
        None => if t.len() > 0 && hemisphere_letter(t.last()) {
            Some((t.len() - 1, s.len() as int, t.len() - 1, t.len() as int))
        } else if k < s.len() && hemisphere_letter(s[k]) && boundary(s, k + 1) {
            Some((0, k + 1, k, k + 1))
        } else {
            None
        },
    }
}

fn first_hemisphere_word_exec(s: &[char]) -> (r: Option<(usize, usize)>)
    ensures
        r is None <==> first_hemisphere_word(s@, 0) is None,
        r matches Some((i, l)) ==> first_hemisphere_word(s@, 0) == Some(i as int) && i + l <= s@.len() && l == hemisphere_word_len(s@, i as int),
{
    let n = s.len();
    let mut i: usize = 0;
    while i < n
        invariant
            n == s@.len(),
            i <= n,
            first_hemisphere_word(s@, 0) == first_hemisphere_word(s@, i as int),
        decreases n - i,
    {
        let l = hemisphere_word_len_exec(s, i);
        if l > 0 {
            proof {
                assert(ci_word_at(s@, i as int, north_word()) || ci_word_at(s@, i as int, south_word())
                    || ci_word_at(s@, i as int, east_word()) || ci_word_at(s@, i as int, west_word()));
            }
            return Some((i, l));
        }
        i = i + 1;
    }
    None
}

/// The number of characters of `s` before its trailing white space.
fn trailing_ws_start(s: &[char]) -> (r: usize)
    ensures
        r == text::trim_end(s@).len(),
        r <= s@.len(),
        text::trim_end(s@) == s@.take(r as int),
{
    let mut j: usize = s.len();
    proof {
        text::lemma_trim_end_take(s@, s@.len() as int);
    }
    while j > 0 && char_is_ws_at(s, j - 1)
        invariant
            j <= s@.len(),
            forall|k: int| j <= k < s@.len() ==> text::is_ws(#[trigger] s@[k]),
        decreases j,
    {
        j = j - 1;
    }
    proof {
        text::lemma_trim_end_take(s@, j as int);
        let u = s@.take(j as int);
        if j > 0 {
            assert(u.last() == s@[j - 1]);
        }
        assert(text::trim_end(u) == u);
    }
    j
}

fn char_is_ws_at(s: &[char], i: usize) -> (r: bool)
    requires
        i < s@.len(),
    ensures
        r == text::is_ws(s@[i as int]),
{
    text::char_is_ws(s[i])
}

fn hemisphere_match_exec(s: &[char]) -> (r: Option<HemisphereMatch>)
    ensures
        match hemisphere_match(s@) {
            Some((a, b, c, d)) => r matches Some(m) && m.start == a && m.end == b
                && m.group_start == c && m.group_end == d,
            None => r is None,
        },
        r matches Some(m) ==> m.start <= m.end <= s@.len() && m.start <= m.group_start
            <= m.group_end <= m.end,
{
    let n = s.len();
    match first_hemisphere_word_exec(s) {
        Some((i, l)) => {
            assert(first_hemisphere_word(s@, 0) == Some(i as int));
            return Some(HemisphereMatch { start: i, end: i + l, group_start: i, group_end: i + l });
        },
        None => {},
    }
    let t = trailing_ws_start(s);
    if t > 0 && hemisphere_letter_exec(s[t - 1]) {
        proof {
            assert(text::trim_end(s@).last() == s@[t - 1]);
        }
        return Some(
            HemisphereMatch { start: t - 1, end: s.len(), group_start: t - 1, group_end: t },
        );
    }
    let (k, _) = trim_bounds(s);
    if k < s.len() && hemisphere_letter_exec(s[k]) && boundary_exec(s, k + 1) {
        return Some(HemisphereMatch { start: 0, end: k + 1, group_start: k, group_end: k + 1 });
    }
    None
}


/// `\d` of the `regex` crate holds at position `i` of `s`.
pub open spec fn digit_at(s: Seq<char>, i: int) -> bool {
    0 <= i < s.len() && charclass::digit_char(s[i])
}

/// The end of the run of `\d` characters that starts at `i`.
pub open spec fn digit_run_end(s: Seq<char>, i: int) -> int
    decreases s.len() - i,
{
    if digit_at(s, i) {
        digit_run_end(s, i + 1)
    } else {
        i
    }
}

pub proof fn lemma_digit_run_end(s: Seq<char>, i: int)
    requires
        0 <= i <= s.len(),
    ensures
        i <= digit_run_end(s, i) <= s.len(),
        forall|k: int| i <= k < digit_run_end(s, i) ==> digit_at(s, k),
        !digit_at(s, digit_run_end(s, i)),
    decreases s.len() - i,
{
    if digit_at(s, i) {
        lemma_digit_run_end(s, i + 1);
    }
}

/// The length of the match of `[+-]?\d+(?:\.\d+)?` that starts at `i`, or 0.
pub open spec fn number_len(s: Seq<char>, i: int) -> int {
    let d = if 0 <= i < s.len() && (s[i] == '+' || s[i] == '-') {
        i + 1
    } else {
        i
    };
    if !digit_at(s, d) {
        0
    } else {
        let e = digit_run_end(s, d);
        if 0 <= e < s.len() && s[e] == '.' && digit_at(s, e + 1) {
            digit_run_end(s, e + 1) - i
        } else {
            e - i
        }
    }
}

pub proof fn lemma_number_len(s: Seq<char>, i: int)
    requires
        0 <= i < s.len(),
    ensures
        0 <= number_len(s, i) <= s.len() - i,
{
    let d = if s[i] == '+' || s[i] == '-' {
        i + 1
    } else {
        i
    };
    if digit_at(s, d) {
        lemma_digit_run_end(s, d);
        let e = digit_run_end(s, d);
        if 0 <= e < s.len() && s[e] == '.' && digit_at(s, e + 1) {
            lemma_digit_run_end(s, e + 1);
        }
    }
}

/// A matched number that `str::parse::<f64>` accepts: its digits are ASCII.
pub open spec fn plain_number(t: Seq<char>) -> bool {
    forall|k: int|
        0 <= k < t.len() ==> ('0' <= #[trigger] t[k] && t[k] <= '9') || t[k] == '+' || t[k]
            == '-' || t[k] == '.'
}

/// The numbers of `s` from position `i` on: the matches of `[+-]?\d+(?:\.\d+)?`, found
/// left to right without overlap (`Regex::find_iter`), keeping those that parse as `f64`.
pub open spec fn numbers_from(s: Seq<char>, i: int) -> Seq<Seq<char>>
    decreases s.len() - i,
{
    if i < 0 || i >= s.len() {
        seq![]
    } else {
        let l = number_len(s, i);
        proof {
            lemma_number_len(s, i);
        }
        if l > 0 {
            let t = s.subrange(i, i + l);
            if plain_number(t) {
                seq![t] + numbers_from(s, i + l)
            } else {
                numbers_from(s, i + l)
            }
        } else {
            numbers_from(s, i + 1)
        }
    }
}

fn digit_run_end_exec(s: &[char], i: usize) -> (r: usize)
    requires
        i <= s@.len(),
    ensures
        r == digit_run_end(s@, i as int),
{
    let n = s.len();
    let mut j = i;
    while j < n && is_digit_char(s[j])
        invariant
            n == s@.len(),
            i <= j <= n,
            digit_run_end(s@, i as int) == digit_run_end(s@, j as int),
        decreases n - j,
    {
        j = j + 1;
    }
    j
}

fn number_len_exec(s: &[char], i: usize) -> (r: usize)
    requires
        i < s@.len(),
    ensures
        r == number_len(s@, i as int),
{
    proof {
        lemma_number_len(s@, i as int);
    }
    let n = s.len();
    let d = if s[i] == '+' || s[i] == '-' {
        i + 1
    } else {
        i
    };
    if !(d < n && is_digit_char(s[d])) {
        return 0;
    }
    let e = digit_run_end_exec(s, d);
    proof {
        lemma_digit_run_end(s@, d as int);
    }
    if e < n - 1 && s[e] == '.' && is_digit_char(s[e + 1]) {
        let f = digit_run_end_exec(s, e + 1);
        proof {
            lemma_digit_run_end(s@, e + 1);
        }
        f - i
    } else {
        e - i
    }
}

fn plain_number_exec(s: &[char], a: usize, b: usize) -> (r: bool)
    requires
        a <= b <= s@.len(),
    ensures
        r == plain_number(s@.subrange(a as int, b as int)),
{
    let mut k = a;
    while k < b
        invariant
            a <= k <= b <= s@.len(),
            forall|j: int|
                a <= j < k ==> ('0' <= #[trigger] s@[j] && s@[j] <= '9') || s@[j] == '+' || s@[j]
                    == '-' || s@[j] == '.',
        decreases b - k,
    {
        let c = s[k];
        if !(('0' <= c && c <= '9') || c == '+' || c == '-' || c == '.') {
            assert(s@.subrange(a as int, b as int)[k - a] == c);
            return false;
        }
        k = k + 1;
    }
    assert forall|j: int| 0 <= j < b - a implies ('0' <= #[trigger] s@.subrange(a as int, b as int)[j]
        && s@.subrange(a as int, b as int)[j] <= '9') || s@.subrange(a as int, b as int)[j] == '+'
        || s@.subrange(a as int, b as int)[j] == '-' || s@.subrange(a as int, b as int)[j] == '.' by {
        assert(s@.subrange(a as int, b as int)[j] == s@[a + j]);
    }
    true
}

fn copy_range(s: &[char], a: usize, b: usize) -> (r: Vec<char>)
    requires
        a <= b <= s@.len(),
    ensures
        r@ == s@.subrange(a as int, b as int),
{
    let mut v: Vec<char> = Vec::new();
    let mut k = a;
    while k < b
        invariant
            a <= k <= b <= s@.len(),
            v@ == s@.subrange(a as int, k as int),
        decreases b - k,
    {
        v.push(s[k]);
        k = k + 1;
        assert(v@ =~= s@.subrange(a as int, k as int));
    }
    v
}

/// The view of a list of strings as character sequences.
pub open spec fn texts(v: Seq<String>) -> Seq<Seq<char>> {
    v.map_values(|t: String| t@)
}

/// The first (up to three) numbers of `s`, as written.
fn leading_numbers(s: &[char]) -> (r: Vec<String>)
    ensures
        texts(r@) == numbers_from(s@, 0).take(
            if numbers_from(s@, 0).len() < 3 {
                numbers_from(s@, 0).len() as int
            } else {
                3
            },
        ),
{
    let n = s.len();
    let mut out: Vec<String> = Vec::new();
    let mut i: usize = 0;
    let ghost all = numbers_from(s@, 0);
    let ghost want = all.take(if all.len() < 3 { all.len() as int } else { 3 });
    assert(all =~= texts(out@) + numbers_from(s@, 0));
    while i < n && out.len() < 3
        invariant
            n == s@.len(),
            i <= n,
            out@.len() <= 3,
            all == numbers_from(s@, 0),
            want == all.take(if all.len() < 3 { all.len() as int } else { 3 }),
            all == texts(out@) + numbers_from(s@, i as int),
        decreases n - i,
    {
        let l = number_len_exec(s, i);
        proof {
            lemma_number_len(s@, i as int);
        }
        if l > 0 {
            if plain_number_exec(s, i, i + l) {
                let t = copy_range(s, i, i + l);
                let st = from_chars(t.as_slice());
                let ghost before = out@;
                out.push(st);
                assert(texts(out@) =~= texts(before).push(s@.subrange(i as int, i + l)));
                assert(all =~= texts(out@) + numbers_from(s@, i + l));
            }
            i = i + l;
        } else {
            i = i + 1;
        }
    }
    proof {
        if out@.len() < 3 {
            assert(numbers_from(s@, i as int) =~= seq![]);
            assert(all =~= texts(out@));
        }
        assert(texts(out@) =~= want);
    }
    out
}

/// How the size of a coordinate was written.
pub enum Magnitude {
    /// A JSON number, the value itself.
    Number(JsonNumber),
    /// One to three decimal texts: degrees, then minutes, then seconds. Their value is
    /// `d` for one part, `|d| + m/60` for two and `|d| + m/60 + s/3600` for three.
    Sexagesimal(Vec<String>),
}

/// A coordinate in decimal degrees, read exactly: its magnitude, and the hemisphere
/// that applies to it. With a hemisphere the value is `+|magnitude|` (north, east) or
/// `-|magnitude|` (south, west); without one it is the magnitude as written.
pub struct Coordinate {
    pub magnitude: Magnitude,
    pub hemisphere: Option<bool>,
}

pub enum MagnitudeModel {
    Number(JsonNumber),
    Sexagesimal(Seq<Seq<char>>),
}

pub struct CoordinateModel {
    pub magnitude: MagnitudeModel,
    pub hemisphere: Option<bool>,
}

impl View for Magnitude {
    type V = MagnitudeModel;

    open spec fn view(&self) -> MagnitudeModel {
        match self {
            Magnitude::Number(n) => MagnitudeModel::Number(*n),
            Magnitude::Sexagesimal(v) => MagnitudeModel::Sexagesimal(texts(v@)),
        }
    }
}

impl View for Coordinate {
    type V = CoordinateModel;

    open spec fn view(&self) -> CoordinateModel {
        CoordinateModel { magnitude: self.magnitude@, hemisphere: self.hemisphere }
    }
}

/// `s` with `s[a..b]` replaced by one space.
pub open spec fn splice_space(s: Seq<char>, a: int, b: int) -> Seq<char> {
    s.take(a) + seq![' '] + s.skip(b)
}

fn splice_space_exec(s: &[char], a: usize, b: usize) -> (r: Vec<char>)
    requires
        a <= b <= s@.len(),
    ensures
        r@ == splice_space(s@, a as int, b as int),
{
    let mut v = copy_range(s, 0, a);
    v.push(' ');
    let mut k = b;
    while k < s.len()
        invariant
            a <= b <= k <= s@.len(),
            v@ == s@.take(a as int) + seq![' '] + s@.subrange(b as int, k as int),
        decreases s@.len() - k,
    {
        v.push(s[k]);
        k = k + 1;
        assert(v@ =~= s@.take(a as int) + seq![' '] + s@.subrange(b as int, k as int));
    }
    assert(s@.subrange(0, a as int) =~= s@.take(a as int));
    assert(s@.subrange(b as int, s@.len() as int) =~= s@.skip(b as int));
    v
}

/// The coordinate written in the text `raw`, and whether the text named its hemisphere.
pub open spec fn parse_coordinate_text(raw: Seq<char>) -> Option<(CoordinateModel, bool)> {
    if is_placeholder_spec(raw) {
        None
    } else {
        let c = replace_deg(raw);
        let sign = match hemisphere_match(c) {
            Some((a, b, g, h)) => hemisphere_sign_spec(c.subrange(g, h)),
            None => None,
        };
        let body = match hemisphere_match(c) {
            Some((a, b, g, h)) => splice_space(c, a, b),
            None => c,
        };
        let nums = numbers_from(body, 0);
        if nums.len() == 0 {
            None
        } else {
            Some(
                (
                    CoordinateModel {
                        magnitude: MagnitudeModel::Sexagesimal(
                            nums.take(
                                if nums.len() < 3 {
                                    nums.len() as int
                                } else {
                                    3
                                },
                            ),
                        ),
                        hemisphere: sign,
                    },
                    sign is Some,
                ),
            )
        }
    }
}

/// `parse_coordinate`: the coordinate held by a JSON value (a number, or a text in one of
/// ExifTool's forms), and whether the value itself named its hemisphere.
pub open spec fn parse_coordinate_spec(v: Json) -> Option<(CoordinateModel, bool)> {
    match v {
        Json::Number(n) => Some(
            (CoordinateModel { magnitude: MagnitudeModel::Number(n), hemisphere: None }, false),
        ),
        Json::Str(s) => parse_coordinate_text(s@),
        _ => None,
    }
}

pub fn parse_coordinate_chars(raw: &[char]) -> (r: Option<(Coordinate, bool)>)
    ensures
        match r {
            Some((c, h)) => parse_coordinate_text(raw@) == Some((c@, h)),
            None => parse_coordinate_text(raw@) is None,
        },
{
    if is_placeholder_chars(raw) {
        return None;
    }
    let c = replace_deg_exec(raw);
    let (sign, body) = match hemisphere_match_exec(c.as_slice()) {
        Some(m) => {
            let g = copy_range(c.as_slice(), m.group_start, m.group_end);
            (hemisphere_sign_chars(g.as_slice()), splice_space_exec(c.as_slice(), m.start, m.end))
        },
        None => (None, c),
    };
    let ghost cs = replace_deg(raw@);
    assert(c@ == cs);
    assert(sign == match hemisphere_match(cs) {
        Some((a, b, g, h)) => hemisphere_sign_spec(cs.subrange(g, h)),
        None => None,
    });
    assert(body@ == match hemisphere_match(cs) {
        Some((a, b, g, h)) => splice_space(cs, a, b),
        None => cs,
    });
    let nums = leading_numbers(body.as_slice());
    assert(texts(nums@).len() == nums@.len());
    if nums.len() == 0 {
        assert(numbers_from(body@, 0).len() == 0);
        return None;
    }
    let has = sign.is_some();
    Some((Coordinate { magnitude: Magnitude::Sexagesimal(nums), hemisphere: sign }, has))
}

pub fn parse_coordinate(v: &Json) -> (r: Option<(Coordinate, bool)>)
    ensures
        match r {
            Some((c, h)) => parse_coordinate_spec(*v) == Some((c@, h)),
            None => parse_coordinate_spec(*v) is None,
        },
{
    match v {
        Json::Number(n) => Some(
            (Coordinate { magnitude: Magnitude::Number(n.duplicate()), hemisphere: None }, false),
        ),
        Json::Str(s) => {
            let raw = to_chars(s.as_str());
            parse_coordinate_chars(raw.as_slice())
        },
        _ => None,
    }
}

/// A character of the number part of a coordinate text: a digit, a point or a space.
pub open spec fn number_text_char(c: char) -> bool {
    c == ' ' || c == '.' || ('0' <= c && c <= '9')
}

/// An ASCII hemisphere letter, in either case.
pub open spec fn hemisphere_initial(c: char) -> bool {
    c == 'N' || c == 'S' || c == 'E' || c == 'W' || c == 'n' || c == 's' || c == 'e' || c == 'w'
}

proof fn lemma_no_deg(s: Seq<char>)
    requires
        forall|i: int| 0 <= i < s.len() ==> #[trigger] number_text_char(s[i]) || hemisphere_initial(
            s[i],
        ),
    ensures
        replace_deg(s) == s,
    decreases s.len(),
{
    if s.len() > 0 {
        assert(number_text_char(s[0]) || hemisphere_initial(s[0]));
        assert(!deg_at(s, 0));
        assert forall|i: int| 0 <= i < s.skip(1).len() implies #[trigger] number_text_char(
            s.skip(1)[i],
        ) || hemisphere_initial(s.skip(1)[i]) by {
            assert(s.skip(1)[i] == s[i + 1]);
            assert(number_text_char(s[i + 1]) || hemisphere_initial(s[i + 1]));
        }
        lemma_no_deg(s.skip(1));
        assert(seq![s[0]] + s.skip(1) =~= s);
    }
}

proof fn lemma_no_hemisphere_word(s: Seq<char>, q: int, i: int)
    requires
        0 <= i,
        0 <= q < s.len(),
        hemisphere_initial(s[q]),
        forall|k: int| 0 <= k < s.len() && k != q ==> #[trigger] number_text_char(s[k]),
    ensures
        first_hemisphere_word(s, i) is None,
    decreases s.len() - i,
{
    if i < s.len() {
        let j: int = if i == q {
            1
        } else {
            0
        };
        if i + j < s.len() {
            assert(number_text_char(s[i + j]));
        }
        if ci_word_at(s, i, north_word()) {
            assert(ci_char(s[i + j], north_word()[j]));
        }
        if ci_word_at(s, i, south_word()) {
            assert(ci_char(s[i + j], south_word()[j]));
        }
        if ci_word_at(s, i, east_word()) {
            assert(ci_char(s[i + j], east_word()[j]));
        }
        if ci_word_at(s, i, west_word()) {
            assert(ci_char(s[i + j], west_word()[j]));
        }
        assert(hemisphere_word_len(s, i) == 0);
        lemma_no_hemisphere_word(s, q, i + 1);
    }
}

/// A text of digits, points and spaces with a digit at `p` holds a number from `i` on.
proof fn lemma_has_number(b: Seq<char>, i: int, p: int)
    requires
        0 <= i <= p < b.len(),
        '0' <= b[p] <= '9',
        forall|k: int| 0 <= k < b.len() ==> #[trigger] number_text_char(b[k]),
    ensures
        numbers_from(b, i).len() > 0,
    decreases p - i,
{
    lemma_number_len(b, i);
    let l = number_len(b, i);
    assert(number_text_char(b[i]));
    if digit_at(b, i) {
        lemma_digit_run_end(b, i);
        let e = digit_run_end(b, i);
        let t = b.subrange(i, i + l);
        if 0 <= e < b.len() && b[e] == '.' && digit_at(b, e + 1) {
            lemma_digit_run_end(b, e + 1);
        }
        assert forall|k: int| 0 <= k < t.len() implies ('0' <= #[trigger] t[k] && t[k] <= '9') || t[k]
            == '+' || t[k] == '-' || t[k] == '.' by {
            assert(t[k] == b[i + k]);
            assert(number_text_char(b[i + k]));
            if i + k < e {
                assert(digit_at(b, i + k));
            } else if i + k > e {
                assert(digit_at(b, i + k));
            }
        }
        assert(plain_number(t));
    } else {
        assert(i != p);
        assert(l == 0);
        lemma_has_number(b, i + 1, p);
    }
}

/// The leading-letter form (`N 35.658`, `S 35.658`): a hemisphere letter, a space, then
/// digits, points and spaces ending in a digit. The letter is read as the hemisphere the
/// text names: `N` or `E` (in either case) north or east, `S` or `W` south or west.
pub proof fn law_leading_letter_names_the_hemisphere(letter: char, rest: Seq<char>)
    requires
        hemisphere_initial(letter),
        rest.len() > 0,
        rest[0] == ' ',
        '0' <= rest.last() <= '9',
        forall|k: int| 0 <= k < rest.len() ==> #[trigger] number_text_char(rest[k]),
    ensures
        parse_coordinate_text(seq![letter] + rest) matches Some((c, named)) && named
            && c.hemisphere == Some(
            letter == 'N' || letter == 'E' || letter == 'n' || letter == 'e',
        ),
{
    let s = seq![letter] + rest;
    assert(s[0] == letter);
    assert forall|k: int| 0 <= k < s.len() && k != 0 implies #[trigger] number_text_char(s[k]) by {
        assert(s[k] == rest[k - 1]);
    }
    assert(s.last() == rest.last());
    // The text is its own trim, and no placeholder.
    assert(!text::is_ws(letter));
    assert(text::trim_start(s) == s);
    assert(!text::is_ws(s.last()));
    assert(text::trim_end(s) == s);
    assert(text::trim(s) == s);
    if s.len() >= 7 {
        assert(s.take(7)[0] == s[0]);
    }
    if s.len() >= 12 {
        assert(s.take(12)[0] == s[0]);
    }
    assert(!is_placeholder_spec(s));
    // No `deg`, no hemisphere word, no trailing letter; the leading letter matches.
    assert forall|i: int| 0 <= i < s.len() implies #[trigger] number_text_char(s[i])
        || hemisphere_initial(s[i]) by {
        if i > 0 {
            assert(number_text_char(s[i]));
        }
    }
    lemma_no_deg(s);
    lemma_no_hemisphere_word(s, 0, 0);
    assert(!hemisphere_letter(s.last()));
    assert(text::lead_ws(s) == 0);
    assert(hemisphere_letter(s[0]));
    assert(word_at(s, 0));
    assert(s[1] == ' ');
    assert(!word_at(s, 1));
    assert(boundary(s, 1));
    assert(hemisphere_match(s) == Some((0int, 1int, 0int, 1int)));
    // The letter's sign.
    let g = s.subrange(0, 1);
    assert(g =~= seq![letter]);
    assert(text::trim_start(g) == g);
    assert(text::trim_end(g) == g);
    assert(!is_placeholder_spec(g));
    assert(hemisphere_sign_spec(g) == Some(
        letter == 'N' || letter == 'E' || letter == 'n' || letter == 'e',
    ));
    // The number part keeps a digit.
    let body = splice_space(s, 0, 1);
    assert(body =~= seq![' '] + rest);
    assert forall|k: int| 0 <= k < body.len() implies #[trigger] number_text_char(body[k]) by {
        if k > 0 {
            assert(body[k] == rest[k - 1]);
        }
    }
    assert(body[body.len() - 1] == rest.last());
    lemma_has_number(body, 0, body.len() - 1);
}

/// The trailing-letter form (`35,39.4999N`, `35.5 S`): digits, points and spaces starting
/// with a digit, then a hemisphere letter. The letter is read as the hemisphere the text
/// names: `N` or `E` (in either case) north or east, `S` or `W` south or west.
pub proof fn law_trailing_letter_names_the_hemisphere(rest: Seq<char>, letter: char)
    requires
        hemisphere_initial(letter),
        rest.len() > 0,
        '0' <= rest[0] <= '9',
        forall|k: int| 0 <= k < rest.len() ==> #[trigger] number_text_char(rest[k]),
    ensures
        parse_coordinate_text(rest + seq![letter]) matches Some((c, named)) && named
            && c.hemisphere == Some(
            letter == 'N' || letter == 'E' || letter == 'n' || letter == 'e',
        ),
{
    let s = rest + seq![letter];
    let q = rest.len() as int;
    assert(s[q] == letter);
    assert(s[0] == rest[0]);
    assert forall|k: int| 0 <= k < s.len() && k != q implies #[trigger] number_text_char(s[k]) by {
        assert(s[k] == rest[k]);
    }
    assert(!text::is_ws(s[0]));
    assert(text::trim_start(s) == s);
    assert(s.last() == letter);
    assert(!text::is_ws(letter));
    assert(text::trim_end(s) == s);
    assert(text::trim(s) == s);
    if s.len() == 5 {
        assert(text::ascii_lower(s[0]) != 'u');
    }
    if s.len() >= 7 {
        assert(s.take(7)[0] == s[0]);
    }
    if s.len() >= 12 {
        assert(s.take(12)[0] == s[0]);
    }
    assert(!is_placeholder_spec(s));
    assert forall|i: int| 0 <= i < s.len() implies #[trigger] number_text_char(s[i])
        || hemisphere_initial(s[i]) by {
        if i != q {
            assert(number_text_char(s[i]));
        }
    }
    lemma_no_deg(s);
    lemma_no_hemisphere_word(s, q, 0);
    assert(hemisphere_letter(s.last()));
    assert(hemisphere_match(s) == Some((q, s.len() as int, q, q + 1)));
    let g = s.subrange(q, q + 1);
    assert(g =~= seq![letter]);
    assert(text::trim_start(g) == g);
    assert(text::trim_end(g) == g);
    assert(!is_placeholder_spec(g));
    let body = splice_space(s, q, s.len() as int);
    assert(body =~= rest + seq![' ']);
    assert forall|k: int| 0 <= k < body.len() implies #[trigger] number_text_char(body[k]) by {
        if k < q {
            assert(body[k] == rest[k]);
        }
    }
    assert(body[0] == rest[0]);
    lemma_has_number(body, 0, 0);
}

} // verus!
