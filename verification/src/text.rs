//! Character-level text utilities shared by the parsers of this crate.
use vstd::prelude::*;
use vstd::string::*;

verus! {

/// The characters that `char::is_whitespace` classifies as white space
/// (the Unicode `White_Space` property).
pub open spec fn is_ws(c: char) -> bool {
    ||| ('\t' <= c && c <= '\r')
    ||| c == ' '
    ||| c == '\u{85}'
    ||| c == '\u{a0}'
    ||| c == '\u{1680}'
    ||| ('\u{2000}' <= c && c <= '\u{200a}')
    ||| c == '\u{2028}'
    ||| c == '\u{2029}'
    ||| c == '\u{202f}'
    ||| c == '\u{205f}'
    ||| c == '\u{3000}'
}

pub fn char_is_ws(c: char) -> (r: bool)
    ensures
        r == is_ws(c),
{
    ('\t' <= c && c <= '\r') || c == ' ' || c == '\u{85}' || c == '\u{a0}' || c == '\u{1680}'
        || ('\u{2000}' <= c && c <= '\u{200a}') || c == '\u{2028}' || c == '\u{2029}'
        || c == '\u{202f}' || c == '\u{205f}' || c == '\u{3000}'
}

/// The characters of `s`, one by one.
pub fn to_chars(s: &str) -> (v: Vec<char>)
    ensures
        v@ == s@,
{
    let n = s.unicode_len();
    let mut v: Vec<char> = Vec::new();
    let mut i: usize = 0;
    while i < n
        invariant
            n == s@.len(),
            i <= n,
            v@ == s@.take(i as int),
        decreases n - i,
    {
        v.push(s.get_char(i));
        i = i + 1;
        assert(v@ =~= s@.take(i as int));
    }
    assert(s@.take(n as int) =~= s@);
    v
}

/// Collects characters into a `String` (`FromIterator<char> for String`).
#[verifier::external_body]
pub(crate) fn from_chars(v: &[char]) -> (s: String)
    ensures
        s@ == v@,
{
    v.iter().collect::<String>()
}


/// `s` without its leading white space.
pub open spec fn trim_start(s: Seq<char>) -> Seq<char>
    decreases s.len(),
{
    if s.len() > 0 && is_ws(s[0]) {
        trim_start(s.skip(1))
    } else {
        s
    }
}

/// `s` without its trailing white space.
pub open spec fn trim_end(s: Seq<char>) -> Seq<char>
    decreases s.len(),
{
    if s.len() > 0 && is_ws(s.last()) {
        trim_end(s.drop_last())
    } else {
        s
    }
}

/// `str::trim`: `s` without leading and trailing white space.
pub open spec fn trim(s: Seq<char>) -> Seq<char> {
    trim_end(trim_start(s))
}

/// The number of leading white-space characters of `s`.
pub open spec fn lead_ws(s: Seq<char>) -> nat
    decreases s.len(),
{
    if s.len() > 0 && is_ws(s[0]) {
        1 + lead_ws(s.skip(1))
    } else {
        0
    }
}

pub proof fn lemma_trim_start_skip(s: Seq<char>)
    ensures
        lead_ws(s) <= s.len(),
        trim_start(s) == s.skip(lead_ws(s) as int),
        forall|k: int| 0 <= k < lead_ws(s) ==> is_ws(#[trigger] s[k]),
        lead_ws(s) < s.len() ==> !is_ws(s[lead_ws(s) as int]),
    decreases s.len(),
{
    if s.len() > 0 && is_ws(s[0]) {
        lemma_trim_start_skip(s.skip(1));
        assert(s.skip(1).skip(lead_ws(s.skip(1)) as int) =~= s.skip(lead_ws(s) as int));
        assert forall|k: int| 0 <= k < lead_ws(s) implies is_ws(#[trigger] s[k]) by {
            if k > 0 {
                assert(s[k] == s.skip(1)[k - 1]);
            }
        }
    } else {
        assert(s.skip(0) =~= s);
    }
}

pub proof fn lemma_trim_end_take(s: Seq<char>, j: int)
    requires
        0 <= j <= s.len(),
        forall|k: int| j <= k < s.len() ==> is_ws(#[trigger] s[k]),
    ensures
        trim_end(s) == trim_end(s.take(j)),
    decreases s.len() - j,
{
    if j < s.len() {
        assert(s.drop_last() =~= s.take(s.len() - 1));
        assert(s.take(s.len() - 1).take(j) =~= s.take(j));
        lemma_trim_end_take(s.drop_last(), j);
    } else {
        assert(s.take(j) =~= s);
    }
}

/// Positions `(a, b)` such that `s[a..b]` is `trim(s)`.
pub fn trim_bounds(s: &[char]) -> (r: (usize, usize))
    ensures
        r.0 <= r.1 <= s@.len(),
        s@.subrange(r.0 as int, r.1 as int) == trim(s@),
        r.0 == lead_ws(s@),
{
    let n = s.len();
    let mut i: usize = 0;
    proof {
        lemma_trim_start_skip(s@);
    }
    while i < n && char_is_ws(s[i])
        invariant
            i <= n,
            n == s@.len(),
            i <= lead_ws(s@),
            lead_ws(s@) <= n,
            forall|k: int| 0 <= k < lead_ws(s@) ==> is_ws(#[trigger] s@[k]),
            lead_ws(s@) < n ==> !is_ws(s@[lead_ws(s@) as int]),
        decreases n - i,
    {
        i = i + 1;
    }
    assert(i == lead_ws(s@));
    let ghost t = s@.skip(i as int);
    let mut j: usize = n;
    assert(t.take(n - i) =~= t);
    while j > i && char_is_ws(s[j - 1])
        invariant
            i <= j <= n,
            n == s@.len(),
            t == s@.skip(i as int),
            trim_end(t) == trim_end(t.take(j - i)),
        decreases j,
    {
        proof {
            let u = t.take(j - i);
            assert(u.drop_last() =~= t.take(j - 1 - i));
            assert(u.last() == s@[j - 1]);
        }
        j = j - 1;
    }
    proof {
        let u = t.take(j - i);
        assert(t.take(t.len() as int) =~= t);
        assert(u =~= s@.subrange(i as int, j as int));
    }
    (i, j)
}

/// ASCII lower case of a character (`char::to_ascii_lowercase`).
pub open spec fn ascii_lower(c: char) -> char {
    if 'A' <= c && c <= 'Z' {
        ((c as u8) + 32) as char
    } else {
        c
    }
}

pub fn to_ascii_lower(c: char) -> (r: char)
    ensures
        r == ascii_lower(c),
{
    if 'A' <= c && c <= 'Z' {
        ((c as u8) + 32) as char
    } else {
        c
    }
}

/// `s` starts with `p`.
pub open spec fn starts_with(s: Seq<char>, p: Seq<char>) -> bool {
    p.len() <= s.len() && s.take(p.len() as int) == p
}

pub fn has_prefix(s: &[char], p: &[char]) -> (r: bool)
    ensures
        r == starts_with(s@, p@),
{
    if p.len() > s.len() {
        return false;
    }
    let mut i: usize = 0;
    while i < p.len()
        invariant
            p@.len() <= s@.len(),
            i <= p@.len(),
            forall|k: int| 0 <= k < i ==> s@[k] == p@[k],
        decreases p.len() - i,
    {
        if s[i] != p[i] {
            assert(s@.take(p@.len() as int)[i as int] != p@[i as int]);
            return false;
        }
        i = i + 1;
    }
    assert(s@.take(p@.len() as int) =~= p@);
    true
}

/// The number of occurrences of `c` in `s`.
pub open spec fn char_count(s: Seq<char>, c: char) -> nat
    decreases s.len(),
{
    if s.len() == 0 {
        0
    } else {
        (if s[0] == c {
            1nat
        } else {
            0nat
        }) + char_count(s.skip(1), c)
    }
}

/// The index of the first `c` in `s`, or `s.len()`.
pub open spec fn index_of(s: Seq<char>, c: char) -> int
    decreases s.len(),
{
    if s.len() == 0 {
        0
    } else if s[0] == c {
        0
    } else {
        1 + index_of(s.skip(1), c)
    }
}

pub proof fn lemma_index_of(s: Seq<char>, c: char)
    ensures
        0 <= index_of(s, c) <= s.len(),
        index_of(s, c) < s.len() ==> s[index_of(s, c)] == c,
        forall|k: int| 0 <= k < index_of(s, c) ==> s[k] != c,
        index_of(s, c) == s.len() <==> char_count(s, c) == 0,
    decreases s.len(),
{
    if s.len() > 0 {
        lemma_index_of(s.skip(1), c);
        assert forall|k: int| 0 <= k < index_of(s, c) implies s[k] != c by {
            if k > 0 {
                assert(s[k] == s.skip(1)[k - 1]);
            }
        }
    }
}

/// `s` with its leading and trailing white space removed, as a new string.
pub fn trimmed(s: &str) -> (r: String)
    ensures
        r@ == trim(s@),
{
    let v = to_chars(s);
    let (a, b) = trim_bounds(v.as_slice());
    from_chars(&v.as_slice()[a..b])
}

/// `s` holds something besides white space.
pub fn is_blank(s: &str) -> (r: bool)
    ensures
        r == (trim(s@).len() == 0),
{
    let v = to_chars(s);
    let (a, b) = trim_bounds(v.as_slice());
    a == b
}

pub proof fn lemma_trim_end_prefix(t: Seq<char>)
    ensures
        trim_end(t).len() <= t.len(),
        trim_end(t) == t.take(trim_end(t).len() as int),
        trim_end(t).len() > 0 ==> !is_ws(t[trim_end(t).len() - 1]),
    decreases t.len(),
{
    if t.len() > 0 && is_ws(t.last()) {
        lemma_trim_end_prefix(t.drop_last());
        assert(t.drop_last().take(trim_end(t).len() as int) =~= t.take(trim_end(t).len() as int));
    } else {
        assert(t.take(t.len() as int) =~= t);
    }
}

pub proof fn lemma_trim_idempotent(s: Seq<char>)
    ensures
        trim(trim(s)) == trim(s),
{
    let t = trim_start(s);
    lemma_trim_start_skip(s);
    lemma_trim_end_prefix(t);
    let u = trim_end(t);
    if u.len() > 0 {
        assert(u[0] == t[0]);
        assert(t[0] == s[lead_ws(s) as int]);
        assert(trim_start(u) == u);
        assert(u.last() == t[u.len() - 1]);
        assert(trim_end(u) == u);
    } else {
        assert(trim_start(u) == u);
    }
}

/// The decimal digit for `d` (0 to 9).
pub open spec fn digit_char(d: int) -> char {
    (d + 48) as char
}

/// The decimal text of `n`, without leading zeros (`Display` for integers).
pub open spec fn decimal(n: nat) -> Seq<char>
    decreases n,
{
    if n < 10 {
        seq![digit_char(n as int)]
    } else {
        decimal(n / 10).push(digit_char((n % 10) as int))
    }
}

/// Appends the decimal text of `n`.
pub fn push_decimal(v: &mut Vec<char>, n: u64)
    ensures
        final(v)@ == old(v)@ + decimal(n as nat),
    decreases n,
{
    if n >= 10 {
        push_decimal(v, n / 10);
    }
    let d = (n % 10) as u8;
    v.push((48u8 + d) as char);
    proof {
        if n >= 10 {
            assert(decimal(n as nat) == decimal((n / 10) as nat).push(digit_char((n % 10) as int)));
        }
    }
    assert(final(v)@ =~= old(v)@ + decimal(n as nat));
}

/// Appends the characters of `w`.
pub fn push_chars(v: &mut Vec<char>, w: &[char])
    ensures
        final(v)@ == old(v)@ + w@,
{
    let ghost v0 = v@;
    let mut k: usize = 0;
    while k < w.len()
        invariant
            k <= w@.len(),
            v@ == v0 + w@.take(k as int),
        decreases w.len() - k,
    {
        v.push(w[k]);
        k = k + 1;
        assert(v@ =~= v0 + w@.take(k as int));
    }
    assert(w@.take(w@.len() as int) =~= w@);
}

/// Appends the characters of `s`.
pub fn push_str(v: &mut Vec<char>, s: &str)
    ensures
        final(v)@ == old(v)@ + s@,
{
    let w = to_chars(s);
    push_chars(v, w.as_slice());
}

/// `parts` joined with `sep` between neighbours (`[T]::join`).
pub open spec fn join(parts: Seq<Seq<char>>, sep: Seq<char>) -> Seq<char>
    decreases parts.len(),
{
    if parts.len() == 0 {
        seq![]
    } else if parts.len() == 1 {
        parts[0]
    } else {
        join(parts.drop_last(), sep) + sep + parts.last()
    }
}

/// The texts of a list of strings.
pub open spec fn texts(v: Seq<String>) -> Seq<Seq<char>> {
    v.map_values(|t: String| t@)
}

/// Appends `parts` joined with `sep`.
pub fn push_joined(v: &mut Vec<char>, parts: &Vec<String>, sep: &str)
    ensures
        final(v)@ == old(v)@ + join(texts(parts@), sep@),
{
    let ghost v0 = v@;
    let ghost ps = texts(parts@);
    let mut i: usize = 0;
    assert(ps.take(0) =~= seq![]);
    while i < parts.len()
        invariant
            i <= parts@.len(),
            ps == texts(parts@),
            v@ == v0 + join(ps.take(i as int), sep@),
        decreases parts.len() - i,
    {
        let ghost before = v@;
        if i > 0 {
            push_str(v, sep);
        }
        push_str(v, parts[i].as_str());
        proof {
            let t = ps.take(i + 1);
            assert(t.drop_last() =~= ps.take(i as int));
            assert(t.last() == parts@[i as int]@);
            if i == 0 {
                assert(join(t, sep@) == t[0]);
                assert(v@ =~= v0 + join(t, sep@));
            } else {
                assert(v@ =~= v0 + join(t, sep@));
            }
        }
        i = i + 1;
    }
    assert(ps.take(parts@.len() as int) =~= ps);
}

/// `a` and `b` hold the same characters.
pub fn equal_text(a: &str, b: &str) -> (r: bool)
    ensures
        r == (a@ == b@),
{
    let x = to_chars(a);
    let y = to_chars(b);
    equal_chars(x.as_slice(), y.as_slice())
}

/// `a` and `b` hold the same characters.
pub fn equal_chars(a: &[char], b: &[char]) -> (r: bool)
    ensures
        r == (a@ == b@),
{
    if a.len() != b.len() {
        return false;
    }
    let mut i: usize = 0;
    while i < a.len()
        invariant
            a@.len() == b@.len(),
            i <= a@.len(),
            forall|k: int| 0 <= k < i ==> a@[k] == b@[k],
        decreases a.len() - i,
    {
        if a[i] != b[i] {
            return false;
        }
        i = i + 1;
    }
    assert(a@ =~= b@);
    true
}

/// The number of leading characters of `s` that are not white space.
pub open spec fn word_len(s: Seq<char>) -> nat
    decreases s.len(),
{
    if s.len() > 0 && !is_ws(s[0]) {
        1 + word_len(s.skip(1))
    } else {
        0
    }
}

pub proof fn lemma_word_len(s: Seq<char>)
    ensures
        word_len(s) <= s.len(),
        forall|k: int| 0 <= k < word_len(s) ==> !is_ws(#[trigger] s[k]),
        word_len(s) < s.len() ==> is_ws(s[word_len(s) as int]),
        s.len() > 0 && !is_ws(s[0]) ==> word_len(s) >= 1,
    decreases s.len(),
{
    if s.len() > 0 && !is_ws(s[0]) {
        lemma_word_len(s.skip(1));
        assert forall|k: int| 0 <= k < word_len(s) implies !is_ws(#[trigger] s[k]) by {
            if k > 0 {
                assert(s[k] == s.skip(1)[k - 1]);
            }
        }
    }
}

/// `str::split_whitespace`: the maximal runs of characters that are not white space.
pub open spec fn words(s: Seq<char>) -> Seq<Seq<char>>
    decreases s.len(),
{
    proof {
        lemma_trim_start_skip(s);
    }
    let a = lead_ws(s);
    if a >= s.len() {
        seq![]
    } else {
        let t = s.skip(a as int);
        proof {
            lemma_word_len(t);
        }
        let n = word_len(t);
        seq![t.take(n as int)] + words(t.skip(n as int))
    }
}

/// One step of `words`: from a position at white space, or at the start of a word.
pub proof fn lemma_words_step(s: Seq<char>, i: int)
    requires
        0 <= i < s.len(),
    ensures
        is_ws(s[i]) ==> words(s.skip(i)) == words(s.skip(i + 1)),
        !is_ws(s[i]) ==> ({
            let n = word_len(s.skip(i));
            &&& 1 <= n <= s.len() - i
            &&& words(s.skip(i)) == seq![s.subrange(i, i + n)] + words(s.skip(i + n))
        }),
{
    let t = s.skip(i);
    lemma_trim_start_skip(t);
    lemma_word_len(t);
    if is_ws(s[i]) {
        assert(t[0] == s[i]);
        assert(t.skip(1) =~= s.skip(i + 1));
        lemma_trim_start_skip(t.skip(1));
        assert(lead_ws(t) == 1 + lead_ws(t.skip(1)));
        assert(t.skip(lead_ws(t) as int) =~= s.skip(i + 1).skip(lead_ws(s.skip(i + 1)) as int));
    } else {
        assert(t[0] == s[i]);
        assert(lead_ws(t) == 0);
        assert(t.skip(0) =~= t);
        let n = word_len(t);
        assert(t.take(n as int) =~= s.subrange(i, i + n));
        assert(t.skip(n as int) =~= s.skip(i + n));
    }
}

/// `str::split_whitespace`, collected.
pub fn split_whitespace(s: &str) -> (r: Vec<String>)
    ensures
        texts(r@) == words(s@),
{
    let c = to_chars(s);
    let n = c.len();
    let mut out: Vec<String> = Vec::new();
    let mut i: usize = 0;
    assert(c@.skip(0) =~= c@);
    while i < n
        invariant
            n == c@.len(),
            c@ == s@,
            i <= n,
            words(s@) == texts(out@) + words(c@.skip(i as int)),
        decreases n - i,
    {
        proof {
            lemma_words_step(c@, i as int);
        }
        if char_is_ws(c[i]) {
            i = i + 1;
        } else {
            let ghost wl = word_len(c@.skip(i as int));
            proof {
                lemma_word_len(c@.skip(i as int));
            }
            let mut j = i;
            while j < n && !char_is_ws(c[j])
                invariant
                    i <= j <= n,
                    n == c@.len(),
                    j - i <= wl,
                    wl <= n - i,
                    forall|k: int| 0 <= k < wl ==> !is_ws(#[trigger] c@.skip(i as int)[k]),
                    wl < n - i ==> is_ws(c@.skip(i as int)[wl as int]),
                decreases n - j,
            {
                assert(c@.skip(i as int)[j - i] == c@[j as int]);
                j = j + 1;
            }
            proof {
                if j - i < wl {
                    assert(c@.skip(i as int)[j - i] == c@[j as int]);
                }
                if wl < n - i {
                    assert(c@.skip(i as int)[wl as int] == c@[i + wl]);
                }
            }
            assert(j - i == wl);
            let w = from_chars(&c.as_slice()[i..j]);
            let ghost before = out@;
            out.push(w);
            proof {
                assert(texts(out@) =~= texts(before) + seq![c@.subrange(i as int, j as int)]);
                assert(texts(before) + seq![c@.subrange(i as int, j as int)] + words(c@.skip(j as int))
                    =~= texts(before) + (seq![c@.subrange(i as int, j as int)] + words(c@.skip(j as int))));
            }
            i = j;
        }
    }
    proof {
        assert(c@.skip(n as int) =~= Seq::<char>::empty());
        assert(lead_ws(Seq::<char>::empty()) == 0);
        assert(words(Seq::<char>::empty()) =~= Seq::<Seq<char>>::empty());
        assert(texts(out@) + Seq::<Seq<char>>::empty() =~= texts(out@));
    }
    out
}

/// `s` without the trailing copies of `c` (`str::trim_end_matches` with a character).
pub open spec fn trim_end_char(s: Seq<char>, c: char) -> Seq<char>
    decreases s.len(),
{
    if s.len() > 0 && s.last() == c {
        trim_end_char(s.drop_last(), c)
    } else {
        s
    }
}

/// The length of `trim_end_char(s, c)`, with what it says of `s`.
pub proof fn lemma_trim_end_char(s: Seq<char>, c: char)
    ensures
        trim_end_char(s, c) == s.take(trim_end_char(s, c).len() as int),
        trim_end_char(s, c).len() <= s.len(),
        trim_end_char(s, c).len() > 0 ==> s[trim_end_char(s, c).len() - 1] != c,
        forall|k: int| trim_end_char(s, c).len() <= k < s.len() ==> s[k] == c,
    decreases s.len(),
{
    if s.len() > 0 && s.last() == c {
        lemma_trim_end_char(s.drop_last(), c);
        assert(s.drop_last().take(trim_end_char(s, c).len() as int) =~= s.take(
            trim_end_char(s, c).len() as int,
        ));
        assert forall|k: int| trim_end_char(s, c).len() <= k < s.len() implies s[k] == c by {
            if k < s.len() - 1 {
                assert(s[k] == s.drop_last()[k]);
            }
        }
    } else {
        assert(s.take(s.len() as int) =~= s);
    }
}

/// Appends `s` without its trailing copies of `c`.
pub fn push_trim_end_char(v: &mut Vec<char>, s: &str, c: char)
    ensures
        final(v)@ == old(v)@ + trim_end_char(s@, c),
{
    let w = to_chars(s);
    let mut j = w.len();
    assert(w@.take(w@.len() as int) =~= w@);
    while j > 0 && w[j - 1] == c
        invariant
            j <= w@.len(),
            trim_end_char(s@, c) == trim_end_char(w@.take(j as int), c),
        decreases j,
    {
        proof {
            let x = w@.take(j as int);
            assert(x.last() == c);
            assert(x.drop_last() =~= w@.take(j - 1));
        }
        j = j - 1;
    }
    proof {
        let x = w@.take(j as int);
        if j > 0 {
            assert(x.last() == w@[j - 1]);
        }
        assert(trim_end_char(x, c) == x);
        assert(w@.subrange(0, j as int) =~= x);
    }
    push_chars(v, &w.as_slice()[0..j]);
}

/// What `str::to_lowercase` returns for `s`: the Unicode lowercase mapping of the text (of
/// each character, except that a final capital sigma depends on what surrounds it).
pub uninterp spec fn lowercase(s: Seq<char>) -> Seq<char>;

/// All characters of `s` are ASCII.
pub open spec fn is_ascii_text(s: Seq<char>) -> bool {
    forall|i: int| 0 <= i < s.len() ==> (#[trigger] s[i] as u32) < 128
}

/// The lowercase of a text: on ASCII text, `A` to `Z` become `a` to `z` and every other
/// character stays; any other text is as `str::to_lowercase` maps it.
pub open spec fn lowercase_text(s: Seq<char>) -> Seq<char> {
    if is_ascii_text(s) {
        s.map_values(|c: char| ascii_lower(c))
    } else {
        lowercase(s)
    }
}

/// `str::to_lowercase` of std. Its result is the one named by `lowercase`; the Unicode
/// tables behind it are not restated here, but on ASCII text the documentation gives it:
/// `A` to `Z` become `a` to `z`, and every other character stays.
#[verifier::external_body]
pub(crate) fn to_lowercase(s: &str) -> (r: String)
    ensures
        r@ == lowercase(s@),
        r@ == lowercase_text(s@),
{
    s.to_lowercase()
}

/// The index of the first `c` in `s`, or its length.
pub fn index_of_char(s: &[char], c: char) -> (r: usize)
    ensures
        r == index_of(s@, c),
{
    proof {
        lemma_index_of(s@, c);
    }
    let mut i: usize = 0;
    while i < s.len() && s[i] != c
        invariant
            i <= s@.len(),
            i <= index_of(s@, c),
            0 <= index_of(s@, c) <= s@.len(),
            index_of(s@, c) < s@.len() ==> s@[index_of(s@, c)] == c,
            forall|k: int| 0 <= k < index_of(s@, c) ==> s@[k] != c,
        decreases s.len() - i,
    {
        i = i + 1;
    }
    i
}

/// `s` has no characters.
pub fn is_empty_text(s: &str) -> (r: bool)
    ensures
        r == (s@.len() == 0),
{
    s.unicode_len() == 0
}

/// `str::replace`: the non-overlapping occurrences of `pat` in `s`, from the left, replaced
/// by `with` (for a pattern that is not empty).
pub open spec fn replace_all(s: Seq<char>, pat: Seq<char>, with: Seq<char>) -> Seq<char>
    decreases s.len(),
{
    if pat.len() == 0 || s.len() < pat.len() {
        s
    } else if s.take(pat.len() as int) == pat {
        with + replace_all(s.skip(pat.len() as int), pat, with)
    } else {
        seq![s[0]] + replace_all(s.skip(1), pat, with)
    }
}

/// `str::replace` with a pattern that is not empty.
pub fn replace_text(s: &str, pat: &str, with: &str) -> (r: String)
    requires
        pat@.len() > 0,
    ensures
        r@ == replace_all(s@, pat@, with@),
{
    let c = to_chars(s);
    let p = to_chars(pat);
    let w = to_chars(with);
    let n = c.len();
    let m = p.len();
    let mut out: Vec<char> = Vec::new();
    let mut i: usize = 0;
    assert(c@.skip(0) =~= c@);
    while i < n
        invariant
            n == c@.len(),
            m == p@.len(),
            m > 0,
            c@ == s@,
            p@ == pat@,
            w@ == with@,
            i <= n,
            replace_all(s@, pat@, with@) == out@ + replace_all(c@.skip(i as int), p@, w@),
        decreases n - i,
    {
        let ghost rest = c@.skip(i as int);
        if n - i < m {
            assert(replace_all(rest, p@, w@) == rest);
            push_chars(&mut out, &c.as_slice()[i..n]);
            assert(c@.subrange(i as int, n as int) =~= rest);
            assert(c@.skip(n as int) =~= Seq::<char>::empty());
            assert(replace_all(Seq::<char>::empty(), p@, w@) == Seq::<char>::empty());
            assert(out@ + Seq::<char>::empty() =~= out@);
            i = n;
        } else {
            let here = equal_chars(&c.as_slice()[i..i + m], p.as_slice());
            assert(c@.subrange(i as int, i + m) =~= rest.take(m as int));
            let ghost before = out@;
            if here {
                push_chars(&mut out, w.as_slice());
                assert(rest.skip(m as int) =~= c@.skip(i + m));
                assert(before + (w@ + replace_all(c@.skip(i + m), p@, w@)) =~= out@
                    + replace_all(c@.skip(i + m), p@, w@));
                i = i + m;
            } else {
                out.push(c[i]);
                assert(rest.skip(1) =~= c@.skip(i + 1));
                assert(rest[0] == c@[i as int]);
                assert(before + (seq![c@[i as int]] + replace_all(c@.skip(i + 1), p@, w@)) =~= out@
                    + replace_all(c@.skip(i + 1), p@, w@));
                i = i + 1;
            }
        }
    }
    proof {
        assert(c@.skip(n as int) =~= Seq::<char>::empty());
        assert(replace_all(Seq::<char>::empty(), p@, w@) == Seq::<char>::empty());
        assert(out@ + Seq::<char>::empty() =~= out@);
    }
    from_chars(out.as_slice())
}

/// `str::lines`: the text split at `\n`, each line without the `\r` before its `\n`; a
/// last line without `\n` keeps a final `\r`, and text after the last `\n` is a line only
/// where it is not empty.
pub open spec fn lines(s: Seq<char>) -> Seq<Seq<char>>
    decreases s.len(),
{
    if s.len() == 0 {
        seq![]
    } else {
        let i = index_of(s, '\n');
        if i < s.len() {
            proof {
                lemma_index_of(s, '\n');
            }
            let line = s.take(i);
            let line = if line.len() > 0 && line.last() == '\r' {
                line.drop_last()
            } else {
                line
            };
            seq![line] + lines(s.skip(i + 1))
        } else {
            seq![s]
        }
    }
}

/// `str::lines` of the characters `c`.
pub fn split_lines(c: &Vec<char>) -> (r: Vec<Vec<char>>)
    ensures
        r@.map_values(|l: Vec<char>| l@) == lines(c@),
{
    let n = c.len();
    let mut out: Vec<Vec<char>> = Vec::new();
    let mut start: usize = 0;
    assert(c@.skip(0) =~= c@);
    while start < n
        invariant
            n == c@.len(),
            start <= n,
            lines(c@) == out@.map_values(|l: Vec<char>| l@) + lines(c@.skip(start as int)),
        decreases n - start,
    {
        let ghost rest = c@.skip(start as int);
        let mut i = start;
        proof {
            lemma_index_of(rest, '\n');
        }
        while i < n && c[i] != '\n'
            invariant
                start <= i <= n,
                n == c@.len(),
                rest == c@.skip(start as int),
                i - start <= index_of(rest, '\n'),
                index_of(rest, '\n') <= rest.len(),
                index_of(rest, '\n') < rest.len() ==> rest[index_of(rest, '\n')] == '\n',
                forall|k: int| 0 <= k < index_of(rest, '\n') ==> rest[k] != '\n',
            decreases n - i,
        {
            assert(rest[i - start] == c@[i as int]);
            i = i + 1;
        }
        proof {
            if i < n {
                assert(rest[i - start] == c@[i as int]);
            }
            if i - start < index_of(rest, '\n') {
                assert(rest[i - start] == c@[i as int]);
            }
        }
        assert(i - start == index_of(rest, '\n'));
        let ghost before = out@.map_values(|l: Vec<char>| l@);
        if i < n {
            let mut end = i;
            if end > start && c[end - 1] == '\r' {
                end = end - 1;
            }
            let mut line: Vec<char> = Vec::new();
            let mut k = start;
            while k < end
                invariant
                    start <= k <= end <= n,
                    n == c@.len(),
                    line@ == c@.subrange(start as int, k as int),
                decreases end - k,
            {
                line.push(c[k]);
                k = k + 1;
                assert(line@ =~= c@.subrange(start as int, k as int));
            }
            proof {
                let l0 = rest.take(i - start);
                assert(l0 =~= c@.subrange(start as int, i as int));
                if i > start && c@[i - 1] == '\r' {
                    assert(l0.last() == c@[i - 1]);
                    assert(line@ =~= l0.drop_last());
                } else {
                    if i > start {
                        assert(l0.last() == c@[i - 1]);
                    }
                    assert(line@ =~= l0);
                }
                assert(rest.skip(i - start + 1) =~= c@.skip(i + 1));
            }
            out.push(line);
            proof {
                assert(out@.map_values(|l: Vec<char>| l@) =~= before.push(out@.last()@));
                assert(before.push(out@.last()@) + lines(c@.skip(i + 1)) =~= before + (seq![
                    out@.last()@,
                ] + lines(c@.skip(i + 1))));
            }
            start = i + 1;
        } else {
            let mut line: Vec<char> = Vec::new();
            let mut k = start;
            while k < n
                invariant
                    start <= k <= n,
                    n == c@.len(),
                    line@ == c@.subrange(start as int, k as int),
                decreases n - k,
            {
                line.push(c[k]);
                k = k + 1;
                assert(line@ =~= c@.subrange(start as int, k as int));
            }
            assert(line@ =~= rest);
            out.push(line);
            proof {
                assert(out@.map_values(|l: Vec<char>| l@) =~= before.push(rest));
                assert(c@.skip(n as int) =~= Seq::<char>::empty());
                assert(lines(Seq::<char>::empty()) =~= Seq::<Seq<char>>::empty());
                assert(before.push(rest) + Seq::<Seq<char>>::empty() =~= before + seq![rest]);
            }
            start = n;
        }
    }
    proof {
        assert(c@.skip(n as int) =~= Seq::<char>::empty());
        assert(lines(Seq::<char>::empty()) =~= Seq::<Seq<char>>::empty());
        assert(out@.map_values(|l: Vec<char>| l@) + Seq::<Seq<char>>::empty() =~= out@.map_values(
            |l: Vec<char>| l@,
        ));
    }
    out
}

} // verus!
