//! Character-level text model shared by the parsers: whitespace, trimming,
//! substring search, ASCII case folding, line splitting and decimal numbers.
use vstd::prelude::*;

verus! {

// ---------------------------------------------------------------------------
// Characters
// ---------------------------------------------------------------------------

/// Unicode `White_Space`, the set that `char::is_whitespace` accepts.
pub open spec fn is_ws(c: char) -> bool {
    ||| c == '\t' || c == '\n' || c == '\u{0B}' || c == '\u{0C}' || c == '\r' || c == ' '
    ||| c == '\u{85}' || c == '\u{A0}' || c == '\u{1680}'
    ||| ('\u{2000}' <= c && c <= '\u{200A}')
    ||| c == '\u{2028}' || c == '\u{2029}' || c == '\u{202F}' || c == '\u{205F}'
    ||| c == '\u{3000}'
}

pub open spec fn is_digit(c: char) -> bool {
    '0' <= c && c <= '9'
}

pub open spec fn is_ascii_alnum(c: char) -> bool {
    is_digit(c) || ('a' <= c && c <= 'z') || ('A' <= c && c <= 'Z')
}

pub open spec fn lower_spec(c: char) -> char {
    if 'A' <= c && c <= 'Z' {
        ((c as u32) + 32) as char
    } else {
        c
    }
}

/// ASCII lower-casing of a whole text (`to_ascii_lowercase`).
pub open spec fn lower(s: Seq<char>) -> Seq<char> {
    s.map_values(|c: char| lower_spec(c))
}

pub fn is_ws_char(c: char) -> (b: bool)
    ensures
        b == is_ws(c),
{
    c == '\t' || c == '\n' || c == '\u{0B}' || c == '\u{0C}' || c == '\r' || c == ' ' || c
        == '\u{85}' || c == '\u{A0}' || c == '\u{1680}' || ('\u{2000}' <= c && c <= '\u{200A}')
        || c == '\u{2028}' || c == '\u{2029}' || c == '\u{202F}' || c == '\u{205F}' || c
        == '\u{3000}'
}

pub fn is_digit_char(c: char) -> (b: bool)
    ensures
        b == is_digit(c),
{
    '0' <= c && c <= '9'
}

pub fn is_ascii_alnum_char(c: char) -> (b: bool)
    ensures
        b == is_ascii_alnum(c),
{
    ('0' <= c && c <= '9') || ('a' <= c && c <= 'z') || ('A' <= c && c <= 'Z')
}

pub fn lower_char(c: char) -> (r: char)
    ensures
        r == lower_spec(c),
{
    if 'A' <= c && c <= 'Z' {
        let b: u8 = c as u8;
        assert(b as u32 == c as u32);
        (b + 32) as char
    } else {
        c
    }
}

/// A set of characters that trimming removes.
#[derive(Clone, Copy, PartialEq, Eq, Debug)]
pub enum CharClass {
    Whitespace,
    Exactly(char),
}

pub open spec fn in_class(cls: CharClass, c: char) -> bool {
    match cls {
        CharClass::Whitespace => is_ws(c),
        CharClass::Exactly(x) => c == x,
    }
}

pub fn class_has(cls: CharClass, c: char) -> (b: bool)
    ensures
        b == in_class(cls, c),
{
    match cls {
        CharClass::Whitespace => is_ws_char(c),
        CharClass::Exactly(x) => c == x,
    }
}

// ---------------------------------------------------------------------------
// Conversions between `str`/`String` and character vectors
// ---------------------------------------------------------------------------

/// Appends one character to a string (`String::push`).
#[verifier::external_body]
pub(crate) fn push_char(s: &mut String, c: char)
    ensures
        final(s)@ == old(s)@.push(c),
{
    s.push(c);
}

/// The characters of a string slice, in order.
pub fn chars_of(s: &str) -> (v: Vec<char>)
    ensures
        v@ == s@,
{
    let mut v: Vec<char> = Vec::new();
    for c in it: s.chars()
        invariant
            v@ == it.seq().take(it.index() as int),
            it.seq() == s@,
    {
        v.push(c);
    }
    v
}

/// A string holding exactly the given characters.
pub fn string_of(v: &[char]) -> (s: String)
    ensures
        s@ == v@,
{
    let mut s = String::new();
    let mut i: usize = 0;
    while i < v.len()
        invariant
            i <= v.len(),
            s@ == v@.take(i as int),
        decreases v.len() - i,
    {
        push_char(&mut s, v[i]);
        assert(v@.take(i as int + 1) == v@.take(i as int).push(v@[i as int]));
        i += 1;
    }
    assert(v@.take(v@.len() as int) == v@);
    s
}

/// Appends a string slice to a string.
pub fn push_str(s: &mut String, t: &str)
    ensures
        final(s)@ == old(s)@ + t@,
{
    let v = chars_of(t);
    let ghost start = s@;
    let mut i: usize = 0;
    while i < v.len()
        invariant
            i <= v.len(),
            v@ == t@,
            s@ == start + v@.take(i as int),
        decreases v.len() - i,
    {
        push_char(s, v[i]);
        assert(v@.take(i as int + 1) == v@.take(i as int).push(v@[i as int]));
        i += 1;
    }
    assert(v@.take(v@.len() as int) == v@);
}

/// Concatenation of two string slices into a new string.
pub fn concat(a: &str, b: &str) -> (s: String)
    ensures
        s@ == a@ + b@,
{
    let mut s = string_of(&chars_of(a));
    push_str(&mut s, b);
    s
}

/// Concatenation of three string slices into a new string.
pub fn concat3(a: &str, b: &str, c: &str) -> (s: String)
    ensures
        s@ == a@ + b@ + c@,
{
    let mut s = concat(a, b);
    push_str(&mut s, c);
    s
}

/// The characters `lo..hi` of a vector, copied.
pub fn sub_chars(v: &Vec<char>, lo: usize, hi: usize) -> (r: Vec<char>)
    requires
        lo <= hi <= v.len(),
    ensures
        r@ == v@.subrange(lo as int, hi as int),
{
    let mut r: Vec<char> = Vec::new();
    let mut i = lo;
    while i < hi
        invariant
            lo <= i <= hi <= v.len(),
            r@ == v@.subrange(lo as int, i as int),
        decreases hi - i,
    {
        r.push(v[i]);
        assert(v@.subrange(lo as int, i as int + 1) == v@.subrange(lo as int, i as int).push(
            v@[i as int],
        ));
        i += 1;
    }
    r
}

pub fn chars_eq(a: &Vec<char>, b: &Vec<char>) -> (r: bool)
    ensures
        r == (a@ == b@),
{
    if a.len() != b.len() {
        return false;
    }
    let mut i: usize = 0;
    while i < a.len()
        invariant
            a.len() == b.len(),
            i <= a.len(),
            forall|j: int| 0 <= j < i ==> a@[j] == b@[j],
        decreases a.len() - i,
    {
        if a[i] != b[i] {
            return false;
        }
        i += 1;
    }
    assert(a@ =~= b@);
    true
}

/// Equality of two string slices (`==` on `str`).
pub fn str_eq(a: &str, b: &str) -> (r: bool)
    ensures
        r == (a@ == b@),
{
    chars_eq(&chars_of(a), &chars_of(b))
}

// ---------------------------------------------------------------------------
// Trimming
// ---------------------------------------------------------------------------

/// Number of leading characters of `s` that belong to `cls`.
pub open spec fn lead_len(s: Seq<char>, cls: CharClass) -> nat
    decreases s.len(),
{
    if s.len() > 0 && in_class(cls, s[0]) {
        1 + lead_len(s.drop_first(), cls)
    } else {
        0
    }
}

/// Number of trailing characters of `s` that belong to `cls`.
pub open spec fn trail_len(s: Seq<char>, cls: CharClass) -> nat
    decreases s.len(),
{
    if s.len() > 0 && in_class(cls, s.last()) {
        1 + trail_len(s.drop_last(), cls)
    } else {
        0
    }
}

pub open spec fn trim_start_by(s: Seq<char>, cls: CharClass) -> Seq<char> {
    s.skip(lead_len(s, cls) as int)
}

pub open spec fn trim_end_by(s: Seq<char>, cls: CharClass) -> Seq<char> {
    s.take(s.len() - trail_len(s, cls))
}

/// `trim_matches` for a class of characters: leading, then trailing ones removed.
pub open spec fn trim_by(s: Seq<char>, cls: CharClass) -> Seq<char> {
    trim_end_by(trim_start_by(s, cls), cls)
}

/// `str::trim`.
pub open spec fn trim(s: Seq<char>) -> Seq<char> {
    trim_by(s, CharClass::Whitespace)
}

pub proof fn lemma_lead_len_bounded(s: Seq<char>, cls: CharClass)
    ensures
        lead_len(s, cls) <= s.len(),
    decreases s.len(),
{
    if s.len() > 0 && in_class(cls, s[0]) {
        lemma_lead_len_bounded(s.drop_first(), cls);
    }
}

pub proof fn lemma_trail_len_bounded(s: Seq<char>, cls: CharClass)
    ensures
        trail_len(s, cls) <= s.len(),
    decreases s.len(),
{
    if s.len() > 0 && in_class(cls, s.last()) {
        lemma_trail_len_bounded(s.drop_last(), cls);
    }
}

/// `lead_len` is the length of the maximal prefix inside the class.
pub proof fn lemma_lead_len_is(s: Seq<char>, cls: CharClass, k: int)
    requires
        0 <= k <= s.len(),
        forall|j: int| 0 <= j < k ==> in_class(cls, #[trigger] s[j]),
        k == s.len() || !in_class(cls, s[k]),
    ensures
        lead_len(s, cls) == k,
    decreases k,
{
    if k > 0 {
        let t = s.drop_first();
        assert forall|j: int| 0 <= j < k - 1 implies in_class(cls, #[trigger] t[j]) by {
            assert(t[j] == s[j + 1]);
        }
        if k < s.len() {
            assert(t[k - 1] == s[k]);
        }
        lemma_lead_len_is(t, cls, k - 1);
    }
}

/// `trail_len` is the length of the maximal suffix inside the class.
pub proof fn lemma_trail_len_is(s: Seq<char>, cls: CharClass, k: int)
    requires
        0 <= k <= s.len(),
        forall|j: int| s.len() - k <= j < s.len() ==> in_class(cls, #[trigger] s[j]),
        k == s.len() || !in_class(cls, s[s.len() - k - 1]),
    ensures
        trail_len(s, cls) == k,
    decreases k,
{
    if k > 0 {
        let t = s.drop_last();
        assert(in_class(cls, s[s.len() - 1]));
        assert forall|j: int| t.len() - (k - 1) <= j < t.len() implies in_class(
            cls,
            #[trigger] t[j],
        ) by {
            assert(t[j] == s[j]);
        }
        if k < s.len() {
            assert(t[t.len() - (k - 1) - 1] == s[s.len() - k - 1]);
        }
        lemma_trail_len_is(t, cls, k - 1);
    }
}

/// Bounds `(a, b)` such that `v[a..b]` is `v` trimmed of `cls` at both ends.
pub fn trim_bounds(v: &Vec<char>, cls: CharClass) -> (r: (usize, usize))
    ensures
        r.0 <= r.1 <= v.len(),
        v@.subrange(r.0 as int, r.1 as int) == trim_by(v@, cls),
        r.0 == lead_len(v@, cls),
{
    let mut a: usize = 0;
    while a < v.len() && class_has(cls, v[a])
        invariant
            a <= v.len(),
            forall|j: int| 0 <= j < a ==> in_class(cls, #[trigger] v@[j]),
        decreases v.len() - a,
    {
        a += 1;
    }
    proof {
        lemma_lead_len_is(v@, cls, a as int);
    }
    let ghost t = v@.skip(a as int);
    let mut b: usize = v.len();
    while b > a && class_has(cls, v[b - 1])
        invariant
            a <= b <= v.len(),
            t == v@.skip(a as int),
            forall|j: int| b <= j < v.len() ==> in_class(cls, #[trigger] v@[j]),
        decreases b - a,
    {
        b -= 1;
    }
    proof {
        let k = v.len() - b;
        assert forall|j: int| t.len() - k <= j < t.len() implies in_class(cls, #[trigger] t[j]) by {
            assert(t[j] == v@[j + a]);
        }
        if k < t.len() {
            assert(t[t.len() - k - 1] == v@[b - 1]);
        }
        lemma_trail_len_is(t, cls, k as int);
        assert(v@.subrange(a as int, b as int) =~= t.take(t.len() - k));
    }
    (a, b)
}

/// `v` trimmed of `cls` at both ends, copied.
pub fn trim_chars(v: &Vec<char>, cls: CharClass) -> (r: Vec<char>)
    ensures
        r@ == trim_by(v@, cls),
{
    let (a, b) = trim_bounds(v, cls);
    sub_chars(v, a, b)
}

/// `str::trim`, as a new string.
pub fn trim_str(s: &str) -> (r: String)
    ensures
        r@ == trim(s@),
{
    string_of(&trim_chars(&chars_of(s), CharClass::Whitespace))
}

// ---------------------------------------------------------------------------
// Prefixes, suffixes and substrings
// ---------------------------------------------------------------------------

pub open spec fn starts_with(s: Seq<char>, p: Seq<char>) -> bool {
    p.len() <= s.len() && s.take(p.len() as int) == p
}

pub open spec fn ends_with(s: Seq<char>, p: Seq<char>) -> bool {
    p.len() <= s.len() && s.skip(s.len() - p.len()) == p
}

/// `p` occurs in `s` at position `i`.
pub open spec fn occurs_at(s: Seq<char>, p: Seq<char>, i: int) -> bool {
    0 <= i && i + p.len() <= s.len() && s.subrange(i, i + p.len()) == p
}

pub open spec fn contains(s: Seq<char>, p: Seq<char>) -> bool {
    exists|i: int| occurs_at(s, p, i)
}

/// `i` is the first position at which `p` occurs in `s`.
pub open spec fn first_occurrence(s: Seq<char>, p: Seq<char>, i: int) -> bool {
    occurs_at(s, p, i) && forall|j: int| 0 <= j < i ==> !occurs_at(s, p, j)
}

pub fn matches_at(s: &Vec<char>, p: &Vec<char>, i: usize) -> (r: bool)
    ensures
        r == occurs_at(s@, p@, i as int),
{
    if i > s.len() || p.len() > s.len() - i {
        return false;
    }
    let mut k: usize = 0;
    while k < p.len()
        invariant
            i + p.len() <= s.len(),
            k <= p.len(),
            forall|j: int| 0 <= j < k ==> s@[i + j] == p@[j],
        decreases p.len() - k,
    {
        if s[i + k] != p[k] {
            assert(s@.subrange(i as int, i + p.len())[k as int] != p@[k as int]);
            return false;
        }
        k += 1;
    }
    assert(s@.subrange(i as int, i + p.len()) =~= p@);
    true
}

/// Position of the first occurrence of `p` in `s` (`str::find`).
pub fn find(s: &Vec<char>, p: &Vec<char>) -> (r: Option<usize>)
    ensures
        match r {
            Some(i) => first_occurrence(s@, p@, i as int),
            None => !contains(s@, p@),
        },
{
    if p.len() > s.len() {
        return None;
    }
    let limit = s.len() - p.len();
    let mut i: usize = 0;
    loop
        invariant
            p.len() <= s.len(),
            limit == s.len() - p.len(),
            i <= limit,
            forall|j: int| 0 <= j < i ==> !occurs_at(s@, p@, j),
        decreases limit - i,
    {
        if matches_at(s, p, i) {
            return Some(i);
        }
        if i == limit {
            return None;
        }
        i += 1;
    }
}

pub fn contains_chars(s: &Vec<char>, p: &Vec<char>) -> (r: bool)
    ensures
        r == contains(s@, p@),
{
    match find(s, p) {
        Some(_) => true,
        None => false,
    }
}

pub fn starts_with_chars(s: &Vec<char>, p: &Vec<char>) -> (r: bool)
    ensures
        r == starts_with(s@, p@),
{
    let r = matches_at(s, p, 0);
    proof {
        if r {
            assert(s@.take(p@.len() as int) == s@.subrange(0, p@.len() as int));
        }
        if starts_with(s@, p@) {
            assert(s@.subrange(0, p@.len() as int) == s@.take(p@.len() as int));
        }
    }
    r
}

pub fn ends_with_chars(s: &Vec<char>, p: &Vec<char>) -> (r: bool)
    ensures
        r == ends_with(s@, p@),
{
    if p.len() > s.len() {
        return false;
    }
    let r = matches_at(s, p, s.len() - p.len());
    proof {
        assert(s@.skip(s.len() - p.len()) =~= s@.subrange(
            s.len() - p.len(),
            s.len() - p.len() + p.len(),
        ));
    }
    r
}

/// `str::contains` on string slices.
pub fn str_contains(s: &str, p: &str) -> (r: bool)
    ensures
        r == contains(s@, p@),
{
    contains_chars(&chars_of(s), &chars_of(p))
}

// ---------------------------------------------------------------------------
// ASCII case folding
// ---------------------------------------------------------------------------

pub fn lower_chars(v: &Vec<char>) -> (r: Vec<char>)
    ensures
        r@ == lower(v@),
{
    let mut r: Vec<char> = Vec::new();
    let mut i: usize = 0;
    while i < v.len()
        invariant
            i <= v.len(),
            r@ == lower(v@.take(i as int)),
        decreases v.len() - i,
    {
        r.push(lower_char(v[i]));
        assert(lower(v@.take(i as int + 1)) =~= lower(v@.take(i as int)).push(lower_spec(v@[i as int])));
        i += 1;
    }
    assert(v@.take(v@.len() as int) == v@);
    r
}

// ---------------------------------------------------------------------------
// Lines
// ---------------------------------------------------------------------------

/// Index of the first `c` in `s`, if any.
pub open spec fn index_of(s: Seq<char>, c: char) -> Option<int>
    decreases s.len(),
{
    if s.len() == 0 {
        None
    } else if s[0] == c {
        Some(0)
    } else {
        match index_of(s.drop_first(), c) {
            Some(i) => Some(i + 1),
            None => None,
        }
    }
}

/// Removes one trailing carriage return.
pub open spec fn strip_cr(s: Seq<char>) -> Seq<char> {
    if s.len() > 0 && s.last() == '\r' {
        s.drop_last()
    } else {
        s
    }
}

/// `str::lines`: pieces split at `\n`; a piece ended by `\n` loses one trailing `\r`;
/// no piece follows a final `\n`.
pub open spec fn lines(s: Seq<char>) -> Seq<Seq<char>>
    decreases s.len(),
{
    if s.len() == 0 {
        seq![]
    } else {
        match index_of(s, '\n') {
            Some(i) => if 0 <= i < s.len() {
                seq![strip_cr(s.take(i))] + lines(s.skip(i + 1))
            } else {
                seq![s]
            },
            None => seq![s],
        }
    }
}

/// `index_of` agrees with a scan that finds `c` at `i` and nowhere before.
pub proof fn lemma_index_of_is(s: Seq<char>, c: char, i: int)
    requires
        0 <= i <= s.len(),
        forall|j: int| 0 <= j < i ==> #[trigger] s[j] != c,
        i == s.len() || s[i] == c,
    ensures
        index_of(s, c) == (if i < s.len() { Some(i) } else { None::<int> }),
    decreases i,
{
    if i > 0 {
        let t = s.drop_first();
        assert forall|j: int| 0 <= j < i - 1 implies #[trigger] t[j] != c by {
            assert(t[j] == s[j + 1]);
        }
        if i < s.len() {
            assert(t[i - 1] == s[i]);
        }
        lemma_index_of_is(t, c, i - 1);
    }
}

pub fn strip_cr_chars(v: Vec<char>) -> (r: Vec<char>)
    ensures
        r@ == strip_cr(v@),
{
    let mut v = v;
    if v.len() > 0 && v[v.len() - 1] == '\r' {
        v.pop();
    }
    v
}

/// The lines of a text (`str::lines`), each as a character vector.
pub fn lines_of(v: &Vec<char>) -> (r: Vec<Vec<char>>)
    ensures
        r@.len() == lines(v@).len(),
        forall|k: int| 0 <= k < r@.len() ==> #[trigger] r@[k]@ == lines(v@)[k],
{
    let mut out: Vec<Vec<char>> = Vec::new();
    let mut start: usize = 0;
    let mut cur: Vec<char> = Vec::new();
    let mut i: usize = 0;
    assert(v@.skip(0) == v@);
    while i < v.len()
        invariant
            start <= i <= v.len(),
            cur@ == v@.subrange(start as int, i as int),
            forall|j: int| start <= j < i ==> #[trigger] v@[j] != '\n',
            out@.len() + lines(v@.skip(start as int)).len() == lines(v@).len(),
            forall|k: int| 0 <= k < out@.len() ==> #[trigger] out@[k]@ == lines(v@)[k],
            forall|k: int|
                0 <= k < lines(v@.skip(start as int)).len() ==> lines(v@)[out@.len() + k]
                    == #[trigger] lines(v@.skip(start as int))[k],
        decreases v.len() - i,
    {
        if v[i] == '\n' {
            let ghost rest = v@.skip(start as int);
            proof {
                let n = i - start;
                assert forall|j: int| 0 <= j < n implies #[trigger] rest[j] != '\n' by {
                    assert(rest[j] == v@[start + j]);
                }
                assert(rest[n as int] == v@[i as int]);
                lemma_index_of_is(rest, '\n', n as int);
                assert(rest.take(n as int) =~= cur@);
                assert(rest.skip(n + 1) =~= v@.skip(i + 1));
                assert(lines(rest) == seq![strip_cr(cur@)] + lines(v@.skip(i + 1)));
            }
            let line = strip_cr_chars(cur);
            out.push(line);
            cur = Vec::new();
            start = i + 1;
            proof {
                assert forall|k: int|
                    0 <= k < lines(v@.skip(start as int)).len() implies lines(v@)[out@.len() + k]
                    == #[trigger] lines(v@.skip(start as int))[k] by {
                    assert(lines(rest)[k + 1] == lines(v@.skip(start as int))[k]);
                }
                assert(out@[out@.len() - 1]@ == lines(rest)[0]);
            }
        } else {
            cur.push(v[i]);
            assert(v@.subrange(start as int, i + 1) == v@.subrange(start as int, i as int).push(
                v@[i as int],
            ));
        }
        i += 1;
    }
    let ghost rest = v@.skip(start as int);
    if start < v.len() {
        proof {
            let n = v.len() - start;
            assert forall|j: int| 0 <= j < n implies #[trigger] rest[j] != '\n' by {
                assert(rest[j] == v@[start + j]);
            }
            lemma_index_of_is(rest, '\n', n as int);
            assert(rest =~= cur@);
            assert(lines(rest) == seq![cur@]);
            assert(lines(v@)[out@.len() + 0int] == lines(rest)[0]);
        }
        let ghost old_len = out@.len();
        out.push(cur);
        assert(out@[old_len as int]@ == lines(v@)[old_len as int]);
        assert(out@.len() == lines(v@).len());
    } else {
        assert(rest.len() == 0);
        assert(lines(rest).len() == 0);
    }
    out
}


/// Position of the first `c` in `v`.
pub fn index_of_char(v: &Vec<char>, c: char) -> (r: Option<usize>)
    ensures
        match r {
            Some(i) => index_of(v@, c) == Some(i as int) && i < v.len(),
            None => index_of(v@, c) == None::<int>,
        },
{
    let mut i: usize = 0;
    while i < v.len() && v[i] != c
        invariant
            i <= v.len(),
            forall|j: int| 0 <= j < i ==> #[trigger] v@[j] != c,
        decreases v.len() - i,
    {
        i += 1;
    }
    proof {
        lemma_index_of_is(v@, c, i as int);
    }
    if i < v.len() {
        Some(i)
    } else {
        None
    }
}

/// After trimming, the text starts and ends outside the class.
pub proof fn lemma_lead_len_stops(s: Seq<char>, cls: CharClass)
    ensures
        lead_len(s, cls) <= s.len(),
        lead_len(s, cls) < s.len() ==> !in_class(cls, s[lead_len(s, cls) as int]),
        forall|j: int| 0 <= j < lead_len(s, cls) ==> in_class(cls, #[trigger] s[j]),
    decreases s.len(),
{
    if s.len() > 0 && in_class(cls, s[0]) {
        let t = s.drop_first();
        lemma_lead_len_stops(t, cls);
        assert forall|j: int| 0 <= j < lead_len(s, cls) implies in_class(cls, #[trigger] s[j]) by {
            if j > 0 {
                assert(s[j] == t[j - 1]);
            }
        }
        if lead_len(s, cls) < s.len() {
            assert(s[lead_len(s, cls) as int] == t[lead_len(t, cls) as int]);
        }
    }
}

pub proof fn lemma_trail_len_stops(s: Seq<char>, cls: CharClass)
    ensures
        trail_len(s, cls) <= s.len(),
        trail_len(s, cls) < s.len() ==> !in_class(cls, s[s.len() - trail_len(s, cls) - 1]),
        forall|j: int| s.len() - trail_len(s, cls) <= j < s.len() ==> in_class(cls, #[trigger] s[j]),
    decreases s.len(),
{
    if s.len() > 0 && in_class(cls, s.last()) {
        let t = s.drop_last();
        lemma_trail_len_stops(t, cls);
        assert forall|j: int| s.len() - trail_len(s, cls) <= j < s.len() implies in_class(
            cls,
            #[trigger] s[j],
        ) by {
            if j < s.len() - 1 {
                assert(s[j] == t[j]);
            }
        }
        if trail_len(s, cls) < s.len() {
            assert(s[s.len() - trail_len(s, cls) - 1] == t[t.len() - trail_len(t, cls) - 1]);
        }
    }
}

/// Trimming twice trims no more than trimming once.
pub proof fn lemma_trim_by_idempotent(s: Seq<char>, cls: CharClass)
    ensures
        trim_by(trim_by(s, cls), cls) == trim_by(s, cls),
{
    let a = trim_start_by(s, cls);
    let t = trim_by(s, cls);
    lemma_lead_len_stops(s, cls);
    lemma_trail_len_stops(a, cls);
    if t.len() > 0 {
        assert(t[0] == a[0]);
        assert(a[0] == s[lead_len(s, cls) as int]);
        lemma_lead_len_is(t, cls, 0);
        assert(t.skip(0) == t);
        assert(t[t.len() - 1] == a[a.len() - trail_len(a, cls) - 1]);
        lemma_trail_len_is(t, cls, 0);
        assert(t.take(t.len() as int) == t);
    } else {
        assert(trim_by(t, cls) =~= t);
    }
}

// ---------------------------------------------------------------------------
// Decimal numbers
// ---------------------------------------------------------------------------

pub open spec fn digit_char(d: nat) -> char {
    ((d + 48) as u32) as char
}

pub open spec fn digit_value(c: char) -> nat {
    ((c as u32) - 48) as nat
}

/// Decimal rendering of a natural number, without leading zeros.
pub open spec fn decimal(n: nat) -> Seq<char>
    decreases n,
{
    if n < 10 {
        seq![digit_char(n)]
    } else {
        decimal(n / 10).push(digit_char(n % 10))
    }
}

/// Value of a sequence of decimal digits.
pub open spec fn digits_value(s: Seq<char>) -> nat
    decreases s.len(),
{
    if s.len() == 0 {
        0
    } else {
        digits_value(s.drop_last()) * 10 + digit_value(s.last())
    }
}

pub open spec fn all_digits(s: Seq<char>) -> bool {
    forall|i: int| 0 <= i < s.len() ==> is_digit(#[trigger] s[i])
}

/// What `str::parse::<u64>` accepts: a non-empty run of digits whose value fits.
/// (A leading `+` is also accepted by std; the callers here never pass one.)
pub open spec fn parses_u64(s: Seq<char>) -> bool {
    s.len() > 0 && all_digits(s) && digits_value(s) <= u64::MAX
}

pub fn digit_of(d: u64) -> (r: char)
    requires
        d < 10,
    ensures
        r == digit_char(d as nat),
{
    let b: u8 = (d as u8) + 48;
    b as char
}

/// Decimal rendering of `n` (`u64::to_string`).
pub fn decimal_string(n: u64) -> (s: String)
    ensures
        s@ == decimal(n as nat),
    decreases n,
{
    if n < 10 {
        let mut s = String::new();
        push_char(&mut s, digit_of(n));
        assert(s@ =~= seq![digit_char(n as nat)]);
        s
    } else {
        let mut s = decimal_string(n / 10);
        push_char(&mut s, digit_of(n % 10));
        s
    }
}

/// `str::parse::<u64>` on a run of characters that holds no sign.
pub fn parse_u64_chars(v: &Vec<char>) -> (r: Option<u64>)
    ensures
        match r {
            Some(n) => parses_u64(v@) && n == digits_value(v@),
            None => !parses_u64(v@),
        },
{
    if v.len() == 0 {
        return None;
    }
    let mut acc: u64 = 0;
    let mut i: usize = 0;
    while i < v.len()
        invariant
            i <= v.len(),
            all_digits(v@.take(i as int)),
            acc == digits_value(v@.take(i as int)),
        decreases v.len() - i,
    {
        let c = v[i];
        if !is_digit_char(c) {
            assert(!all_digits(v@));
            return None;
        }
        let d: u64 = ((c as u32) - 48) as u64;
        assert(v@.take(i + 1).drop_last() == v@.take(i as int));
        if acc > (u64::MAX - d) / 10 {
            proof {
                if all_digits(v@) {
                    lemma_digits_value_prefix_mono(v@, i + 1);
                    assert(acc * 10 + d > u64::MAX) by (nonlinear_arith)
                        requires
                            acc > (u64::MAX - d) / 10,
                            d < 10,
                    ;
                }
            }
            return None;
        }
        acc = acc * 10 + d;
        i += 1;
    }
    assert(v@.take(v@.len() as int) == v@);
    Some(acc)
}

/// A longer digit prefix never has a smaller value.
pub proof fn lemma_digits_value_prefix_mono(s: Seq<char>, k: int)
    requires
        0 <= k <= s.len(),
        all_digits(s),
    ensures
        digits_value(s.take(k)) <= digits_value(s),
    decreases s.len() - k,
{
    if k < s.len() {
        lemma_digits_value_prefix_mono(s, k + 1);
        assert(s.take(k + 1).drop_last() == s.take(k));
        assert(digits_value(s.take(k + 1)) == digits_value(s.take(k)) * 10 + digit_value(
            s.take(k + 1).last(),
        ));
    } else {
        assert(s.take(k) == s);
    }
}

} // verus!
