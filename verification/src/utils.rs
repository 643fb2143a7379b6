//! Path and value helpers shared by the profile layer and the adapters.
use vstd::prelude::*;
use vstd::string::StrSliceExecFns;

use crate::text::{chars_of, concat, starts_with, string_of, sub_chars, trim, trim_bounds, trim_by, CharClass};

verus! {

/// `value.trim().trim_matches('"').trim_matches('\'').trim()`.
pub open spec fn unquote_spec(s: Seq<char>) -> Seq<char> {
    trim(trim_by(trim_by(trim(s), CharClass::Exactly('"')), CharClass::Exactly('\'')))
}

/// Bounds of the unquoted part of `v`.
pub fn unquote_bounds(v: &Vec<char>) -> (r: (usize, usize))
    ensures
        r.0 <= r.1 <= v.len(),
        v@.subrange(r.0 as int, r.1 as int) == unquote_spec(v@),
{
    let (a1, b1) = trim_bounds(v, CharClass::Whitespace);
    let s1 = sub_chars(v, a1, b1);
    let (a2, b2) = trim_bounds(&s1, CharClass::Exactly('"'));
    let s2 = sub_chars(&s1, a2, b2);
    let (a3, b3) = trim_bounds(&s2, CharClass::Exactly('\''));
    let s3 = sub_chars(&s2, a3, b3);
    let (a4, b4) = trim_bounds(&s3, CharClass::Whitespace);
    let lo = a1 + a2 + a3 + a4;
    let hi = a1 + a2 + a3 + b4;
    proof {
        assert(v@.subrange(lo as int, hi as int) =~= s3@.subrange(a4 as int, b4 as int));
    }
    (lo, hi)
}

/// The unquoted part of `v`, copied.
pub fn unquote_chars(v: &Vec<char>) -> (r: Vec<char>)
    ensures
        r@ == unquote_spec(v@),
{
    let (a, b) = unquote_bounds(v);
    sub_chars(v, a, b)
}

/// Strips surrounding whitespace and one layer of `"` or `'` quoting characters.
pub fn unquote(value: &str) -> (r: &str)
    ensures
        r@ == unquote_spec(value@),
{
    let v = chars_of(value);
    let (a, b) = unquote_bounds(&v);
    value.substring_char(a, b)
}

// ---------------------------------------------------------------------------
// Relative sync paths
// ---------------------------------------------------------------------------

/// A relative sync path split into its parent directory and its last component.
pub struct SyncPath<'a> {
    pub parent: Option<&'a str>,
    pub name: &'a str,
}

/// `s.trim_start_matches(p)`: every leading copy of a non-empty `p` removed.
pub open spec fn strip_prefix_all(s: Seq<char>, p: Seq<char>) -> Seq<char>
    decreases s.len(),
{
    if p.len() > 0 && starts_with(s, p) {
        strip_prefix_all(s.skip(p.len() as int), p)
    } else {
        s
    }
}

/// Index of the last `c` in `s`.
pub open spec fn last_index_of(s: Seq<char>, c: char) -> Option<int>
    decreases s.len(),
{
    if s.len() == 0 {
        None
    } else if s.last() == c {
        Some(s.len() - 1)
    } else {
        last_index_of(s.drop_last(), c)
    }
}

/// `path.trim_start_matches("./").trim_matches('/')`.
pub open spec fn normalized_sync_path(path: Seq<char>) -> Seq<char> {
    trim_by(strip_prefix_all(path, seq!['.', '/']), CharClass::Exactly('/'))
}

/// The parent of a normalized path: everything before its last `/`.
pub open spec fn sync_parent(path: Seq<char>) -> Option<Seq<char>> {
    let n = normalized_sync_path(path);
    match last_index_of(n, '/') {
        Some(i) => Some(n.take(i)),
        None => None,
    }
}

/// The last component of a normalized path.
pub open spec fn sync_name(path: Seq<char>) -> Seq<char> {
    let n = normalized_sync_path(path);
    match last_index_of(n, '/') {
        Some(i) => n.skip(i + 1),
        None => n,
    }
}

proof fn lemma_last_index_of_is(s: Seq<char>, c: char, k: int)
    requires
        -1 <= k < s.len(),
        forall|j: int| k < j < s.len() ==> #[trigger] s[j] != c,
        k == -1 || s[k] == c,
    ensures
        last_index_of(s, c) == (if k >= 0 { Some(k) } else { None::<int> }),
    decreases s.len(),
{
    if s.len() > 0 && k < s.len() - 1 {
        let t = s.drop_last();
        assert forall|j: int| k < j < t.len() implies #[trigger] t[j] != c by {
            assert(t[j] == s[j]);
        }
        if k >= 0 {
            assert(t[k] == s[k]);
        }
        lemma_last_index_of_is(t, c, k);
    }
}

/// Start of the text left after removing every leading `./`.
fn strip_dot_slash_start(v: &Vec<char>) -> (r: usize)
    ensures
        r <= v.len(),
        v@.skip(r as int) == strip_prefix_all(v@, seq!['.', '/']),
{
    let ghost p = seq!['.', '/'];
    let mut i: usize = 0;
    assert(v@.skip(0) == v@);
    while i < v.len() && v.len() - i > 1 && v[i] == '.' && v[i + 1] == '/'
        invariant
            i <= v.len(),
            p == seq!['.', '/'],
            strip_prefix_all(v@, p) == strip_prefix_all(v@.skip(i as int), p),
        decreases v.len() - i,
    {
        proof {
            let t = v@.skip(i as int);
            assert(t[0] == v@[i as int] && t[1] == v@[i + 1]);
            assert(t.take(2) =~= p);
            assert(t.skip(2) =~= v@.skip(i + 2));
        }
        i += 2;
    }
    proof {
        let t = v@.skip(i as int);
        if starts_with(t, p) {
            assert(t[0] == v@[i as int] && t[1] == v@[i + 1]);
            assert(t.take(2)[0] == p[0] && t.take(2)[1] == p[1]);
        }
    }
    i
}

/// Bounds of the normalized path inside `v`, and of its last `/` if any.
fn sync_path_bounds(v: &Vec<char>) -> (r: (usize, usize, Option<usize>))
    ensures
        r.0 <= r.1 <= v.len(),
        v@.subrange(r.0 as int, r.1 as int) == normalized_sync_path(v@),
        match r.2 {
            Some(k) => r.0 <= k < r.1 && last_index_of(normalized_sync_path(v@), '/') == Some(
                k - r.0,
            ),
            None => last_index_of(normalized_sync_path(v@), '/') == None::<int>,
        },
{
    let s = strip_dot_slash_start(v);
    let rest = sub_chars(v, s, v.len());
    assert(rest@ == v@.skip(s as int));
    let (a, b) = trim_bounds(&rest, CharClass::Exactly('/'));
    let lo = s + a;
    let hi = s + b;
    let ghost n = rest@.subrange(a as int, b as int);
    assert(v@.subrange(lo as int, hi as int) =~= n);
    let mut k = hi;
    while k > lo && v[k - 1] != '/'
        invariant
            lo <= k <= hi <= v.len(),
            n == v@.subrange(lo as int, hi as int),
            forall|j: int| k <= j < hi ==> #[trigger] v@[j] != '/',
        decreases k - lo,
    {
        k -= 1;
    }
    proof {
        let m = k - lo - 1;
        assert forall|j: int| m < j < n.len() implies #[trigger] n[j] != '/' by {
            assert(n[j] == v@[lo + j]);
        }
        if k > lo {
            assert(n[m] == v@[k - 1]);
        }
        lemma_last_index_of_is(n, '/', m);
    }
    if k > lo {
        (lo, hi, Some(k - 1))
    } else {
        (lo, hi, None)
    }
}

/// Splits a sync-relative path (leading `./` and surrounding `/` dropped) at its last `/`.
pub fn sync_path(path: &str) -> (r: SyncPath<'_>)
    ensures
        r.name@ == sync_name(path@),
        match r.parent {
            Some(p) => sync_parent(path@) == Some(p@),
            None => sync_parent(path@) == None::<Seq<char>>,
        },
{
    let v = chars_of(path);
    let (lo, hi, slash) = sync_path_bounds(&v);
    let ghost n = normalized_sync_path(path@);
    match slash {
        Some(k) => {
            let parent = path.substring_char(lo, k);
            let name = path.substring_char(k + 1, hi);
            assert(parent@ =~= n.take(k - lo));
            assert(name@ =~= n.skip(k - lo + 1));
            SyncPath { parent: Some(parent), name }
        },
        None => {
            let name = path.substring_char(lo, hi);
            SyncPath { parent: None, name }
        },
    }
}

// ---------------------------------------------------------------------------
// Filesystem paths as text
// ---------------------------------------------------------------------------

/// `PathBuf::from(base).join(rest)` on Unix: an absolute `rest` replaces `base`;
/// otherwise a `/` separates them unless `base` is empty or already ends in `/`.
pub open spec fn join_spec(base: Seq<char>, rest: Seq<char>) -> Seq<char> {
    if rest.len() > 0 && rest[0] == '/' {
        rest
    } else if base.len() == 0 || base.last() == '/' {
        base + rest
    } else {
        base + seq!['/'] + rest
    }
}

/// Joins a path component onto a base path, as `Path::join` does on Unix.
pub fn join_path(base: &str, rest: &str) -> (r: String)
    ensures
        r@ == join_spec(base@, rest@),
{
    let b = chars_of(base);
    let t = chars_of(rest);
    if t.len() > 0 && t[0] == '/' {
        string_of(&t)
    } else if b.len() == 0 || b[b.len() - 1] == '/' {
        concat(base, rest)
    } else {
        let mut s = concat(base, "/");
        crate::text::push_str(&mut s, rest);
        proof {
            reveal_strlit("/");
        }
        s
    }
}

/// `~/rest` resolved against a home directory; other paths unchanged.
pub open spec fn expand_home_spec(home: Seq<char>, path: Seq<char>) -> Seq<char> {
    if starts_with(path, seq!['~', '/']) {
        join_spec(home, path.skip(2))
    } else {
        path
    }
}

/// Expands a leading `~/` against the given home directory.
pub fn expand_home(home: &str, path: &str) -> (r: String)
    ensures
        r@ == expand_home_spec(home@, path@),
{
    let v = chars_of(path);
    if v.len() >= 2 && v[0] == '~' && v[1] == '/' {
        assert(v@.take(2) =~= seq!['~', '/']);
        let rest = string_of(&sub_chars(&v, 2, v.len()));
        assert(rest@ =~= path@.skip(2));
        join_path(home, rest.as_str())
    } else {
        proof {
            if starts_with(path@, seq!['~', '/']) {
                assert(path@.take(2)[0] == '~' && path@.take(2)[1] == '/');
            }
        }
        string_of(&v)
    }
}

/// The OneSync configuration root: `$XDG_CONFIG_HOME/onesync` when that variable is
/// set, otherwise `<home>/.config/onesync`.
pub open spec fn config_root_spec(xdg: Option<Seq<char>>, home: Seq<char>) -> Seq<char> {
    match xdg {
        Some(x) => join_spec(x, "onesync"@),
        None => join_spec(join_spec(home, ".config"@), "onesync"@),
    }
}

pub fn config_root(xdg: Option<&str>, home: &str) -> (r: String)
    ensures
        r@ == config_root_spec(
            match xdg {
                Some(x) => Some(x@),
                None => None,
            },
            home@,
        ),
{
    match xdg {
        Some(x) => join_path(x, "onesync"),
        None => {
            let dot_config = join_path(home, ".config");
            join_path(dot_config.as_str(), "onesync")
        },
    }
}

} // verus!
