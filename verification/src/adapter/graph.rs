//! Microsoft Graph: addressing drive items by path, and reading what the account's
//! own files say about it.
use vstd::prelude::*;

use crate::adapter::onedrive::output::{split_char, split_char_of};
use crate::present::lit;
use crate::text::{
    chars_eq, chars_of, concat, concat3, index_of, index_of_char, lines, lines_of, push_char,
    push_str, string_of, sub_chars, trim, trim_chars, CharClass,
};
use crate::utils::{
    expand_home, expand_home_spec, join_path, join_spec, strip_prefix_all, sync_parent, sync_path,
    unquote_chars, unquote_spec,
};

verus! {

/// Bytes that stand for themselves in a Graph path segment: ASCII letters and digits
/// and `-`, `_`, `.`, `~`.
pub open spec fn is_unreserved(b: u8) -> bool {
    ||| 48 <= b <= 57
    ||| 65 <= b <= 90
    ||| 97 <= b <= 122
    ||| b == 45
    ||| b == 95
    ||| b == 46
    ||| b == 126
}

/// An upper-case hexadecimal digit for `0 <= n < 16`.
pub open spec fn hex_digit_spec(n: int) -> char {
    if n < 10 {
        (48 + n) as char
    } else {
        (55 + n) as char
    }
}

/// One byte of a segment, percent-encoded when it is not unreserved.
pub open spec fn encode_byte(b: u8) -> Seq<char> {
    if is_unreserved(b) {
        seq![b as char]
    } else {
        seq!['%', hex_digit_spec(b as int / 16), hex_digit_spec(b as int % 16)]
    }
}

/// The percent-encoding of a byte sequence, byte by byte.
pub open spec fn encode_bytes(bytes: Seq<u8>) -> Seq<char>
    decreases bytes.len(),
{
    if bytes.len() == 0 {
        Seq::empty()
    } else {
        encode_bytes(bytes.drop_last()) + encode_byte(bytes.last())
    }
}

/// The percent-encoding of a segment's UTF-8 bytes.
pub open spec fn encode_segment_spec(segment: Seq<char>) -> Seq<char> {
    encode_bytes(vstd::utf8::encode_utf8(segment))
}

/// Pieces joined with `/` between them.
pub open spec fn join_slash(pieces: Seq<Seq<char>>) -> Seq<char>
    decreases pieces.len(),
{
    if pieces.len() == 0 {
        Seq::empty()
    } else if pieces.len() == 1 {
        pieces[0]
    } else {
        join_slash(pieces.drop_last()) + seq!['/'] + pieces.last()
    }
}

/// A sync-relative path as Graph addresses it: leading `./` dropped, every
/// `/`-separated segment percent-encoded, the slashes kept.
pub open spec fn graph_path_spec(path: Seq<char>) -> Seq<char> {
    join_slash(
        split_char(strip_prefix_all(path, seq!['.', '/']), '/').map_values(
            |s: Seq<char>| encode_segment_spec(s),
        ),
    )
}

fn hex_digit(n: u8) -> (c: char)
    requires
        n < 16,
    ensures
        c == hex_digit_spec(n as int),
{
    if n < 10 {
        (n + 48) as char
    } else {
        (n + 55) as char
    }
}

fn is_unreserved_byte(b: u8) -> (r: bool)
    ensures
        r == is_unreserved(b),
{
    (48 <= b && b <= 57) || (65 <= b && b <= 90) || (97 <= b && b <= 122) || b == 45 || b == 95
        || b == 46 || b == 126
}

/// Percent-encodes the UTF-8 bytes of one path segment.
pub fn percent_encode_segment(segment: &str) -> (r: String)
    ensures
        r@ == encode_segment_spec(segment@),
{
    let bytes = segment.as_bytes();
    let ghost bs = vstd::utf8::encode_utf8(segment@);
    assert(bytes@ == bs);
    let mut encoded = String::new();
    let mut i: usize = 0;
    while i < bytes.len()
        invariant
            i <= bytes.len(),
            bytes@ == bs,
            encoded@ == encode_bytes(bs.take(i as int)),
        decreases bytes.len() - i,
    {
        let b = bytes[i];
        if is_unreserved_byte(b) {
            push_char(&mut encoded, b as char);
        } else {
            push_char(&mut encoded, '%');
            push_char(&mut encoded, hex_digit(b / 16));
            push_char(&mut encoded, hex_digit(b % 16));
        }
        proof {
            let t = bs.take(i + 1);
            assert(t.drop_last() =~= bs.take(i as int));
            assert(t.last() == b);
            assert(encoded@ =~= encode_bytes(bs.take(i as int)) + encode_byte(b));
        }
        i += 1;
    }
    assert(bs.take(bs.len() as int) =~= bs);
    encoded
}

/// Start of the text left after removing every leading `./`.
fn strip_dot_slash(v: &Vec<char>) -> (r: usize)
    ensures
        r <= v.len(),
        v@.skip(r as int) == strip_prefix_all(v@, seq!['.', '/']),
{
    let ghost p = seq!['.', '/'];
    let mut i: usize = 0;
    assert(v@.skip(0) == v@);
    while i < v.len() && v.len() - i > 1 && v[i] == '.' && v[i + 1] == '/'
        invariant
            i <= v.len(),
            p == seq!['.', '/'],
            strip_prefix_all(v@, p) == strip_prefix_all(v@.skip(i as int), p),
        decreases v.len() - i,
    {
        proof {
            let t = v@.skip(i as int);
            assert(t[0] == v@[i as int] && t[1] == v@[i + 1]);
            assert(t.take(2) =~= p);
            assert(t.skip(2) =~= v@.skip(i + 2));
        }
        i += 2;
    }
    proof {
        let t = v@.skip(i as int);
        if crate::text::starts_with(t, p) {
            assert(t.take(2)[0] == p[0] && t.take(2)[1] == p[1]);
            assert(t[0] == v@[i as int] && t[1] == v@[i + 1]);
        }
    }
    i
}

/// The Graph form of a sync-relative path, as used after `root:/` in a drive URL.
pub fn graph_path(path: &str) -> (r: String)
    ensures
        r@ == graph_path_spec(path@),
{
    let v = chars_of(path);
    let start = strip_dot_slash(&v);
    let rest = crate::text::sub_chars(&v, start, v.len());
    let pieces = split_char_of(&rest, '/');
    let ghost segs = split_char(strip_prefix_all(path@, seq!['.', '/']), '/');
    let ghost encoded = segs.map_values(|s: Seq<char>| encode_segment_spec(s));
    assert(rest@ == strip_prefix_all(path@, seq!['.', '/']));
    let mut out = String::new();
    let mut k: usize = 0;
    while k < pieces.len()
        invariant
            k <= pieces.len(),
            pieces@.len() == segs.len(),
            forall|j: int| 0 <= j < pieces@.len() ==> #[trigger] pieces@[j]@ == segs[j],
            encoded == segs.map_values(|s: Seq<char>| encode_segment_spec(s)),
            out@ == join_slash(encoded.take(k as int)),
        decreases pieces.len() - k,
    {
        let seg = string_of(pieces[k].as_slice());
        let enc = percent_encode_segment(seg.as_str());
        let ghost before = out@;
        if k > 0 {
            push_char(&mut out, '/');
        }
        crate::text::push_str(&mut out, enc.as_str());
        proof {
            let t = encoded.take(k + 1);
            assert(t.drop_last() =~= encoded.take(k as int));
            assert(t.last() == encoded[k as int]);
            assert(encoded[k as int] == encode_segment_spec(segs[k as int]));
            if k == 0 {
                assert(encoded.take(0) =~= Seq::<Seq<char>>::empty());
                assert(out@ =~= t[0]);
            } else {
                assert(out@ =~= before + seq!['/'] + t.last());
            }
        }
        k += 1;
    }
    assert(encoded.take(encoded.len() as int) =~= encoded);
    out
}

// ---------------------------------------------------------------------------
// What the account's files say
// ---------------------------------------------------------------------------

/// The owner of a drive, as far as Graph reports it.
#[derive(Debug, Clone, PartialEq, Eq)]
pub struct AccountIdentity {
    pub display_name: Option<String>,
    pub email: Option<String>,
}

/// A value with surrounding whitespace removed, or nothing when that leaves it empty.
pub open spec fn non_empty_spec(value: Option<Seq<char>>) -> Option<Seq<char>> {
    match value {
        Some(v) => if trim(v).len() == 0 {
            None
        } else {
            Some(trim(v))
        },
        None => None,
    }
}

/// Trims a reported identity field and drops it when blank.
pub fn non_empty(value: Option<&str>) -> (r: Option<String>)
    ensures
        match r {
            Some(s) => non_empty_spec(crate::profile::store::opt_str(value)) == Some(s@),
            None => non_empty_spec(crate::profile::store::opt_str(value)) == None::<Seq<char>>,
        },
{
    match value {
        Some(v) => {
            let t = trim_chars(&chars_of(v), CharClass::Whitespace);
            if t.len() == 0 {
                None
            } else {
                Some(string_of(t.as_slice()))
            }
        },
        None => None,
    }
}

/// The identity Graph reported, with blank fields dropped.
pub fn account_identity(display_name: Option<&str>, email: Option<&str>) -> (r: AccountIdentity)
    ensures
        r.display_name.is_some() == non_empty_spec(crate::profile::store::opt_str(display_name)).is_some(),
        r.email.is_some() == non_empty_spec(crate::profile::store::opt_str(email)).is_some(),
        r.display_name.is_some() ==> non_empty_spec(crate::profile::store::opt_str(display_name))
            == Some(r.display_name.unwrap()@),
        r.email.is_some() ==> non_empty_spec(crate::profile::store::opt_str(email)) == Some(
            r.email.unwrap()@,
        ),
{
    AccountIdentity { display_name: non_empty(display_name), email: non_empty(email) }
}

// ---------------------------------------------------------------------------
// The client id and the local side
// ---------------------------------------------------------------------------

/// The `application_id` a configuration line sets, if it sets a non-blank one.
pub open spec fn line_application_id(line: Seq<char>) -> Option<Seq<char>> {
    let t = trim(line);
    match index_of(t, '=') {
        Some(i) => if trim(t.take(i)) == "application_id"@ && unquote_spec(t.skip(i + 1)).len() > 0 {
            Some(unquote_spec(t.skip(i + 1)))
        } else {
            None
        },
        None => None,
    }
}

/// The first line that sets a non-blank `application_id`.
pub open spec fn first_application_id(ls: Seq<Seq<char>>) -> Option<Seq<char>>
    decreases ls.len(),
{
    if ls.len() == 0 {
        None
    } else {
        match line_application_id(ls[0]) {
            Some(v) => Some(v),
            None => first_application_id(ls.drop_first()),
        }
    }
}

fn line_application_id_of(line: &Vec<char>) -> (r: Option<String>)
    ensures
        match r {
            Some(v) => line_application_id(line@) == Some(v@),
            None => line_application_id(line@) is None,
        },
{
    let t = trim_chars(line, CharClass::Whitespace);
    match index_of_char(&t, '=') {
        Some(i) => {
            let key = trim_chars(&sub_chars(&t, 0, i), CharClass::Whitespace);
            let value = unquote_chars(&sub_chars(&t, i + 1, t.len()));
            assert(t@.take(i as int) == t@.subrange(0, i as int));
            assert(t@.skip(i + 1) == t@.subrange(i + 1, t@.len() as int));
            if chars_eq(&key, &chars_of("application_id")) && value.len() > 0 {
                Some(string_of(value.as_slice()))
            } else {
                None
            }
        },
        None => None,
    }
}

/// The Graph client id a profile's configuration sets with `application_id`, if any.
pub fn application_id(config: &str) -> (r: Option<String>)
    ensures
        match r {
            Some(v) => first_application_id(lines(config@)) == Some(v@),
            None => first_application_id(lines(config@)) is None,
        },
{
    let ls = lines_of(&chars_of(config));
    let ghost all = lines(config@);
    let mut i: usize = 0;
    assert(all.skip(0) =~= all);
    while i < ls.len()
        invariant
            i <= ls@.len(),
            ls@.len() == all.len(),
            all == lines(config@),
            forall|k: int| 0 <= k < ls@.len() ==> #[trigger] ls@[k]@ == all[k],
            first_application_id(all) == first_application_id(all.skip(i as int)),
        decreases ls.len() - i,
    {
        let found = line_application_id_of(&ls[i]);
        proof {
            let rest = all.skip(i as int);
            assert(rest[0] == all[i as int]);
            assert(rest.drop_first() =~= all.skip(i + 1));
        }
        match found {
            Some(v) => {
                proof {
                    let rest = all.skip(i as int);
                    assert(rest.len() > 0);
                    assert(rest[0] == all[i as int]);
                    assert(rest[0] == ls@[i as int]@);
                    assert(line_application_id(rest[0]) == Some(v@));
                    assert(first_application_id(rest) == Some(v@));
                }
                return Some(v);
            },
            None => {},
        }
        i += 1;
    }
    None
}

/// The client id OneSync signs in with when the configuration sets none.
pub open spec fn default_application_id() -> Seq<char> {
    "d50ca740-c83f-4d1b-b616-12c519384f0c"@
}

/// The client id to refresh tokens with: the configured one, else the default.
pub fn graph_client_id(config: Option<&str>) -> (r: String)
    ensures
        match config {
            Some(c) => match first_application_id(lines(c@)) {
                Some(v) => r@ == v,
                None => r@ == default_application_id(),
            },
            None => r@ == default_application_id(),
        },
{
    let configured = match config {
        Some(c) => application_id(c),
        None => None,
    };
    match configured {
        Some(v) => v,
        None => lit("d50ca740-c83f-4d1b-b616-12c519384f0c"),
    }
}

/// Where a sync-relative path lives on disk: under the expanded sync directory, with
/// leading `./` dropped.
pub open spec fn local_path_spec(home: Seq<char>, sync_dir: Seq<char>, path: Seq<char>) -> Seq<char> {
    join_spec(expand_home_spec(home, sync_dir), strip_prefix_all(path, seq!['.', '/']))
}

pub fn local_path(home: &str, sync_dir: &str, path: &str) -> (r: String)
    ensures
        r@ == local_path_spec(home@, sync_dir@, path@),
{
    let root = expand_home(home, sync_dir);
    let v = chars_of(path);
    let start = strip_dot_slash(&v);
    let rest = string_of(sub_chars(&v, start, v.len()).as_slice());
    join_path(root.as_str(), rest.as_str())
}

// ---------------------------------------------------------------------------
// Drive URLs
// ---------------------------------------------------------------------------

pub open spec fn graph_root() -> Seq<char> {
    "https://graph.microsoft.com/v1.0"@
}

/// The URL of the drive item at a path; the drive root for an empty path.
pub open spec fn drive_item_url_spec(path: Seq<char>) -> Seq<char> {
    if path.len() == 0 {
        graph_root() + "/me/drive/root"@
    } else {
        graph_root() + "/me/drive/root:/"@ + graph_path_spec(path)
    }
}

pub fn drive_item_url(path: &str) -> (r: String)
    ensures
        r@ == drive_item_url_spec(path@),
{
    if path.is_empty() {
        proof {
            reveal_strlit("https://graph.microsoft.com/v1.0/me/drive/root");
            reveal_strlit("https://graph.microsoft.com/v1.0");
            reveal_strlit("/me/drive/root");
        }
        lit("https://graph.microsoft.com/v1.0/me/drive/root")
    } else {
        let p = graph_path(path);
        proof {
            reveal_strlit("https://graph.microsoft.com/v1.0/me/drive/root:/");
            reveal_strlit("https://graph.microsoft.com/v1.0");
            reveal_strlit("/me/drive/root:/");
        }
        concat("https://graph.microsoft.com/v1.0/me/drive/root:/", p.as_str())
    }
}

/// The URL that reads or replaces a file's content.
pub fn content_url(path: &str) -> (r: String)
    ensures
        r@ == graph_root() + "/me/drive/root:/"@ + graph_path_spec(path@) + ":/content"@,
{
    let p = graph_path(path);
    proof {
        reveal_strlit("https://graph.microsoft.com/v1.0/me/drive/root:/");
        reveal_strlit("https://graph.microsoft.com/v1.0");
        reveal_strlit("/me/drive/root:/");
    }
    concat3("https://graph.microsoft.com/v1.0/me/drive/root:/", p.as_str(), ":/content")
}

/// The URL that opens an upload session for a large file.
pub fn upload_session_url(path: &str) -> (r: String)
    ensures
        r@ == graph_root() + "/me/drive/root:/"@ + graph_path_spec(path@) + ":/createUploadSession"@,
{
    let p = graph_path(path);
    proof {
        reveal_strlit("https://graph.microsoft.com/v1.0/me/drive/root:/");
        reveal_strlit("https://graph.microsoft.com/v1.0");
        reveal_strlit("/me/drive/root:/");
    }
    concat3("https://graph.microsoft.com/v1.0/me/drive/root:/", p.as_str(), ":/createUploadSession")
}

/// The URL of a drive item by id.
pub fn item_url(item_id: &str) -> (r: String)
    ensures
        r@ == graph_root() + "/me/drive/items/"@ + item_id@,
{
    proof {
        reveal_strlit("https://graph.microsoft.com/v1.0/me/drive/items/");
        reveal_strlit("https://graph.microsoft.com/v1.0");
        reveal_strlit("/me/drive/items/");
    }
    concat("https://graph.microsoft.com/v1.0/me/drive/items/", item_id)
}

/// The URL that creates a folder: under a parent item, or in the drive root.
pub fn children_url(parent_id: Option<&str>) -> (r: String)
    ensures
        match parent_id {
            Some(p) => r@ == graph_root() + "/me/drive/items/"@ + p@ + "/children"@,
            None => r@ == graph_root() + "/me/drive/root/children"@,
        },
{
    match parent_id {
        Some(p) => {
            proof {
                reveal_strlit("https://graph.microsoft.com/v1.0/me/drive/items/");
                reveal_strlit("https://graph.microsoft.com/v1.0");
                reveal_strlit("/me/drive/items/");
            }
            concat3("https://graph.microsoft.com/v1.0/me/drive/items/", p, "/children")
        },
        None => {
            proof {
                reveal_strlit("https://graph.microsoft.com/v1.0/me/drive/root/children");
                reveal_strlit("https://graph.microsoft.com/v1.0");
                reveal_strlit("/me/drive/root/children");
            }
            lit("https://graph.microsoft.com/v1.0/me/drive/root/children")
        },
    }
}

// ---------------------------------------------------------------------------
// Uploads
// ---------------------------------------------------------------------------

/// Files up to 250 MiB go up in one request.
pub open spec fn simple_upload_limit() -> int {
    262144000
}

/// Larger files go up in pieces of 10 MiB.
pub open spec fn upload_chunk() -> int {
    10485760
}

pub fn uses_simple_upload(size: u64) -> (r: bool)
    ensures
        r == (size <= simple_upload_limit()),
{
    size <= 262144000
}

/// The end (exclusive) of the upload piece that starts at `offset`.
pub fn next_chunk_end(offset: u64, size: u64) -> (r: u64)
    requires
        offset < size,
    ensures
        r == (if offset + upload_chunk() < size {
            offset + upload_chunk()
        } else {
            size as int
        }),
        offset < r <= size,
{
    if size - offset > 10485760 {
        offset + 10485760
    } else {
        size
    }
}

/// The `Content-Range` header of the piece `offset..next` of a `size`-byte file.
pub fn content_range(offset: u64, next: u64, size: u64) -> (r: String)
    requires
        offset < next <= size,
    ensures
        r@ == "bytes "@ + crate::text::decimal(offset as nat) + "-"@ + crate::text::decimal(
            (next - 1) as nat,
        ) + "/"@ + crate::text::decimal(size as nat),
{
    let mut s = lit("bytes ");
    let a = crate::text::decimal_string(offset);
    push_str(&mut s, a.as_str());
    push_str(&mut s, "-");
    let b = crate::text::decimal_string(next - 1);
    push_str(&mut s, b.as_str());
    push_str(&mut s, "/");
    let c = crate::text::decimal_string(size);
    push_str(&mut s, c.as_str());
    s
}

// ---------------------------------------------------------------------------
// Remote folders
// ---------------------------------------------------------------------------

/// The non-empty pieces of a `/`-separated path.
pub open spec fn nonempty_segments(p: Seq<char>) -> Seq<Seq<char>> {
    split_char(p, '/').filter(|s: Seq<char>| s.len() > 0)
}

/// The folders an upload needs, outermost first: each prefix of the parent folder.
pub open spec fn parent_dirs_spec(path: Seq<char>) -> Seq<Seq<char>> {
    match sync_parent(path) {
        Some(p) => {
            let segs = nonempty_segments(p);
            Seq::new(segs.len(), |i: int| join_slash(segs.take(i + 1)))
        },
        None => Seq::empty(),
    }
}

/// The folders to look up, and create when missing, before a file is uploaded.
pub fn remote_parent_dirs(path: &str) -> (r: Vec<String>)
    ensures
        r@.len() == parent_dirs_spec(path@).len(),
        forall|i: int| 0 <= i < r@.len() ==> #[trigger] r@[i]@ == parent_dirs_spec(path@)[i],
{
    let parts = sync_path(path);
    let mut out: Vec<String> = Vec::new();
    match parts.parent {
        Some(parent) => {
            let pieces = split_char_of(&chars_of(parent), '/');
            let ghost all = split_char(parent@, '/');
            let ghost segs = nonempty_segments(parent@);
            let mut current = String::new();
            let mut k: usize = 0;
            let ghost mut taken: int = 0;
            assert(all.take(0).filter(|s: Seq<char>| s.len() > 0) =~= Seq::<Seq<char>>::empty());
            while k < pieces.len()
                invariant
                    k <= pieces@.len(),
                    pieces@.len() == all.len(),
                    forall|j: int| 0 <= j < pieces@.len() ==> #[trigger] pieces@[j]@ == all[j],
                    segs == all.filter(|s: Seq<char>| s.len() > 0),
                    taken == all.take(k as int).filter(|s: Seq<char>| s.len() > 0).len(),
                    out@.len() == taken,
                    current@ == join_slash(all.take(k as int).filter(|s: Seq<char>| s.len() > 0)),
                    forall|i: int|
                        0 <= i < out@.len() ==> #[trigger] out@[i]@ == join_slash(
                            all.take(k as int).filter(|s: Seq<char>| s.len() > 0).take(i + 1),
                        ),
                decreases pieces.len() - k,
            {
                let ghost f0 = all.take(k as int).filter(|s: Seq<char>| s.len() > 0);
                proof {
                    assert(all.take(k + 1).drop_last() =~= all.take(k as int));
                    assert(all.take(k + 1).last() == all[k as int]);
                    reveal_with_fuel(Seq::<Seq<char>>::filter, 1);
                }
                if pieces[k].len() > 0 {
                    let seg = string_of(pieces[k].as_slice());
                    let ghost before = current@;
                    if out.len() > 0 {
                        push_char(&mut current, '/');
                    }
                    push_str(&mut current, seg.as_str());
                    out.push(current.clone());
                    proof {
                        let f1 = f0.push(all[k as int]);
                        assert(all.take(k + 1).filter(|s: Seq<char>| s.len() > 0) == f1);
                        if f0.len() == 0 {
                            assert(before.len() == 0);
                            assert(current@ =~= join_slash(f1));
                        } else {
                            assert(f1.drop_last() =~= f0);
                            lemma_join_slash_nonempty(f0);
                            assert(current@ =~= join_slash(f1));
                        }
                        assert forall|i: int| 0 <= i < out@.len() implies #[trigger] out@[i]@
                            == join_slash(f1.take(i + 1)) by {
                            if i < out@.len() - 1 {
                                assert(f1.take(i + 1) =~= f0.take(i + 1));
                            } else {
                                assert(f1.take(i + 1) =~= f1);
                            }
                        }
                        taken = taken + 1;
                    }
                } else {
                    proof {
                        assert(all.take(k + 1).filter(|s: Seq<char>| s.len() > 0) == f0);
                    }
                }
                k += 1;
            }
            proof {
                assert(all.take(all.len() as int) =~= all);
            }
        },
        None => {},
    }
    out
}

/// A join of pieces that are not all empty-free is still non-empty once any piece is:
/// here, the join of non-empty pieces is non-empty.
proof fn lemma_join_slash_nonempty(pieces: Seq<Seq<char>>)
    requires
        pieces.len() > 0,
        forall|i: int| 0 <= i < pieces.len() ==> #[trigger] pieces[i].len() > 0,
    ensures
        join_slash(pieces).len() > 0,
    decreases pieces.len(),
{
    if pieces.len() > 1 {
        lemma_join_slash_nonempty(pieces.drop_last());
    }
}

} // verus!
