//! Interpretation of what the onedrive CLI prints: its version, the error a failed
//! run reports, whether it wants a fresh login, and whether it asks for confirmation.
use vstd::prelude::*;

use crate::event::{BackendError, BackendErrorView, ConfirmationKind, Version};
use crate::text::{
    chars_of, contains, contains_chars, find, first_occurrence, index_of, is_digit, is_digit_char,
    lines, lines_of, lower, lower_chars, occurs_at, parse_u64_chars, parses_u64, digits_value,
    string_of, sub_chars, trim, trim_chars, CharClass,
};

verus! {

// ---------------------------------------------------------------------------
// Version
// ---------------------------------------------------------------------------

/// The text after the first occurrence of `p` (`split_once(p).1`).
pub open spec fn after_first(s: Seq<char>, p: Seq<char>) -> Option<Seq<char>> {
    if contains(s, p) {
        let i = choose|i: int| first_occurrence(s, p, i);
        Some(s.skip(i + p.len()))
    } else {
        None
    }
}

proof fn lemma_first_occurrence_unique(s: Seq<char>, p: Seq<char>, i: int, j: int)
    requires
        first_occurrence(s, p, i),
        first_occurrence(s, p, j),
    ensures
        i == j,
{
}

pub open spec fn is_run_char(c: char) -> bool {
    is_digit(c) || c == '.'
}

/// Index of the first digit, or the length when there is none.
pub open spec fn first_digit(s: Seq<char>) -> int
    decreases s.len(),
{
    if s.len() == 0 {
        0
    } else if is_digit(s[0]) {
        0
    } else {
        1 + first_digit(s.drop_first())
    }
}

/// Start of the run of digits and dots that reaches back from `i`.
pub open spec fn run_start(s: Seq<char>, i: int) -> int
    decreases i,
{
    if 0 < i <= s.len() && is_run_char(s[i - 1]) {
        run_start(s, i - 1)
    } else {
        i
    }
}

/// End of the run of digits and dots that starts at `i`.
pub open spec fn run_end(s: Seq<char>, i: int) -> int
    decreases s.len() - i,
{
    if 0 <= i < s.len() && is_run_char(s[i]) {
        run_end(s, i + 1)
    } else {
        i
    }
}

/// The first maximal run of digits and dots that holds a digit.
pub open spec fn first_number_run(s: Seq<char>) -> Option<Seq<char>> {
    let d = first_digit(s);
    if d < s.len() {
        Some(s.subrange(run_start(s, d), run_end(s, d)))
    } else {
        None
    }
}

/// `str::split(c)`: the pieces between the occurrences of `c`.
pub open spec fn split_char(s: Seq<char>, c: char) -> Seq<Seq<char>>
    decreases s.len(),
{
    match index_of(s, c) {
        Some(i) => if 0 <= i < s.len() {
            seq![s.take(i)] + split_char(s.skip(i + 1), c)
        } else {
            seq![s]
        },
        None => seq![s],
    }
}

/// The `i`-th dot-separated piece, or `0` when there are fewer pieces.
pub open spec fn piece_or_zero(pieces: Seq<Seq<char>>, i: int) -> Seq<char> {
    if i < pieces.len() {
        pieces[i]
    } else {
        seq!['0']
    }
}

/// The version that follows the word `onedrive`: the first run of digits and dots
/// after it, read as `major[.minor[.patch]]` with missing parts `0`.
pub open spec fn parse_version_spec(output: Seq<char>) -> Option<Version> {
    match after_first(output, "onedrive"@) {
        None => None,
        Some(rest) => match first_number_run(rest) {
            None => None,
            Some(run) => {
                let pieces = split_char(run, '.');
                let ma = pieces[0];
                let mi = piece_or_zero(pieces, 1);
                let pa = piece_or_zero(pieces, 2);
                if parses_u64(ma) && parses_u64(mi) && parses_u64(pa) {
                    Some(
                        Version {
                            major: digits_value(ma) as u64,
                            minor: digits_value(mi) as u64,
                            patch: digits_value(pa) as u64,
                        },
                    )
                } else {
                    None
                }
            },
        },
    }
}

proof fn lemma_first_digit_is(s: Seq<char>, k: int)
    requires
        0 <= k <= s.len(),
        forall|j: int| 0 <= j < k ==> !is_digit(#[trigger] s[j]),
        k == s.len() || is_digit(s[k]),
    ensures
        first_digit(s) == k,
    decreases k,
{
    if k > 0 {
        let t = s.drop_first();
        assert forall|j: int| 0 <= j < k - 1 implies !is_digit(#[trigger] t[j]) by {
            assert(t[j] == s[j + 1]);
        }
        if k < s.len() {
            assert(t[k - 1] == s[k]);
        }
        lemma_first_digit_is(t, k - 1);
    }
}

proof fn lemma_run_start_is(s: Seq<char>, i: int, k: int)
    requires
        0 <= k <= i <= s.len(),
        forall|j: int| k <= j < i ==> is_run_char(#[trigger] s[j]),
        k == 0 || !is_run_char(s[k - 1]),
    ensures
        run_start(s, i) == k,
    decreases i,
{
    if i > k {
        lemma_run_start_is(s, i - 1, k);
    }
}

proof fn lemma_run_end_is(s: Seq<char>, i: int, k: int)
    requires
        0 <= i <= k <= s.len(),
        forall|j: int| i <= j < k ==> is_run_char(#[trigger] s[j]),
        k == s.len() || !is_run_char(s[k]),
    ensures
        run_end(s, i) == k,
    decreases k - i,
{
    if i < k {
        lemma_run_end_is(s, i + 1, k);
    }
}

fn is_run_char_exec(c: char) -> (r: bool)
    ensures
        r == is_run_char(c),
{
    is_digit_char(c) || c == '.'
}

/// The first run of digits and dots holding a digit, copied.
fn first_number_run_of(v: &Vec<char>) -> (r: Option<Vec<char>>)
    ensures
        match r {
            Some(x) => first_number_run(v@) == Some(x@),
            None => first_number_run(v@) == None::<Seq<char>>,
        },
{
    let mut d: usize = 0;
    while d < v.len() && !is_digit_char(v[d])
        invariant
            d <= v.len(),
            forall|j: int| 0 <= j < d ==> !is_digit(#[trigger] v@[j]),
        decreases v.len() - d,
    {
        d += 1;
    }
    proof {
        lemma_first_digit_is(v@, d as int);
    }
    if d == v.len() {
        return None;
    }
    let mut a = d;
    while a > 0 && is_run_char_exec(v[a - 1])
        invariant
            a <= d < v.len(),
            forall|j: int| a <= j < d ==> is_run_char(#[trigger] v@[j]),
        decreases a,
    {
        a -= 1;
    }
    let mut b = d;
    while b < v.len() && is_run_char_exec(v[b])
        invariant
            d <= b <= v.len(),
            forall|j: int| d <= j < b ==> is_run_char(#[trigger] v@[j]),
        decreases v.len() - b,
    {
        b += 1;
    }
    proof {
        lemma_run_start_is(v@, d as int, a as int);
        lemma_run_end_is(v@, d as int, b as int);
    }
    Some(sub_chars(v, a, b))
}

/// `str::split(c)`, as character vectors.
pub fn split_char_of(v: &Vec<char>, c: char) -> (r: Vec<Vec<char>>)
    ensures
        r@.len() == split_char(v@, c).len(),
        forall|k: int| 0 <= k < r@.len() ==> #[trigger] r@[k]@ == split_char(v@, c)[k],
{
    let mut out: Vec<Vec<char>> = Vec::new();
    let mut start: usize = 0;
    let mut cur: Vec<char> = Vec::new();
    let mut i: usize = 0;
    assert(v@.skip(0) == v@);
    while i < v.len()
        invariant
            start <= i <= v.len(),
            cur@ == v@.subrange(start as int, i as int),
            forall|j: int| start <= j < i ==> #[trigger] v@[j] != c,
            out@.len() + split_char(v@.skip(start as int), c).len() == split_char(v@, c).len(),
            forall|k: int| 0 <= k < out@.len() ==> #[trigger] out@[k]@ == split_char(v@, c)[k],
            forall|k: int|
                0 <= k < split_char(v@.skip(start as int), c).len() ==> split_char(v@, c)[out@.len()
                    + k] == #[trigger] split_char(v@.skip(start as int), c)[k],
        decreases v.len() - i,
    {
        if v[i] == c {
            let ghost rest = v@.skip(start as int);
            proof {
                let n = i - start;
                assert forall|j: int| 0 <= j < n implies #[trigger] rest[j] != c by {
                    assert(rest[j] == v@[start + j]);
                }
                assert(rest[n as int] == v@[i as int]);
                crate::text::lemma_index_of_is(rest, c, n as int);
                assert(rest.take(n as int) =~= cur@);
                assert(rest.skip(n + 1) =~= v@.skip(i + 1));
                assert(split_char(rest, c) == seq![cur@] + split_char(v@.skip(i + 1), c));
            }
            let ghost old_len = out@.len();
            out.push(cur);
            cur = Vec::new();
            start = i + 1;
            proof {
                assert forall|k: int|
                    0 <= k < split_char(v@.skip(start as int), c).len() implies split_char(
                    v@,
                    c,
                )[out@.len() + k] == #[trigger] split_char(v@.skip(start as int), c)[k] by {
                    assert(split_char(rest, c)[k + 1] == split_char(v@.skip(start as int), c)[k]);
                }
                assert(split_char(v@, c)[old_len + 0int] == split_char(rest, c)[0]);
            }
        } else {
            cur.push(v[i]);
            assert(v@.subrange(start as int, i + 1) == v@.subrange(start as int, i as int).push(
                v@[i as int],
            ));
        }
        i += 1;
    }
    let ghost rest = v@.skip(start as int);
    proof {
        let n = v.len() - start;
        assert forall|j: int| 0 <= j < n implies #[trigger] rest[j] != c by {
            assert(rest[j] == v@[start + j]);
        }
        crate::text::lemma_index_of_is(rest, c, n as int);
        assert(rest =~= cur@);
        assert(split_char(rest, c) == seq![cur@]);
        assert(split_char(v@, c)[out@.len() + 0int] == split_char(rest, c)[0]);
    }
    let ghost old_len = out@.len();
    out.push(cur);
    assert(out@[old_len as int]@ == split_char(v@, c)[old_len as int]);
    out
}

proof fn lemma_split_char_nonempty(s: Seq<char>, c: char)
    ensures
        split_char(s, c).len() >= 1,
{
    match index_of(s, c) {
        Some(i) => {
            if 0 <= i < s.len() {
                assert((seq![s.take(i)] + split_char(s.skip(i + 1), c)).len() >= 1);
            }
        },
        None => {},
    }
}

/// Reads the CLI version from `onedrive --version` output.
pub fn parse_version(output: &str) -> (r: Option<Version>)
    ensures
        r == parse_version_spec(output@),
{
    let v = chars_of(output);
    let word = chars_of("onedrive");
    let at = match find(&v, &word) {
        Some(i) => i,
        None => {
            return None;
        },
    };
    proof {
        assert(contains(v@, word@));
        let j = choose|j: int| first_occurrence(v@, word@, j);
        lemma_first_occurrence_unique(v@, word@, at as int, j);
    }
    assert(occurs_at(v@, word@, at as int));
    assert(at + word.len() <= v.len());
    let rest = sub_chars(&v, at + word.len(), v.len());
    assert(rest@ == v@.skip(at + word@.len()));
    let run = match first_number_run_of(&rest) {
        Some(x) => x,
        None => {
            return None;
        },
    };
    let pieces = split_char_of(&run, '.');
    proof {
        lemma_split_char_nonempty(run@, '.');
    }
    let zero = chars_of("0");
    proof {
        reveal_strlit("0");
        assert(zero@ =~= seq!['0']);
    }
    let major = match parse_u64_chars(&pieces[0]) {
        Some(n) => n,
        None => {
            return None;
        },
    };
    let minor = match parse_u64_chars(if pieces.len() > 1 { &pieces[1] } else { &zero }) {
        Some(n) => n,
        None => {
            return None;
        },
    };
    let patch = match parse_u64_chars(if pieces.len() > 2 { &pieces[2] } else { &zero }) {
        Some(n) => n,
        None => {
            return None;
        },
    };
    Some(Version { major, minor, patch })
}

// ---------------------------------------------------------------------------
// Login required
// ---------------------------------------------------------------------------

/// The CLI reports that its login is missing, expired or revoked.
pub open spec fn auth_required_spec(output: Seq<char>) -> bool {
    let l = lower(output);
    ||| contains(l, "login required"@)
    ||| contains(l, "authorise this application"@)
    ||| contains(l, "authorize this application"@)
    ||| contains(l, "re-authorise"@)
    ||| contains(l, "re-authorize"@)
    ||| contains(l, "fresh auth token"@)
    ||| contains(l, "provided grant has expired"@)
    ||| contains(l, "refresh_token is invalid"@)
    ||| contains(l, "refresh token is invalid"@)
    ||| contains(l, "reauthenticate"@)
    ||| contains(l, "reauth"@)
}

fn has(l: &Vec<char>, p: &str) -> (r: bool)
    ensures
        r == contains(l@, p@),
{
    contains_chars(l, &chars_of(p))
}

fn auth_required_lower(l: &Vec<char>) -> (r: bool)
    ensures
        r == (contains(l@, "login required"@) || contains(l@, "authorise this application"@)
            || contains(l@, "authorize this application"@) || contains(l@, "re-authorise"@)
            || contains(l@, "re-authorize"@) || contains(l@, "fresh auth token"@) || contains(
            l@,
            "provided grant has expired"@,
        ) || contains(l@, "refresh_token is invalid"@) || contains(
            l@,
            "refresh token is invalid"@,
        ) || contains(l@, "reauthenticate"@) || contains(l@, "reauth"@)),
{
    has(l, "login required") || has(l, "authorise this application") || has(
        l,
        "authorize this application",
    ) || has(l, "re-authorise") || has(l, "re-authorize") || has(l, "fresh auth token") || has(
        l,
        "provided grant has expired",
    ) || has(l, "refresh_token is invalid") || has(l, "refresh token is invalid") || has(
        l,
        "reauthenticate",
    ) || has(l, "reauth")
}

/// Whether the output says the account must log in again.
pub fn is_auth_required(output: &str) -> (r: bool)
    ensures
        r == auth_required_spec(output@),
{
    let l = lower_chars(&chars_of(output));
    auth_required_lower(&l)
}

// ---------------------------------------------------------------------------
// Errors
// ---------------------------------------------------------------------------

/// The last line with a non-blank text, trimmed; empty when there is none.
pub open spec fn last_nonblank(ls: Seq<Seq<char>>) -> Seq<char>
    decreases ls.len(),
{
    if ls.len() == 0 {
        seq![]
    } else if trim(ls.last()).len() > 0 {
        trim(ls.last())
    } else {
        last_nonblank(ls.drop_last())
    }
}

/// The error a failed run's output reports, checked in this order.
pub open spec fn classify_spec(output: Seq<char>) -> BackendErrorView {
    let l = lower(output);
    if auth_required_spec(output) {
        BackendErrorView::AuthExpired
    } else if contains(l, "could not resolve"@) || contains(l, "connection"@) || contains(
        l,
        "network"@,
    ) || contains(l, "timeout"@) {
        BackendErrorView::Network
    } else if contains(l, "unknown key"@) || contains(l, "unknown config"@) {
        BackendErrorView::UnsupportedConfig
    } else if contains(l, "failed"@) && (contains(l, "upload"@) || contains(l, "download"@)) {
        BackendErrorView::PartialTransfer
    } else if contains(l, "segmentation fault"@) || contains(l, "core dumped"@) {
        BackendErrorView::CliCrashed
    } else if contains(l, "auth"@) || contains(l, "unauthorized"@) {
        BackendErrorView::AuthFailed
    } else {
        BackendErrorView::CliOutput(last_nonblank(lines(output)))
    }
}

fn last_nonblank_of(v: &Vec<char>) -> (r: String)
    ensures
        r@ == last_nonblank(lines(v@)),
{
    let ls = lines_of(v);
    let ghost sl = lines(v@);
    let mut i = ls.len();
    assert(sl.take(sl.len() as int) == sl);
    while i > 0
        invariant
            i <= ls.len(),
            ls@.len() == sl.len(),
            sl == lines(v@),
            forall|k: int| 0 <= k < ls@.len() ==> #[trigger] ls@[k]@ == sl[k],
            last_nonblank(sl) == last_nonblank(sl.take(i as int)),
        decreases i,
    {
        let t = trim_chars(&ls[i - 1], CharClass::Whitespace);
        assert(sl.take(i as int).drop_last() =~= sl.take(i - 1));
        assert(sl.take(i as int).last() == ls@[i - 1]@);
        if t.len() > 0 {
            return string_of(&t);
        }
        i -= 1;
    }
    assert(sl.take(0) =~= Seq::<Seq<char>>::empty());
    String::new()
}

/// Classifies the output of a failed run as a structured error.
pub fn classify_onedrive_error(output: &str) -> (r: BackendError)
    ensures
        r@ == classify_spec(output@),
{
    let v = chars_of(output);
    let l = lower_chars(&v);
    if auth_required_lower(&l) {
        BackendError::AuthExpired
    } else if has(&l, "could not resolve") || has(&l, "connection") || has(&l, "network") || has(
        &l,
        "timeout",
    ) {
        BackendError::Network
    } else if has(&l, "unknown key") || has(&l, "unknown config") {
        BackendError::UnsupportedConfig
    } else if has(&l, "failed") && (has(&l, "upload") || has(&l, "download")) {
        BackendError::PartialTransfer
    } else if has(&l, "segmentation fault") || has(&l, "core dumped") {
        BackendError::CliCrashed
    } else if has(&l, "auth") || has(&l, "unauthorized") {
        BackendError::AuthFailed
    } else {
        BackendError::CliOutput(last_nonblank_of(&v))
    }
}

// ---------------------------------------------------------------------------
// Confirmation requests
// ---------------------------------------------------------------------------

/// A (lower-cased, trimmed) line asking for `--resync`.
pub open spec fn resync_line(t: Seq<char>) -> bool {
    contains(t, "--resync"@) && (contains(t, "required"@) || contains(t, "must be used"@)
        || contains(t, "use --resync"@) || contains(t, "wish to proceed"@) || contains(
        t,
        "asked the client to perform"@,
    ))
}

/// A line reporting a big delete that needs `--force`.
pub open spec fn big_delete_line(t: Seq<char>) -> bool {
    ||| contains(t, "big delete detected"@)
    ||| (contains(t, "big delete"@) && contains(t, "detected"@) && (contains(t, "--force"@)
        || contains(t, "force"@)))
    ||| contains(t, "attempt to remove a large volume of data from onedrive"@)
    ||| (contains(t, "to delete a large volume of data"@) && contains(t, "--force"@) && contains(
        t,
        "classify_as_big_delete"@,
    ))
}

/// A line warning that download-only cleanup may remove local data.
pub open spec fn download_only_cleanup_line(t: Seq<char>) -> bool {
    ||| (contains(t, "download-only"@) && (contains(t, "cleanup"@) || contains(t, "clean up"@)) && (
    contains(t, "warning"@) || contains(t, "risk"@) || contains(t, "cannot"@)))
    ||| (contains(t, "download-only"@) && contains(t, "remove local data"@) && (contains(
        t,
        "cleanup"@,
    ) || contains(t, "clean up"@)))
}

/// A line rejecting upload-only together with no-remote-delete.
pub open spec fn upload_only_no_remote_delete_line(t: Seq<char>) -> bool {
    contains(t, "upload-only"@) && contains(t, "no-remote-delete"@) && (contains(t, "cannot"@)
        || contains(t, "invalid"@) || contains(t, "not permitted"@) || contains(
        t,
        "incompatible"@,
    ))
}

/// Some line of `s`, lower-cased and trimmed, satisfies the test of kind `k`.
pub open spec fn some_line(s: Seq<char>, k: ConfirmationKind) -> bool {
    let ls = lines(lower(s));
    exists|i: int|
        0 <= i < ls.len() && #[trigger] line_matches(k, trim(ls[i]))
}

pub open spec fn line_matches(k: ConfirmationKind, t: Seq<char>) -> bool {
    match k {
        ConfirmationKind::ResyncRequired => resync_line(t),
        ConfirmationKind::BigDelete => big_delete_line(t),
        ConfirmationKind::DownloadOnlyCleanup => download_only_cleanup_line(t),
        ConfirmationKind::UploadOnlyNoRemoteDelete => upload_only_no_remote_delete_line(t),
    }
}

/// The confirmation the output asks for, checked in this order.
pub open spec fn parse_confirmation_spec(output: Seq<char>) -> Option<ConfirmationKind> {
    if some_line(output, ConfirmationKind::ResyncRequired) {
        Some(ConfirmationKind::ResyncRequired)
    } else if some_line(output, ConfirmationKind::BigDelete) {
        Some(ConfirmationKind::BigDelete)
    } else if some_line(output, ConfirmationKind::DownloadOnlyCleanup) {
        Some(ConfirmationKind::DownloadOnlyCleanup)
    } else if some_line(output, ConfirmationKind::UploadOnlyNoRemoteDelete) {
        Some(ConfirmationKind::UploadOnlyNoRemoteDelete)
    } else {
        None
    }
}

fn line_matches_exec(k: ConfirmationKind, t: &Vec<char>) -> (r: bool)
    ensures
        r == line_matches(k, t@),
{
    match k {
        ConfirmationKind::ResyncRequired => has(t, "--resync") && (has(t, "required") || has(
            t,
            "must be used",
        ) || has(t, "use --resync") || has(t, "wish to proceed") || has(
            t,
            "asked the client to perform",
        )),
        ConfirmationKind::BigDelete => has(t, "big delete detected") || (has(t, "big delete")
            && has(t, "detected") && (has(t, "--force") || has(t, "force"))) || has(
            t,
            "attempt to remove a large volume of data from onedrive",
        ) || (has(t, "to delete a large volume of data") && has(t, "--force") && has(
            t,
            "classify_as_big_delete",
        )),
        ConfirmationKind::DownloadOnlyCleanup => (has(t, "download-only") && (has(t, "cleanup")
            || has(t, "clean up")) && (has(t, "warning") || has(t, "risk") || has(t, "cannot")))
            || (has(t, "download-only") && has(t, "remove local data") && (has(t, "cleanup") || has(
            t,
            "clean up",
        ))),
        ConfirmationKind::UploadOnlyNoRemoteDelete => has(t, "upload-only") && has(
            t,
            "no-remote-delete",
        ) && (has(t, "cannot") || has(t, "invalid") || has(t, "not permitted") || has(
            t,
            "incompatible",
        )),
    }
}

fn some_line_exec(ls: &Vec<Vec<char>>, k: ConfirmationKind, Ghost(s): Ghost<Seq<char>>) -> (r: bool)
    requires
        ls@.len() == lines(lower(s)).len(),
        forall|i: int| 0 <= i < ls@.len() ==> #[trigger] ls@[i]@ == lines(lower(s))[i],
    ensures
        r == some_line(s, k),
{
    let mut i: usize = 0;
    while i < ls.len()
        invariant
            i <= ls@.len(),
            ls@.len() == lines(lower(s)).len(),
            forall|j: int| 0 <= j < ls@.len() ==> #[trigger] ls@[j]@ == lines(lower(s))[j],
            forall|j: int| 0 <= j < i ==> !#[trigger] line_matches(k, trim(lines(lower(s))[j])),
        decreases ls.len() - i,
    {
        let t = trim_chars(&ls[i], CharClass::Whitespace);
        if line_matches_exec(k, &t) {
            assert(line_matches(k, trim(lines(lower(s))[i as int])));
            return true;
        }
        i += 1;
    }
    false
}

/// The confirmation that the output asks the user for, if any.
pub fn parse_confirmation(output: &str) -> (r: Option<ConfirmationKind>)
    ensures
        r == parse_confirmation_spec(output@),
{
    let l = lower_chars(&chars_of(output));
    let ls = lines_of(&l);
    let ghost s = output@;
    if some_line_exec(&ls, ConfirmationKind::ResyncRequired, Ghost(s)) {
        Some(ConfirmationKind::ResyncRequired)
    } else if some_line_exec(&ls, ConfirmationKind::BigDelete, Ghost(s)) {
        Some(ConfirmationKind::BigDelete)
    } else if some_line_exec(&ls, ConfirmationKind::DownloadOnlyCleanup, Ghost(s)) {
        Some(ConfirmationKind::DownloadOnlyCleanup)
    } else if some_line_exec(&ls, ConfirmationKind::UploadOnlyNoRemoteDelete, Ghost(s)) {
        Some(ConfirmationKind::UploadOnlyNoRemoteDelete)
    } else {
        None
    }
}

// ---------------------------------------------------------------------------
// Raw output
// ---------------------------------------------------------------------------

/// What `String::from_utf8_lossy` decodes from a byte buffer.
pub uninterp spec fn utf8_lossy(bytes: Seq<u8>) -> Seq<char>;

/// `String::from_utf8_lossy(bytes).to_string()`: valid UTF-8 decodes exactly; other
/// bytes become U+FFFD.
#[verifier::external_body]
pub(crate) fn decode_lossy(bytes: &[u8]) -> (r: String)
    ensures
        r@ == utf8_lossy(bytes@),
        vstd::utf8::valid_utf8(bytes@) ==> r@ == vstd::utf8::decode_utf8(bytes@),
{
    String::from_utf8_lossy(bytes).to_string()
}

/// Standard output followed by standard error, each decoded leniently.
pub fn combined_output(stdout: &[u8], stderr: &[u8]) -> (r: String)
    ensures
        r@ == utf8_lossy(stdout@) + utf8_lossy(stderr@),
{
    let mut combined = decode_lossy(stdout);
    let err = decode_lossy(stderr);
    crate::text::push_str(&mut combined, err.as_str());
    combined
}

} // verus!
