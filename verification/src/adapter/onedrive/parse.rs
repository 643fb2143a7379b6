//! Transfer lines of the onedrive CLI output: which file, what happens to it, and
//! whether it finished, failed or how far it got; and the same lines of a dry run
//! read as previewed changes.
use vstd::prelude::*;

use crate::event::{ChangeDirection, ChangeKind, FileChange, PreviewAction, PreviewChange, PreviewIntent, PreviewState};
use crate::text::{chars_of, contains, contains_chars, digit_value, ends_with, ends_with_chars, find, first_occurrence, index_of, index_of_char, is_digit, is_ws, is_ws_char, lead_len, occurs_at, push_str, starts_with, string_of, sub_chars, trim, trim_bounds, trim_chars, CharClass};

verus! {

// ---------------------------------------------------------------------------
// Prefixes that start a transfer line
// ---------------------------------------------------------------------------

/// A line prefix that announces a file change.
#[derive(Clone, Copy)]
pub struct ChangePattern {
    pub prefix: &'static str,
    pub kind: ChangeKind,
    pub direction: ChangeDirection,
    /// Deletions print no `done`; their line alone means they happened.
    pub complete_without_done: bool,
}

pub struct PatternView {
    pub prefix: Seq<char>,
    pub kind: ChangeKind,
    pub direction: ChangeDirection,
    pub complete_without_done: bool,
}

pub open spec fn pattern_view(p: ChangePattern) -> PatternView {
    PatternView {
        prefix: p.prefix@,
        kind: p.kind,
        direction: p.direction,
        complete_without_done: p.complete_without_done,
    }
}

pub open spec fn pat(
    prefix: Seq<char>,
    kind: ChangeKind,
    direction: ChangeDirection,
    complete_without_done: bool,
) -> PatternView {
    PatternView { prefix, kind, direction, complete_without_done }
}

/// How many prefixes are recognized.
pub open spec fn pattern_count() -> int {
    19
}

/// The recognized prefixes, in the order they are tried.
pub open spec fn pattern_spec(i: int) -> PatternView {
    if i == 0 {
        pat("Downloading file:"@, ChangeKind::Download, ChangeDirection::RemoteToLocal, false)
    } else if i == 1 {
        pat("Downloading file"@, ChangeKind::Download, ChangeDirection::RemoteToLocal, false)
    } else if i == 2 {
        pat("Downloading:"@, ChangeKind::Download, ChangeDirection::RemoteToLocal, false)
    } else if i == 3 {
        pat("Uploading:"@, ChangeKind::UploadNew, ChangeDirection::LocalToRemote, false)
    } else if i == 4 {
        pat("Uploading modified file:"@, ChangeKind::UploadModified, ChangeDirection::LocalToRemote, false)
    } else if i == 5 {
        pat("Uploading modified file"@, ChangeKind::UploadModified, ChangeDirection::LocalToRemote, false)
    } else if i == 6 {
        pat("Uploading new file:"@, ChangeKind::UploadNew, ChangeDirection::LocalToRemote, false)
    } else if i == 7 {
        pat("Uploading new file"@, ChangeKind::UploadNew, ChangeDirection::LocalToRemote, false)
    } else if i == 8 {
        pat("Uploading file:"@, ChangeKind::UploadNew, ChangeDirection::LocalToRemote, false)
    } else if i == 9 {
        pat("Uploading file"@, ChangeKind::UploadNew, ChangeDirection::LocalToRemote, false)
    } else if i == 10 {
        pat("Deleting item from Microsoft OneDrive:"@, ChangeKind::DeleteRemote, ChangeDirection::LocalToRemote, true)
    } else if i == 11 {
        pat("Deleting local file:"@, ChangeKind::DeleteLocal, ChangeDirection::RemoteToLocal, true)
    } else if i == 12 {
        pat("Deleting remote file:"@, ChangeKind::DeleteRemote, ChangeDirection::LocalToRemote, true)
    } else if i == 13 {
        pat("Deleting file:"@, ChangeKind::DeleteRemote, ChangeDirection::LocalToRemote, true)
    } else if i == 14 {
        pat("Deleting local item:"@, ChangeKind::DeleteLocal, ChangeDirection::RemoteToLocal, true)
    } else if i == 15 {
        pat("Deleting remote item:"@, ChangeKind::DeleteRemote, ChangeDirection::LocalToRemote, true)
    } else if i == 16 {
        pat("Deleting item:"@, ChangeKind::DeleteRemote, ChangeDirection::LocalToRemote, true)
    } else if i == 17 {
        pat("Moving file:"@, ChangeKind::Move, ChangeDirection::RemoteMetadata, false)
    } else {
        pat("Renaming file:"@, ChangeKind::Rename, ChangeDirection::RemoteMetadata, false)
    }
}

fn mk(prefix: &'static str, kind: ChangeKind, direction: ChangeDirection, complete_without_done: bool) -> (r: ChangePattern)
    ensures
        pattern_view(r) == pat(prefix@, kind, direction, complete_without_done),
{
    ChangePattern { prefix, kind, direction, complete_without_done }
}

/// The `i`-th recognized prefix.
pub fn change_pattern(i: usize) -> (r: ChangePattern)
    requires
        i < pattern_count(),
    ensures
        pattern_view(r) == pattern_spec(i as int),
{
    if i == 0 {
        mk("Downloading file:", ChangeKind::Download, ChangeDirection::RemoteToLocal, false)
    } else if i == 1 {
        mk("Downloading file", ChangeKind::Download, ChangeDirection::RemoteToLocal, false)
    } else if i == 2 {
        mk("Downloading:", ChangeKind::Download, ChangeDirection::RemoteToLocal, false)
    } else if i == 3 {
        mk("Uploading:", ChangeKind::UploadNew, ChangeDirection::LocalToRemote, false)
    } else if i == 4 {
        mk("Uploading modified file:", ChangeKind::UploadModified, ChangeDirection::LocalToRemote, false)
    } else if i == 5 {
        mk("Uploading modified file", ChangeKind::UploadModified, ChangeDirection::LocalToRemote, false)
    } else if i == 6 {
        mk("Uploading new file:", ChangeKind::UploadNew, ChangeDirection::LocalToRemote, false)
    } else if i == 7 {
        mk("Uploading new file", ChangeKind::UploadNew, ChangeDirection::LocalToRemote, false)
    } else if i == 8 {
        mk("Uploading file:", ChangeKind::UploadNew, ChangeDirection::LocalToRemote, false)
    } else if i == 9 {
        mk("Uploading file", ChangeKind::UploadNew, ChangeDirection::LocalToRemote, false)
    } else if i == 10 {
        mk("Deleting item from Microsoft OneDrive:", ChangeKind::DeleteRemote, ChangeDirection::LocalToRemote, true)
    } else if i == 11 {
        mk("Deleting local file:", ChangeKind::DeleteLocal, ChangeDirection::RemoteToLocal, true)
    } else if i == 12 {
        mk("Deleting remote file:", ChangeKind::DeleteRemote, ChangeDirection::LocalToRemote, true)
    } else if i == 13 {
        mk("Deleting file:", ChangeKind::DeleteRemote, ChangeDirection::LocalToRemote, true)
    } else if i == 14 {
        mk("Deleting local item:", ChangeKind::DeleteLocal, ChangeDirection::RemoteToLocal, true)
    } else if i == 15 {
        mk("Deleting remote item:", ChangeKind::DeleteRemote, ChangeDirection::LocalToRemote, true)
    } else if i == 16 {
        mk("Deleting item:", ChangeKind::DeleteRemote, ChangeDirection::LocalToRemote, true)
    } else if i == 17 {
        mk("Moving file:", ChangeKind::Move, ChangeDirection::RemoteMetadata, false)
    } else {
        mk("Renaming file:", ChangeKind::Rename, ChangeDirection::RemoteMetadata, false)
    }
}

/// The text after a prefix when the prefix stands alone as a word: what follows it
/// is nothing, a colon or whitespace. Leading colons and surrounding whitespace go.
pub open spec fn after_prefix(line: Seq<char>, prefix: Seq<char>) -> Option<Seq<char>> {
    if starts_with(line, prefix) {
        let rest = line.skip(prefix.len() as int);
        if rest.len() == 0 || rest[0] == ':' || is_ws(rest[0]) {
            Some(trim(rest.skip(lead_len(rest, CharClass::Exactly(':')) as int)))
        } else {
            None
        }
    } else {
        None
    }
}

fn after_prefix_exec(line: &Vec<char>, prefix: &str) -> (r: Option<Vec<char>>)
    ensures
        match r {
            Some(x) => after_prefix(line@, prefix@) == Some(x@),
            None => after_prefix(line@, prefix@) == None::<Seq<char>>,
        },
{
    let p = chars_of(prefix);
    if !crate::text::starts_with_chars(line, &p) {
        return None;
    }
    let rest = sub_chars(line, p.len(), line.len());
    assert(rest@ == line@.skip(p@.len() as int));
    if rest.len() == 0 || rest[0] == ':' || is_ws_char(rest[0]) {
        let (a, _b) = trim_bounds(&rest, CharClass::Exactly(':'));
        let tail = sub_chars(&rest, a, rest.len());
        assert(tail@ == rest@.skip(a as int));
        Some(trim_chars(&tail, CharClass::Whitespace))
    } else {
        None
    }
}

/// The first prefix, from the `i`-th on, that starts the line, with the text after it.
pub open spec fn first_pattern_from(line: Seq<char>, i: int) -> Option<(int, Seq<char>)>
    decreases pattern_count() - i,
{
    if i < 0 || i >= pattern_count() {
        None
    } else {
        match after_prefix(line, pattern_spec(i).prefix) {
            Some(rest) => Some((i, rest)),
            None => first_pattern_from(line, i + 1),
        }
    }
}

// ---------------------------------------------------------------------------
// Progress
// ---------------------------------------------------------------------------

pub open spec fn is_number_char(c: char) -> bool {
    is_digit(c) || c == '.'
}

/// Index of the last character outside digits and dots.
pub open spec fn last_non_number(s: Seq<char>) -> Option<int>
    decreases s.len(),
{
    if s.len() == 0 {
        None
    } else if !is_number_char(s.last()) {
        Some(s.len() - 1)
    } else {
        last_non_number(s.drop_last())
    }
}

pub open spec fn dot_count(s: Seq<char>) -> nat
    decreases s.len(),
{
    if s.len() == 0 {
        0
    } else {
        dot_count(s.drop_last()) + if s.last() == '.' {
            1nat
        } else {
            0nat
        }
    }
}

/// A run of digits and dots that reads as a decimal number: one dot at most and at
/// least one digit.
pub open spec fn valid_decimal(t: Seq<char>) -> bool {
    &&& forall|i: int| 0 <= i < t.len() ==> is_number_char(#[trigger] t[i])
    &&& dot_count(t) <= 1
    &&& exists|i: int| 0 <= i < t.len() && is_digit(#[trigger] t[i])
}

/// The number written right before the first `%` of the line: the digits and dots
/// that follow the last other character before it.
pub open spec fn percent_text_spec(line: Seq<char>) -> Option<Seq<char>> {
    match index_of(line, '%') {
        None => None,
        Some(pi) => {
            let before = line.take(pi);
            match last_non_number(before) {
                None => None,
                Some(k) => {
                    let t = before.skip(k + 1);
                    if valid_decimal(t) {
                        Some(t)
                    } else {
                        None
                    }
                },
            }
        },
    }
}

/// The digits before the decimal point.
pub open spec fn integer_part(t: Seq<char>) -> Seq<char> {
    match index_of(t, '.') {
        Some(i) => t.take(i),
        None => t,
    }
}

/// A decimal percentage of at least one hundred: the transfer is complete.
pub open spec fn percent_complete(t: Seq<char>) -> bool {
    valid_decimal(t) && crate::text::digits_value(integer_part(t)) >= 100
}

proof fn lemma_last_non_number_is(s: Seq<char>, k: int)
    requires
        -1 <= k < s.len(),
        forall|j: int| k < j < s.len() ==> is_number_char(#[trigger] s[j]),
        k == -1 || !is_number_char(s[k]),
    ensures
        last_non_number(s) == (if k >= 0 { Some(k) } else { None::<int> }),
    decreases s.len(),
{
    if s.len() > 0 && k < s.len() - 1 {
        let t = s.drop_last();
        assert forall|j: int| k < j < t.len() implies is_number_char(#[trigger] t[j]) by {
            assert(t[j] == s[j]);
        }
        if k >= 0 {
            assert(t[k] == s[k]);
        }
        lemma_last_non_number_is(t, k);
    }
}

pub(crate) fn valid_decimal_exec(t: &Vec<char>) -> (r: bool)
    ensures
        r == valid_decimal(t@),
{
    let mut dots: usize = 0;
    let mut digit = false;
    let mut i: usize = 0;
    while i < t.len()
        invariant
            i <= t.len(),
            forall|j: int| 0 <= j < i ==> is_number_char(#[trigger] t@[j]),
            dots == dot_count(t@.take(i as int)),
            dots <= 1,
            digit == (exists|j: int| 0 <= j < i && is_digit(#[trigger] t@[j])),
        decreases t.len() - i,
    {
        let c = t[i];
        assert(t@.take(i + 1).drop_last() =~= t@.take(i as int));
        if c == '.' {
            if dots == 1 {
                proof {
                    crate::adapter::onedrive::parse::lemma_dot_count_prefix(t@, i + 1);
                }
                return false;
            }
            dots += 1;
        } else if '0' <= c && c <= '9' {
            digit = true;
        } else {
            return false;
        }
        i += 1;
    }
    assert(t@.take(t@.len() as int) == t@);
    dots <= 1 && digit
}

proof fn lemma_dot_count_prefix(s: Seq<char>, k: int)
    requires
        0 <= k <= s.len(),
    ensures
        dot_count(s.take(k)) <= dot_count(s),
    decreases s.len() - k,
{
    if k < s.len() {
        lemma_dot_count_prefix(s, k + 1);
        assert(s.take(k + 1).drop_last() =~= s.take(k));
    } else {
        assert(s.take(k) == s);
    }
}

fn percent_text_of(line: &Vec<char>) -> (r: Option<Vec<char>>)
    ensures
        match r {
            Some(x) => percent_text_spec(line@) == Some(x@),
            None => percent_text_spec(line@) == None::<Seq<char>>,
        },
{
    let pi = match index_of_char(line, '%') {
        Some(i) => i,
        None => {
            return None;
        },
    };
    let before = sub_chars(line, 0, pi);
    assert(before@ == line@.take(pi as int));
    let mut k = pi;
    while k > 0 && (crate::text::is_digit_char(before[k - 1]) || before[k - 1] == '.')
        invariant
            k <= pi,
            before@.len() == pi,
            forall|j: int| k <= j < pi ==> is_number_char(#[trigger] before@[j]),
        decreases k,
    {
        k -= 1;
    }
    proof {
        lemma_last_non_number_is(before@, k - 1);
    }
    if k == 0 {
        return None;
    }
    let t = sub_chars(&before, k, pi);
    assert(t@ == before@.skip(k as int));
    if valid_decimal_exec(&t) {
        Some(t)
    } else {
        None
    }
}

/// The whole percent of a decimal, capped at one hundred.
pub open spec fn capped_whole(t: Seq<char>) -> nat {
    let w = crate::text::digits_value(integer_part(t));
    if w >= 100 {
        100
    } else {
        w
    }
}

/// The digit right after the decimal point, or zero when there is none.
pub open spec fn first_fraction_digit(t: Seq<char>) -> nat {
    match index_of(t, '.') {
        Some(i) => if i + 1 < t.len() && is_digit(t[i + 1]) {
            digit_value(t[i + 1])
        } else {
            0
        },
        None => 0,
    }
}

/// The whole percent (capped at one hundred) and the first digit after the point.
pub(crate) fn percent_parts(t: &Vec<char>) -> (r: (u64, u64))
    requires
        valid_decimal(t@),
    ensures
        r.0 == capped_whole(t@),
        r.1 == first_fraction_digit(t@),
        r.0 <= 100,
        r.1 < 10,
{
    let mut k: usize = 0;
    while k < t.len() && t[k] != '.'
        invariant
            k <= t.len(),
            forall|j: int| 0 <= j < k ==> #[trigger] t@[j] != '.',
        decreases t.len() - k,
    {
        k += 1;
    }
    proof {
        crate::text::lemma_index_of_is(t@, '.', k as int);
    }
    let int_part = sub_chars(t, 0, k);
    assert(int_part@ == integer_part(t@)) by {
        if k == t.len() {
            assert(t@.subrange(0, k as int) == t@);
        } else {
            assert(t@.subrange(0, k as int) == t@.take(k as int));
        }
    };
    assert forall|j: int| 0 <= j < int_part@.len() implies is_digit(#[trigger] int_part@[j]) by {
        assert(int_part@[j] == t@[j]);
        assert(is_number_char(t@[j]));
    }
    let mut acc: u64 = 0;
    let mut i: usize = 0;
    while i < int_part.len()
        invariant
            i <= int_part.len(),
            forall|j: int| 0 <= j < int_part@.len() ==> is_digit(#[trigger] int_part@[j]),
            acc <= 100,
            acc == (if crate::text::digits_value(int_part@.take(i as int)) >= 100 {
                100
            } else {
                crate::text::digits_value(int_part@.take(i as int))
            }),
        decreases int_part.len() - i,
    {
        let c = int_part[i];
        assert(is_digit(int_part@[i as int]));
        let d: u64 = ((c as u32) - 48) as u64;
        let next = acc * 10 + d;
        proof {
            let p = int_part@.take(i + 1);
            assert(p.drop_last() =~= int_part@.take(i as int));
            assert(p.last() == c);
            let dv = crate::text::digits_value(p);
            assert(dv == crate::text::digits_value(p.drop_last()) * 10 + digit_value(c));
            assert(d == digit_value(c));
        }
        acc = if next >= 100 {
            100
        } else {
            next
        };
        i += 1;
    }
    assert(int_part@.take(int_part@.len() as int) == int_part@);
    let frac: u64 = if k < t.len() && k + 1 < t.len() && crate::text::is_digit_char(t[k + 1]) {
        ((t[k + 1] as u32) - 48) as u64
    } else {
        0
    };
    (acc, frac)
}

fn percent_complete_exec(t: &Vec<char>) -> (r: bool)
    ensures
        r == percent_complete(t@),
{
    if !valid_decimal_exec(t) {
        return false;
    }
    let (whole, _) = percent_parts(t);
    whole >= 100
}

// ---------------------------------------------------------------------------
// Transfer lines
// ---------------------------------------------------------------------------

/// A transfer line, read.
pub struct FileChangeView {
    pub name: Seq<char>,
    pub kind: ChangeKind,
    pub direction: ChangeDirection,
    pub failed: bool,
    pub done: bool,
    pub percent: Option<Seq<char>>,
}

pub open spec fn file_change_view(f: FileChange) -> FileChangeView {
    FileChangeView {
        name: f.name@,
        kind: f.kind,
        direction: f.direction,
        failed: f.failed,
        done: f.done,
        percent: match f.percent {
            Some(p) => Some(p@),
            None => None,
        },
    }
}

/// The text before the first ` ... `, or all of it.
pub open spec fn before_ellipsis(s: Seq<char>) -> Seq<char> {
    if contains(s, " ... "@) {
        let i = choose|i: int| first_occurrence(s, " ... "@, i);
        trim(s.take(i))
    } else {
        s
    }
}

/// What a CLI output line says about a file transfer, if it is a transfer line:
/// `failed!` or ` ... failed` anywhere means it failed; otherwise a deletion, a trailing
/// `done`/`done.` or ` ... done` means it finished.
pub open spec fn parse_file_change_spec(line: Seq<char>) -> Option<FileChangeView> {
    let t = trim(line);
    match first_pattern_from(t, 0) {
        None => None,
        Some((i, path)) => {
            let p = pattern_spec(i);
            let failed = contains(path, "failed!"@) || contains(path, " ... failed"@);
            let done = !failed && (p.complete_without_done || ends_with(path, "done."@)
                || ends_with(path, "done"@) || contains(path, " ... done"@));
            Some(
                FileChangeView {
                    name: before_ellipsis(path),
                    kind: p.kind,
                    direction: p.direction,
                    failed,
                    done,
                    percent: percent_text_spec(t),
                },
            )
        },
    }
}

fn before_ellipsis_of(s: &Vec<char>) -> (r: Vec<char>)
    ensures
        r@ == before_ellipsis(s@),
{
    let sep = chars_of(" ... ");
    match find(s, &sep) {
        Some(i) => {
            proof {
                let j = choose|j: int| first_occurrence(s@, sep@, j);
                assert(j == i);
            }
            trim_chars(&sub_chars(s, 0, i), CharClass::Whitespace)
        },
        None => sub_chars(s, 0, s.len()),
    }
}

/// Reads one line of CLI output as a file transfer; other lines give `None`.
pub fn parse_file_change_line(line: &str) -> (r: Option<FileChange>)
    ensures
        match r {
            Some(f) => parse_file_change_spec(line@) == Some(file_change_view(f)),
            None => parse_file_change_spec(line@) == None::<FileChangeView>,
        },
{
    let t = trim_chars(&chars_of(line), CharClass::Whitespace);
    let mut i: usize = 0;
    while i < 19
        invariant
            i <= 19,
            t@ == trim(line@),
            first_pattern_from(t@, 0) == first_pattern_from(t@, i as int),
        decreases 19 - i,
    {
        let p = change_pattern(i);
        match after_prefix_exec(&t, p.prefix) {
            Some(path) => {
                let failed = contains_chars(&path, &chars_of("failed!")) || contains_chars(
                    &path,
                    &chars_of(" ... failed"),
                );
                let done = !failed && (p.complete_without_done || ends_with_chars(
                    &path,
                    &chars_of("done."),
                ) || ends_with_chars(&path, &chars_of("done")) || contains_chars(
                    &path,
                    &chars_of(" ... done"),
                ));
                let name = string_of(&before_ellipsis_of(&path));
                let percent = match percent_text_of(&t) {
                    Some(x) => Some(string_of(&x)),
                    None => None,
                };
                let r = FileChange { name, kind: p.kind, direction: p.direction, failed, done, percent };
                proof {
                    assert(first_pattern_from(t@, i as int) == Some((i as int, path@)));
                    let pv = pattern_spec(i as int);
                    assert(pv == pattern_view(p));
                    assert(file_change_view(r).percent == percent_text_spec(t@));
                    assert(file_change_view(r).name == before_ellipsis(path@));
                    assert(file_change_view(r).failed == (contains(path@, "failed!"@) || contains(path@, " ... failed"@)));
                    assert(t@ == trim(line@));
                    assert(file_change_view(r).done == (!file_change_view(r).failed && (pv.complete_without_done || ends_with(path@, "done."@)
                        || ends_with(path@, "done"@) || contains(path@, " ... done"@))));
                    let fv = FileChangeView {
                        name: before_ellipsis(path@),
                        kind: pv.kind,
                        direction: pv.direction,
                        failed: file_change_view(r).failed,
                        done: file_change_view(r).done,
                        percent: percent_text_spec(t@),
                    };
                    assert(fv == file_change_view(r));
                    assert(parse_file_change_spec(line@) == Some(fv));
                }
                return Some(r);
            },
            None => {},
        }
        i += 1;
    }
    None
}

/// The transfer reached its end: it said done, or printed at least 100 percent.
pub open spec fn is_complete_spec(f: FileChangeView) -> bool {
    f.done || match f.percent {
        Some(p) => percent_complete(p),
        None => false,
    }
}

impl FileChange {
    pub fn is_complete(&self) -> (r: bool)
        ensures
            r == is_complete_spec(file_change_view(*self)),
    {
        if self.done {
            return true;
        }
        match &self.percent {
            Some(p) => percent_complete_exec(&chars_of(p.as_str())),
            None => false,
        }
    }

    /// Whether the line reported the transfer finished: done, or at 100 percent.
    pub fn is_finished(&self) -> (r: bool)
        ensures
            r == (!self.failed && (self.done || match self.percent {
                Some(p) => percent_complete(p@),
                None => false,
            })),
    {
        if self.failed {
            return false;
        }
        if self.done {
            return true;
        }
        match &self.percent {
            Some(p) => percent_complete_exec(&chars_of(p.as_str())),
            None => false,
        }
    }
}

// ---------------------------------------------------------------------------
// Preview lines
// ---------------------------------------------------------------------------

/// How a change of this kind is applied.
pub open spec fn preview_apply_spec(kind: ChangeKind) -> PreviewAction {
    match kind {
        ChangeKind::Download => PreviewAction::DownloadRemoteToLocal,
        ChangeKind::UploadNew | ChangeKind::UploadModified => PreviewAction::UploadLocalToRemote,
        ChangeKind::DeleteLocal => PreviewAction::DeleteLocal,
        ChangeKind::DeleteRemote => PreviewAction::DeleteRemote,
        ChangeKind::Move => PreviewAction::MoveRemoteItem,
        ChangeKind::Rename => PreviewAction::RenameRemoteItem,
    }
}

pub fn preview_apply_for(kind: ChangeKind, direction: ChangeDirection) -> (r: PreviewAction)
    ensures
        r == preview_apply_spec(kind),
{
    match kind {
        ChangeKind::Download => PreviewAction::DownloadRemoteToLocal,
        ChangeKind::UploadNew | ChangeKind::UploadModified => PreviewAction::UploadLocalToRemote,
        ChangeKind::DeleteLocal => PreviewAction::DeleteLocal,
        ChangeKind::DeleteRemote => PreviewAction::DeleteRemote,
        ChangeKind::Move => PreviewAction::MoveRemoteItem,
        ChangeKind::Rename => PreviewAction::RenameRemoteItem,
    }
}

/// What the user did that a change follows from.
pub open spec fn preview_intent_spec(
    kind: ChangeKind,
    direction: ChangeDirection,
    apply: PreviewAction,
) -> PreviewIntent {
    match (kind, direction, apply) {
        (
            ChangeKind::Download,
            ChangeDirection::RemoteToLocal,
            PreviewAction::DownloadRemoteToLocal,
        ) => PreviewIntent::RemoteChangeToLocal,
        (
            ChangeKind::UploadNew,
            ChangeDirection::LocalToRemote,
            PreviewAction::UploadLocalToRemote,
        ) => PreviewIntent::LocalChangeToRemote,
        (
            ChangeKind::UploadModified,
            ChangeDirection::LocalToRemote,
            PreviewAction::UploadLocalToRemote,
        ) => PreviewIntent::LocalChangeToRemote,
        (ChangeKind::DeleteRemote, _, PreviewAction::DeleteRemote) => PreviewIntent::LocalDeleteToRemote,
        (ChangeKind::DeleteLocal, _, PreviewAction::DeleteLocal) => PreviewIntent::RemoteDeleteToLocal,
        (ChangeKind::Move, _, _) => PreviewIntent::RemoteMetadataChange,
        (ChangeKind::Rename, _, _) => PreviewIntent::RemoteMetadataChange,
        _ => PreviewIntent::RemoteChangeToLocal,
    }
}

pub fn preview_intent_for(kind: ChangeKind, direction: ChangeDirection, apply: PreviewAction) -> (r: PreviewIntent)
    ensures
        r == preview_intent_spec(kind, direction, apply),
{
    match (kind, direction, apply) {
        (
            ChangeKind::Download,
            ChangeDirection::RemoteToLocal,
            PreviewAction::DownloadRemoteToLocal,
        ) => PreviewIntent::RemoteChangeToLocal,
        (
            ChangeKind::UploadNew,
            ChangeDirection::LocalToRemote,
            PreviewAction::UploadLocalToRemote,
        ) => PreviewIntent::LocalChangeToRemote,
        (
            ChangeKind::UploadModified,
            ChangeDirection::LocalToRemote,
            PreviewAction::UploadLocalToRemote,
        ) => PreviewIntent::LocalChangeToRemote,
        (ChangeKind::DeleteRemote, _, PreviewAction::DeleteRemote) => PreviewIntent::LocalDeleteToRemote,
        (ChangeKind::DeleteLocal, _, PreviewAction::DeleteLocal) => PreviewIntent::RemoteDeleteToLocal,
        (ChangeKind::Move, _, _) => PreviewIntent::RemoteMetadataChange,
        (ChangeKind::Rename, _, _) => PreviewIntent::RemoteMetadataChange,
        _ => PreviewIntent::RemoteChangeToLocal,
    }
}

/// The id prefix of each kind of change.
pub open spec fn kind_id_prefix(kind: ChangeKind) -> Seq<char> {
    match kind {
        ChangeKind::Download => "download"@,
        ChangeKind::UploadNew => "upload-new"@,
        ChangeKind::UploadModified => "upload-modified"@,
        ChangeKind::DeleteLocal => "delete-local"@,
        ChangeKind::DeleteRemote => "delete-remote"@,
        ChangeKind::Move => "move"@,
        ChangeKind::Rename => "rename"@,
    }
}

/// `kind:path`, or `kind:source->path` for a move or rename.
pub open spec fn preview_id_spec(kind: ChangeKind, path: Seq<char>, source: Option<Seq<char>>) -> Seq<char> {
    match source {
        Some(s) => kind_id_prefix(kind) + ":"@ + s + "->"@ + path,
        None => kind_id_prefix(kind) + ":"@ + path,
    }
}

fn kind_id_prefix_str(kind: ChangeKind) -> (r: &'static str)
    ensures
        r@ == kind_id_prefix(kind),
{
    match kind {
        ChangeKind::Download => "download",
        ChangeKind::UploadNew => "upload-new",
        ChangeKind::UploadModified => "upload-modified",
        ChangeKind::DeleteLocal => "delete-local",
        ChangeKind::DeleteRemote => "delete-remote",
        ChangeKind::Move => "move",
        ChangeKind::Rename => "rename",
    }
}

pub fn preview_id(kind: ChangeKind, path: &str, source_path: Option<&str>) -> (r: String)
    ensures
        r@ == preview_id_spec(
            kind,
            path@,
            match source_path {
                Some(s) => Some(s@),
                None => None,
            },
        ),
{
    let mut id = crate::text::concat(kind_id_prefix_str(kind), ":");
    match source_path {
        Some(source) => {
            push_str(&mut id, source);
            push_str(&mut id, "->");
            push_str(&mut id, path);
        },
        None => {
            push_str(&mut id, path);
        },
    }
    id
}

/// A `source -> target` (or `source to target`) pair with both sides non-blank.
pub open spec fn split_pair(s: Seq<char>, sep: Seq<char>) -> Option<(Seq<char>, Seq<char>)> {
    if contains(s, sep) {
        let i = choose|i: int| first_occurrence(s, sep, i);
        Some((trim(s.take(i)), trim(s.skip(i + sep.len()))))
    } else {
        None
    }
}

pub open spec fn split_source_target_spec(s: Seq<char>) -> Option<(Seq<char>, Seq<char>)> {
    let p = match split_pair(s, " -> "@) {
        Some(x) => Some(x),
        None => split_pair(s, " to "@),
    };
    match p {
        Some((a, b)) => if a.len() > 0 && b.len() > 0 {
            Some((a, b))
        } else {
            None
        },
        None => None,
    }
}

fn split_pair_exec(s: &Vec<char>, sep: &str) -> (r: Option<(Vec<char>, Vec<char>)>)
    ensures
        match r {
            Some((a, b)) => split_pair(s@, sep@) == Some((a@, b@)),
            None => split_pair(s@, sep@) == None::<(Seq<char>, Seq<char>)>,
        },
{
    let p = chars_of(sep);
    match find(s, &p) {
        Some(i) => {
            proof {
                let j = choose|j: int| first_occurrence(s@, p@, j);
                assert(j == i);
                assert(occurs_at(s@, p@, i as int));
            }
            assert(i + p@.len() <= s@.len());
            assert(i + p.len() <= s.len());
            let a = trim_chars(&sub_chars(s, 0, i), CharClass::Whitespace);
            let rest = sub_chars(s, i + p.len(), s.len());
            assert(rest@ == s@.skip(i + p@.len()));
            let b = trim_chars(&rest, CharClass::Whitespace);
            Some((a, b))
        },
        None => None,
    }
}

fn split_source_target(s: &Vec<char>) -> (r: Option<(Vec<char>, Vec<char>)>)
    ensures
        match r {
            Some((a, b)) => split_source_target_spec(s@) == Some((a@, b@)),
            None => split_source_target_spec(s@) == None::<(Seq<char>, Seq<char>)>,
        },
{
    let p = match split_pair_exec(s, " -> ") {
        Some(x) => Some(x),
        None => split_pair_exec(s, " to "),
    };
    match p {
        Some((a, b)) => if a.len() > 0 && b.len() > 0 {
            Some((a, b))
        } else {
            None
        },
        None => None,
    }
}

/// A previewed change, read.
pub struct PreviewChangeView {
    pub id: Seq<char>,
    pub path: Seq<char>,
    pub source_path: Option<Seq<char>>,
    pub kind: ChangeKind,
    pub direction: ChangeDirection,
    pub apply: PreviewAction,
    pub intent: PreviewIntent,
    pub state: PreviewState,
}

pub open spec fn preview_change_view(c: PreviewChange) -> PreviewChangeView {
    PreviewChangeView {
        id: c.id@,
        path: c.path@,
        source_path: match c.source_path {
            Some(s) => Some(s@),
            None => None,
        },
        kind: c.kind,
        direction: c.direction,
        apply: c.apply,
        intent: c.intent,
        state: c.state,
    }
}

/// A dry-run transfer line read as a pending change: a move or rename names its
/// source and target, and the id combines the kind with the paths.
pub open spec fn parse_preview_change_spec(line: Seq<char>) -> Option<PreviewChangeView> {
    match parse_file_change_spec(line) {
        None => None,
        Some(f) => {
            let (source, path) = match split_source_target_spec(f.name) {
                Some((a, b)) => (Some(a), b),
                None => (None, f.name),
            };
            let apply = preview_apply_spec(f.kind);
            Some(
                PreviewChangeView {
                    id: preview_id_spec(f.kind, path, source),
                    path,
                    source_path: source,
                    kind: f.kind,
                    direction: f.direction,
                    apply,
                    intent: preview_intent_spec(f.kind, f.direction, apply),
                    state: PreviewState::Pending,
                },
            )
        },
    }
}

/// Reads one dry-run output line as a previewed change; other lines give `None`.
pub fn parse_preview_change_line(line: &str) -> (r: Option<PreviewChange>)
    ensures
        match r {
            Some(c) => parse_preview_change_spec(line@) == Some(preview_change_view(c)),
            None => parse_preview_change_spec(line@) == None::<PreviewChangeView>,
        },
{
    let file = match parse_file_change_line(line) {
        Some(f) => f,
        None => {
            return None;
        },
    };
    let name = chars_of(file.name.as_str());
    let (source_path, path) = match split_source_target(&name) {
        Some((a, b)) => (Some(string_of(&a)), string_of(&b)),
        None => (None, string_of(&name)),
    };
    let apply = preview_apply_for(file.kind, file.direction);
    let intent = preview_intent_for(file.kind, file.direction, apply);
    let id = match &source_path {
        Some(s) => preview_id(file.kind, path.as_str(), Some(s.as_str())),
        None => preview_id(file.kind, path.as_str(), None),
    };
    Some(
        PreviewChange {
            id,
            path,
            source_path,
            kind: file.kind,
            direction: file.direction,
            apply,
            intent,
            state: PreviewState::Pending,
        },
    )
}

// ---------------------------------------------------------------------------
// Laws
// ---------------------------------------------------------------------------

proof fn lemma_first_pattern_found(t: Seq<char>, j: int)
    requires
        first_pattern_from(t, j) is Some,
    ensures
        ({
            let (i, _) = first_pattern_from(t, j).unwrap();
            &&& 0 <= j <= i < pattern_count()
            &&& starts_with(t, pattern_spec(i).prefix)
        }),
    decreases pattern_count() - j,
{
    if after_prefix(t, pattern_spec(j).prefix) is None {
        lemma_first_pattern_found(t, j + 1);
    }
}

proof fn lemma_starts_char(s: Seq<char>, p: Seq<char>, k: int)
    requires
        starts_with(s, p),
        0 <= k < p.len(),
    ensures
        s[k] == p[k],
{
    assert(s.take(p.len() as int)[k] == s[k]);
}

proof fn lemma_starts_with_trans(t: Seq<char>, p: Seq<char>, q: Seq<char>)
    requires
        starts_with(t, p),
        starts_with(p, q),
    ensures
        starts_with(t, q),
{
    assert forall|k: int| 0 <= k < q.len() implies t.take(q.len() as int)[k] == q[k] by {
        lemma_starts_char(t, p, k);
        lemma_starts_char(p, q, k);
    }
    assert(t.take(q.len() as int) =~= q);
}

/// A transfer line that starts with `Downloading` is a download from OneDrive to this
/// computer; one that starts with `Uploading` is an upload (of a new or a modified
/// file) to OneDrive, and with `Uploading modified` an upload of a modified file; one
/// that starts with `Deleting local` deletes here because OneDrive deleted, and any
/// other deletion deletes on OneDrive because this computer deleted; one that starts
/// with `Moving` or `Renaming` changes OneDrive's names only.
pub proof fn law_transfer_direction_follows_the_verb(line: Seq<char>)
    ensures
        parse_file_change_spec(line) matches Some(f) ==> {
            let t = trim(line);
            &&& starts_with(t, "Downloading"@) ==> f.kind == ChangeKind::Download && f.direction
                == ChangeDirection::RemoteToLocal
            &&& starts_with(t, "Uploading"@) ==> (f.kind == ChangeKind::UploadNew || f.kind
                == ChangeKind::UploadModified) && f.direction == ChangeDirection::LocalToRemote
            &&& starts_with(t, "Uploading modified"@) ==> f.kind == ChangeKind::UploadModified
            &&& starts_with(t, "Deleting local"@) ==> f.kind == ChangeKind::DeleteLocal && f.direction
                == ChangeDirection::RemoteToLocal
            &&& starts_with(t, "Deleting"@) && !starts_with(t, "Deleting local"@) ==> f.kind
                == ChangeKind::DeleteRemote && f.direction == ChangeDirection::LocalToRemote
            &&& starts_with(t, "Moving"@) ==> f.kind == ChangeKind::Move && f.direction
                == ChangeDirection::RemoteMetadata
            &&& starts_with(t, "Renaming"@) ==> f.kind == ChangeKind::Rename && f.direction
                == ChangeDirection::RemoteMetadata
        },
{
    let t = trim(line);
    if first_pattern_from(t, 0) is Some {
        lemma_first_pattern_found(t, 0);
        let (i, _) = first_pattern_from(t, 0).unwrap();
        let p = pattern_spec(i).prefix;
        reveal_strlit("Downloading");
        reveal_strlit("Uploading");
        reveal_strlit("Deleting local");
        reveal_strlit("Moving");
        reveal_strlit("Renaming");
        reveal_strlit("Downloading file:");
        reveal_strlit("Downloading file");
        reveal_strlit("Downloading:");
        reveal_strlit("Uploading:");
        reveal_strlit("Uploading modified file:");
        reveal_strlit("Uploading modified file");
        reveal_strlit("Uploading new file:");
        reveal_strlit("Uploading new file");
        reveal_strlit("Uploading file:");
        reveal_strlit("Uploading file");
        reveal_strlit("Deleting item from Microsoft OneDrive:");
        reveal_strlit("Deleting local file:");
        reveal_strlit("Deleting remote file:");
        reveal_strlit("Deleting file:");
        reveal_strlit("Deleting local item:");
        reveal_strlit("Deleting remote item:");
        reveal_strlit("Deleting item:");
        reveal_strlit("Moving file:");
        reveal_strlit("Renaming file:");
        assert(p.len() > 9);
        lemma_starts_char(t, p, 0);
        lemma_starts_char(t, p, 1);
        lemma_starts_char(t, p, 9);
        if starts_with(t, "Downloading"@) {
            lemma_starts_char(t, "Downloading"@, 0);
            lemma_starts_char(t, "Downloading"@, 1);
        }
        if starts_with(t, "Uploading"@) {
            lemma_starts_char(t, "Uploading"@, 0);
        }
        if starts_with(t, "Deleting local"@) {
            lemma_starts_char(t, "Deleting local"@, 0);
            lemma_starts_char(t, "Deleting local"@, 1);
            lemma_starts_char(t, "Deleting local"@, 9);
        }
        reveal_strlit("Uploading modified");
        reveal_strlit("Deleting");
        if starts_with(t, "Uploading modified"@) {
            lemma_starts_char(t, "Uploading modified"@, 0);
            lemma_starts_char(t, "Uploading modified"@, 9);
            lemma_starts_char(t, "Uploading modified"@, 10);
            if p.len() > 10 {
                lemma_starts_char(t, p, 10);
            }
        }
        if starts_with(t, "Deleting"@) {
            lemma_starts_char(t, "Deleting"@, 0);
            lemma_starts_char(t, "Deleting"@, 1);
            if i == 11 || i == 14 {
                assert(p.take(14) =~= "Deleting local"@);
                lemma_starts_with_trans(t, p, "Deleting local"@);
            }
        }
        if starts_with(t, "Moving"@) {
            lemma_starts_char(t, "Moving"@, 0);
        }
        if starts_with(t, "Renaming"@) {
            lemma_starts_char(t, "Renaming"@, 0);
        }
    }
}

/// What applying a previewed change does agrees with its line: an upload (of a new or
/// a modified file) applies as an upload to OneDrive and is a local change going to
/// OneDrive; a download applies as a download and is a OneDrive change coming here;
/// a change that moves data from this computer to OneDrive applies by uploading or by
/// deleting on OneDrive, and one that moves data from OneDrive here by downloading or
/// by deleting here.
pub proof fn law_preview_applies_in_the_lines_direction(line: Seq<char>)
    ensures
        parse_preview_change_spec(line) matches Some(c) ==> {
            &&& (c.kind == ChangeKind::UploadNew || c.kind == ChangeKind::UploadModified) ==> c.apply
                == PreviewAction::UploadLocalToRemote && c.intent == PreviewIntent::LocalChangeToRemote
            &&& c.kind == ChangeKind::Download ==> c.apply == PreviewAction::DownloadRemoteToLocal
                && c.intent == PreviewIntent::RemoteChangeToLocal
            &&& c.direction == ChangeDirection::LocalToRemote <==> (c.apply
                == PreviewAction::UploadLocalToRemote || c.apply == PreviewAction::DeleteRemote)
            &&& c.direction == ChangeDirection::RemoteToLocal <==> (c.apply
                == PreviewAction::DownloadRemoteToLocal || c.apply == PreviewAction::DeleteLocal)
        },
{
    let t = trim(line);
    if first_pattern_from(t, 0) is Some {
        lemma_first_pattern_found(t, 0);
    }
}

} // verus!
