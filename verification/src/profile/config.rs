//! The onedrive CLI `config` file: parsed line by line so that comments, blank lines
//! and unknown settings survive an edit, with the nine settings OneSync edits exposed
//! as a `ConfigEdit`.
use vstd::prelude::*;

use crate::text::{
    chars_eq, chars_of, index_of, index_of_char, is_ws, is_ws_char, lemma_trim_by_idempotent,
    lines, lines_of, lower, lower_chars, push_char, push_str, str_eq, string_of, sub_chars, trim,
    trim_chars, CharClass,
};
use crate::utils::{unquote_chars, unquote_spec};

verus! {

// ---------------------------------------------------------------------------
// The edited settings
// ---------------------------------------------------------------------------

/// The settings a profile editor changes.
#[derive(Debug, Clone, PartialEq, Eq)]
pub struct ConfigEdit {
    pub sync_dir: String,
    pub skip_file: Vec<String>,
    pub skip_dir: Vec<String>,
    pub sync_list: String,
    pub download_only: bool,
    pub upload_only: bool,
    pub no_remote_delete: bool,
    pub monitor_interval: String,
    pub monitor_fullscan_frequency: String,
}

/// A `ConfigEdit` as mathematical text.
pub struct ConfigEditView {
    pub sync_dir: Seq<char>,
    pub skip_file: Seq<Seq<char>>,
    pub skip_dir: Seq<Seq<char>>,
    pub sync_list: Seq<char>,
    pub download_only: bool,
    pub upload_only: bool,
    pub no_remote_delete: bool,
    pub monitor_interval: Seq<char>,
    pub monitor_fullscan_frequency: Seq<char>,
}

/// The texts of a list of strings.
pub open spec fn strs(v: Seq<String>) -> Seq<Seq<char>> {
    v.map_values(|s: String| s@)
}

impl View for ConfigEdit {
    type V = ConfigEditView;

    open spec fn view(&self) -> ConfigEditView {
        ConfigEditView {
            sync_dir: self.sync_dir@,
            skip_file: strs(self.skip_file@),
            skip_dir: strs(self.skip_dir@),
            sync_list: self.sync_list@,
            download_only: self.download_only,
            upload_only: self.upload_only,
            no_remote_delete: self.no_remote_delete,
            monitor_interval: self.monitor_interval@,
            monitor_fullscan_frequency: self.monitor_fullscan_frequency@,
        }
    }
}

impl Default for ConfigEdit {
    fn default() -> (r: Self)
        ensures
            r@.sync_dir.len() == 0,
            r@.skip_file.len() == 0,
            r@.skip_dir.len() == 0,
            r@.sync_list.len() == 0,
            !r.download_only,
            !r.upload_only,
            !r.no_remote_delete,
            r@.monitor_interval.len() == 0,
            r@.monitor_fullscan_frequency.len() == 0,
    {
        ConfigEdit {
            sync_dir: String::new(),
            skip_file: Vec::new(),
            skip_dir: Vec::new(),
            sync_list: String::new(),
            download_only: false,
            upload_only: false,
            no_remote_delete: false,
            monitor_interval: String::new(),
            monitor_fullscan_frequency: String::new(),
        }
    }
}

/// A copy of a string.
pub fn copy_string(s: &String) -> (r: String)
    ensures
        r@ == s@,
{
    s.clone()
}

/// A copy of a list of strings.
pub fn copy_strings(v: &Vec<String>) -> (r: Vec<String>)
    ensures
        strs(r@) == strs(v@),
        r@.len() == v@.len(),
{
    let mut r: Vec<String> = Vec::new();
    let mut i: usize = 0;
    while i < v.len()
        invariant
            i <= v.len(),
            strs(r@) == strs(v@.take(i as int)),
            r@.len() == i,
        decreases v.len() - i,
    {
        r.push(copy_string(&v[i]));
        assert(strs(v@.take(i as int + 1)) =~= strs(v@.take(i as int)).push(v@[i as int]@));
        i += 1;
    }
    assert(v@.take(v@.len() as int) == v@);
    r
}

pub fn strings_eq(a: &Vec<String>, b: &Vec<String>) -> (r: bool)
    ensures
        r == (strs(a@) == strs(b@)),
{
    if a.len() != b.len() {
        assert(strs(a@).len() != strs(b@).len());
        return false;
    }
    let mut i: usize = 0;
    while i < a.len()
        invariant
            a.len() == b.len(),
            i <= a.len(),
            forall|j: int| 0 <= j < i ==> a@[j]@ == b@[j]@,
        decreases a.len() - i,
    {
        if !str_eq(a[i].as_str(), b[i].as_str()) {
            assert(strs(a@)[i as int] != strs(b@)[i as int]);
            return false;
        }
        i += 1;
    }
    assert(strs(a@) =~= strs(b@));
    true
}

/// The non-blank lines of a text, trimmed.
pub open spec fn normalized_lines(s: Seq<char>) -> Seq<Seq<char>> {
    trimmed_nonempty(lines(s))
}

/// Trimmed entries of a list with the blank ones left out.
pub open spec fn trimmed_nonempty(v: Seq<Seq<char>>) -> Seq<Seq<char>>
    decreases v.len(),
{
    if v.len() == 0 {
        seq![]
    } else if trim(v.last()).len() > 0 {
        trimmed_nonempty(v.drop_last()).push(trim(v.last()))
    } else {
        trimmed_nonempty(v.drop_last())
    }
}

/// Whether a change from `old` to `new` alters what gets synchronized, so that the
/// onedrive CLI needs a `--resync`.
pub open spec fn requires_resync_spec(old: ConfigEditView, new: ConfigEditView) -> bool {
    ||| old.sync_dir != new.sync_dir
    ||| old.skip_file != new.skip_file
    ||| old.skip_dir != new.skip_dir
    ||| normalized_lines(old.sync_list) != normalized_lines(new.sync_list)
}

fn trimmed_nonempty_of(v: &Vec<Vec<char>>) -> (r: Vec<Vec<char>>)
    ensures
        r@.len() == trimmed_nonempty(v@.map_values(|x: Vec<char>| x@)).len(),
        forall|k: int|
            0 <= k < r@.len() ==> #[trigger] r@[k]@ == trimmed_nonempty(
                v@.map_values(|x: Vec<char>| x@),
            )[k],
{
    let ghost vs = v@.map_values(|x: Vec<char>| x@);
    let mut r: Vec<Vec<char>> = Vec::new();
    let mut i: usize = 0;
    while i < v.len()
        invariant
            i <= v.len(),
            vs == v@.map_values(|x: Vec<char>| x@),
            r@.len() == trimmed_nonempty(vs.take(i as int)).len(),
            forall|k: int|
                0 <= k < r@.len() ==> #[trigger] r@[k]@ == trimmed_nonempty(vs.take(i as int))[k],
        decreases v.len() - i,
    {
        let t = trim_chars(&v[i], CharClass::Whitespace);
        assert(vs.take(i + 1).drop_last() == vs.take(i as int));
        assert(vs.take(i + 1).last() == v@[i as int]@);
        if t.len() > 0 {
            r.push(t);
        }
        i += 1;
    }
    assert(vs.take(v@.len() as int) == vs);
    r
}

fn normalized_lines_of(s: &String) -> (r: Vec<Vec<char>>)
    ensures
        r@.len() == normalized_lines(s@).len(),
        forall|k: int| 0 <= k < r@.len() ==> #[trigger] r@[k]@ == normalized_lines(s@)[k],
{
    let ls = lines_of(&chars_of(s.as_str()));
    assert(ls@.map_values(|x: Vec<char>| x@) =~= lines(s@));
    trimmed_nonempty_of(&ls)
}

/// The non-blank lines of a text, trimmed.
pub fn normalize_lines(value: &str) -> (r: Vec<String>)
    ensures
        strs(r@) == normalized_lines(value@),
{
    let s = string_of(&chars_of(value));
    assert(s@ == value@);
    let ls = normalized_lines_of(&s);
    let mut out: Vec<String> = Vec::new();
    let mut i: usize = 0;
    while i < ls.len()
        invariant
            i <= ls@.len(),
            ls@.len() == normalized_lines(value@).len(),
            forall|k: int| 0 <= k < ls@.len() ==> #[trigger] ls@[k]@ == normalized_lines(value@)[k],
            strs(out@) == normalized_lines(value@).take(i as int),
        decreases ls.len() - i,
    {
        let ghost before = out@;
        let item = string_of(ls[i].as_slice());
        out.push(item);
        assert(strs(out@) =~= strs(before).push(ls@[i as int]@));
        assert(strs(out@) =~= normalized_lines(value@).take(i + 1));
        i += 1;
    }
    assert(normalized_lines(value@).take(i as int) =~= normalized_lines(value@));
    out
}

fn char_lists_eq(a: &Vec<Vec<char>>, b: &Vec<Vec<char>>) -> (r: bool)
    ensures
        r == (a@.map_values(|x: Vec<char>| x@) == b@.map_values(|x: Vec<char>| x@)),
{
    if a.len() != b.len() {
        assert(a@.map_values(|x: Vec<char>| x@).len() != b@.map_values(|x: Vec<char>| x@).len());
        return false;
    }
    let mut i: usize = 0;
    while i < a.len()
        invariant
            a.len() == b.len(),
            i <= a.len(),
            forall|j: int| 0 <= j < i ==> a@[j]@ == b@[j]@,
        decreases a.len() - i,
    {
        if !chars_eq(&a[i], &b[i]) {
            assert(a@.map_values(|x: Vec<char>| x@)[i as int] != b@.map_values(
                |x: Vec<char>| x@,
            )[i as int]);
            return false;
        }
        i += 1;
    }
    assert(a@.map_values(|x: Vec<char>| x@) =~= b@.map_values(|x: Vec<char>| x@));
    true
}

impl ConfigEdit {
    /// Whether moving from `self` to `next` changes the synchronized scope: the sync
    /// directory, the skip lists, or the non-blank lines of the selective-sync list.
    pub fn requires_resync_from(&self, next: &Self) -> (r: bool)
        ensures
            r == requires_resync_spec(self@, next@),
    {
        if !str_eq(self.sync_dir.as_str(), next.sync_dir.as_str()) {
            return true;
        }
        if !strings_eq(&self.skip_file, &next.skip_file) {
            return true;
        }
        if !strings_eq(&self.skip_dir, &next.skip_dir) {
            return true;
        }
        let a = normalized_lines_of(&self.sync_list);
        let b = normalized_lines_of(&next.sync_list);
        let same = char_lists_eq(&a, &b);
        proof {
            assert(a@.map_values(|x: Vec<char>| x@) =~= normalized_lines(self.sync_list@));
            assert(b@.map_values(|x: Vec<char>| x@) =~= normalized_lines(next.sync_list@));
        }
        !same
    }

    /// A field-by-field copy.
    pub fn copy(&self) -> (r: Self)
        ensures
            r@ == self@,
    {
        ConfigEdit {
            sync_dir: copy_string(&self.sync_dir),
            skip_file: copy_strings(&self.skip_file),
            skip_dir: copy_strings(&self.skip_dir),
            sync_list: copy_string(&self.sync_list),
            download_only: self.download_only,
            upload_only: self.upload_only,
            no_remote_delete: self.no_remote_delete,
            monitor_interval: copy_string(&self.monitor_interval),
            monitor_fullscan_frequency: copy_string(&self.monitor_fullscan_frequency),
        }
    }
}

/// Changing the scope is detected in either direction, and never for an unchanged edit.
pub proof fn law_requires_resync_symmetric_and_irreflexive(a: ConfigEditView, b: ConfigEditView)
    ensures
        !requires_resync_spec(a, a),
        requires_resync_spec(a, b) == requires_resync_spec(b, a),
{
}

// ---------------------------------------------------------------------------
// Lines of the file
// ---------------------------------------------------------------------------

#[derive(Debug)]
enum ConfigLine {
    Blank,
    Verbatim(String),
    Pair { key: String, values: Vec<String> },
}

/// One line of the file as text: a blank line, a line kept as written, or a
/// `key = "value"` setting with its indented continuation values.
pub enum ConfigLineView {
    Blank,
    Verbatim(Seq<char>),
    Pair(Seq<char>, Seq<Seq<char>>),
}

spec fn line_view(l: ConfigLine) -> ConfigLineView {
    match l {
        ConfigLine::Blank => ConfigLineView::Blank,
        ConfigLine::Verbatim(t) => ConfigLineView::Verbatim(t@),
        ConfigLine::Pair { key, values } => ConfigLineView::Pair(key@, strs(values@)),
    }
}

spec fn lines_view(ls: Seq<ConfigLine>) -> Seq<ConfigLineView> {
    ls.map_values(|l: ConfigLine| line_view(l))
}

/// The onedrive CLI configuration, line by line.
#[derive(Debug)]
pub struct OneDriveConfig {
    lines: Vec<ConfigLine>,
}

impl View for OneDriveConfig {
    type V = Seq<ConfigLineView>;

    closed spec fn view(&self) -> Seq<ConfigLineView> {
        lines_view(self.lines@)
    }
}

impl Default for OneDriveConfig {
    fn default() -> (r: Self)
        ensures
            r@ == Seq::<ConfigLineView>::empty(),
    {
        OneDriveConfig::new()
    }
}

fn copy_line(l: &ConfigLine) -> (r: ConfigLine)
    ensures
        line_view(r) == line_view(*l),
{
    match l {
        ConfigLine::Blank => ConfigLine::Blank,
        ConfigLine::Verbatim(t) => ConfigLine::Verbatim(copy_string(t)),
        ConfigLine::Pair { key, values } => ConfigLine::Pair {
            key: copy_string(key),
            values: copy_strings(values),
        },
    }
}

// ---------------------------------------------------------------------------
// Parsing
// ---------------------------------------------------------------------------

/// The parser's state between lines: the finished lines and the setting that may
/// still receive indented continuation values.
pub struct ParseState {
    pub done: Seq<ConfigLineView>,
    pub cur: Option<(Seq<char>, Seq<Seq<char>>)>,
}

pub open spec fn flush(st: ParseState) -> Seq<ConfigLineView> {
    match st.cur {
        Some((k, v)) => st.done.push(ConfigLineView::Pair(k, v)),
        None => st.done,
    }
}

/// One raw line read into the parser state.
pub open spec fn parse_step(st: ParseState, raw: Seq<char>) -> ParseState {
    let t = trim(raw);
    if raw.len() > 0 && is_ws(raw[0]) && st.cur is Some && t.len() > 0 && t[0] != '#' {
        match st.cur {
            Some((k, v)) => ParseState { done: st.done, cur: Some((k, v.push(unquote_spec(t)))) },
            None => st,
        }
    } else {
        let done = flush(st);
        if t.len() == 0 {
            ParseState { done: done.push(ConfigLineView::Blank), cur: None }
        } else if t[0] == '#' {
            ParseState { done: done.push(ConfigLineView::Verbatim(raw)), cur: None }
        } else {
            match index_of(t, '=') {
                Some(i) => ParseState {
                    done,
                    cur: Some((trim(t.take(i)), seq![unquote_spec(trim(t.skip(i + 1)))])),
                },
                None => ParseState { done: done.push(ConfigLineView::Verbatim(raw)), cur: None },
            }
        }
    }
}

pub open spec fn parse_lines(ls: Seq<Seq<char>>) -> ParseState
    decreases ls.len(),
{
    if ls.len() == 0 {
        ParseState { done: seq![], cur: None }
    } else {
        parse_step(parse_lines(ls.drop_last()), ls.last())
    }
}

/// The configuration a text describes.
pub open spec fn parse_spec(content: Seq<char>) -> Seq<ConfigLineView> {
    flush(parse_lines(lines(content)))
}

spec fn cur_view(cur: Option<(String, Vec<String>)>) -> Option<(Seq<char>, Seq<Seq<char>>)> {
    match cur {
        Some((k, v)) => Some((k@, strs(v@))),
        None => None,
    }
}

fn flush_exec(done: &mut Vec<ConfigLine>, cur: Option<(String, Vec<String>)>)
    ensures
        lines_view(final(done)@) == flush(
            ParseState { done: lines_view(old(done)@), cur: cur_view(cur) },
        ),
{
    match cur {
        Some((key, values)) => {
            done.push(ConfigLine::Pair { key, values });
            assert(lines_view(done@) =~= lines_view(old(done)@).push(
                ConfigLineView::Pair(key@, strs(values@)),
            ));
        },
        None => {},
    }
}

impl OneDriveConfig {
    /// An empty configuration.
    pub fn new() -> (r: Self)
        ensures
            r@ == Seq::<ConfigLineView>::empty(),
    {
        let r = OneDriveConfig { lines: Vec::new() };
        assert(r@ =~= Seq::<ConfigLineView>::empty());
        r
    }

    /// Reads a configuration text, keeping blank lines, comments and unknown lines.
    pub fn parse(content: &str) -> (r: Self)
        ensures
            r@ == parse_spec(content@),
    {
        let raw_lines = lines_of(&chars_of(content));
        let ghost ls = lines(content@);
        let mut done: Vec<ConfigLine> = Vec::new();
        let mut cur: Option<(String, Vec<String>)> = None;
        let mut i: usize = 0;
        assert(ls.take(0) =~= Seq::<Seq<char>>::empty());
        assert(lines_view(done@) =~= Seq::<ConfigLineView>::empty());
        while i < raw_lines.len()
            invariant
                i <= raw_lines.len(),
                raw_lines@.len() == ls.len(),
                ls == lines(content@),
                forall|k: int| 0 <= k < raw_lines@.len() ==> #[trigger] raw_lines@[k]@ == ls[k],
                parse_lines(ls.take(i as int)) == (ParseState {
                    done: lines_view(done@),
                    cur: cur_view(cur),
                }),
            decreases raw_lines.len() - i,
        {
            let raw = &raw_lines[i];
            let ghost st = ParseState { done: lines_view(done@), cur: cur_view(cur) };
            assert(ls.take(i + 1).drop_last() == ls.take(i as int));
            assert(ls.take(i + 1).last() == raw@);
            let t = trim_chars(raw, CharClass::Whitespace);
            let continuation = raw.len() > 0 && is_ws_char(raw[0]) && cur.is_some() && t.len() > 0
                && t[0] != '#';
            if continuation {
                let value = string_of(&unquote_chars(&t));
                match cur {
                    Some((key, values)) => {
                        let mut values = values;
                        let ghost before = values@;
                        values.push(value);
                        assert(strs(values@) =~= strs(before).push(value@));
                        cur = Some((key, values));
                    },
                    None => {},
                }
            } else {
                let taken = cur;
                cur = None;
                flush_exec(&mut done, taken);
                if t.len() == 0 {
                    done.push(ConfigLine::Blank);
                } else if t[0] == '#' {
                    done.push(ConfigLine::Verbatim(string_of(raw)));
                } else {
                    match index_of_char(&t, '=') {
                        Some(eq) => {
                            let key_part = sub_chars(&t, 0, eq);
                            let value_part = sub_chars(&t, eq + 1, t.len());
                            let key = string_of(&trim_chars(&key_part, CharClass::Whitespace));
                            let value = string_of(
                                &unquote_chars(&trim_chars(&value_part, CharClass::Whitespace)),
                            );
                            let mut values: Vec<String> = Vec::new();
                            values.push(value);
                            assert(strs(values@) =~= seq![value@]);
                            assert(t@.take(eq as int) == key_part@);
                            assert(t@.skip(eq + 1) == value_part@);
                            cur = Some((key, values));
                        },
                        None => {
                            done.push(ConfigLine::Verbatim(string_of(raw)));
                        },
                    }
                }
            }
            proof {
                assert(lines_view(done@) =~= parse_step(st, raw@).done);
            }
            i += 1;
        }
        assert(ls.take(ls.len() as int) == ls);
        flush_exec(&mut done, cur);
        OneDriveConfig { lines: done }
    }
}


// ---------------------------------------------------------------------------
// Reading and changing settings
// ---------------------------------------------------------------------------

pub open spec fn is_pair_of(l: ConfigLineView, key: Seq<char>) -> bool {
    match l {
        ConfigLineView::Pair(k, _) => k == key,
        _ => false,
    }
}

/// Every setting line of `key` removed; all other lines kept in order.
pub open spec fn remove_key_spec(ls: Seq<ConfigLineView>, key: Seq<char>) -> Seq<ConfigLineView>
    decreases ls.len(),
{
    if ls.len() == 0 {
        seq![]
    } else if is_pair_of(ls.last(), key) {
        remove_key_spec(ls.drop_last(), key)
    } else {
        remove_key_spec(ls.drop_last(), key).push(ls.last())
    }
}

/// The values of every setting line of `key`, in file order, trimmed, blanks left out.
pub open spec fn values_spec(ls: Seq<ConfigLineView>, key: Seq<char>) -> Seq<Seq<char>>
    decreases ls.len(),
{
    if ls.len() == 0 {
        seq![]
    } else {
        match ls.last() {
            ConfigLineView::Pair(k, v) => if k == key {
                values_spec(ls.drop_last(), key) + trimmed_nonempty(v)
            } else {
                values_spec(ls.drop_last(), key)
            },
            _ => values_spec(ls.drop_last(), key),
        }
    }
}

/// The first value of `key`, or empty text.
pub open spec fn single_value_spec(ls: Seq<ConfigLineView>, key: Seq<char>) -> Seq<char> {
    let v = values_spec(ls, key);
    if v.len() > 0 {
        v[0]
    } else {
        seq![]
    }
}

pub open spec fn true_text() -> Seq<char> {
    seq!['t', 'r', 'u', 'e']
}

/// A setting is on when its first value is `true` in any ASCII case.
pub open spec fn bool_value_spec(ls: Seq<ConfigLineView>, key: Seq<char>) -> bool {
    let v = values_spec(ls, key);
    v.len() > 0 && lower(v[0]) == true_text()
}

/// Replaces every setting line of `key` with one line at the end holding `values`.
pub open spec fn set_values_spec(ls: Seq<ConfigLineView>, key: Seq<char>, values: Seq<Seq<char>>) -> Seq<ConfigLineView> {
    remove_key_spec(ls, key).push(ConfigLineView::Pair(key, values))
}

pub open spec fn set_single_spec(ls: Seq<ConfigLineView>, key: Seq<char>, value: Seq<char>) -> Seq<ConfigLineView> {
    set_values_spec(ls, key, seq![value])
}

/// A blank value removes the setting.
pub open spec fn set_optional_spec(ls: Seq<ConfigLineView>, key: Seq<char>, value: Seq<char>) -> Seq<ConfigLineView> {
    if trim(value).len() == 0 {
        remove_key_spec(ls, key)
    } else {
        set_single_spec(ls, key, value)
    }
}

/// `true` is written as `"true"`; `false` removes the setting.
pub open spec fn set_bool_spec(ls: Seq<ConfigLineView>, key: Seq<char>, value: bool) -> Seq<ConfigLineView> {
    if value {
        set_single_spec(ls, key, true_text())
    } else {
        remove_key_spec(ls, key)
    }
}

/// A list setting keeps its trimmed non-blank entries; an empty list removes it.
pub open spec fn set_multi_spec(ls: Seq<ConfigLineView>, key: Seq<char>, values: Seq<Seq<char>>) -> Seq<ConfigLineView> {
    let t = trimmed_nonempty(values);
    if t.len() == 0 {
        remove_key_spec(ls, key)
    } else {
        set_values_spec(ls, key, t)
    }
}

/// The nine edited settings written into a configuration, in this order.
pub open spec fn apply_edit_spec(ls: Seq<ConfigLineView>, e: ConfigEditView) -> Seq<ConfigLineView> {
    let l1 = set_single_spec(ls, "sync_dir"@, e.sync_dir);
    let l2 = set_multi_spec(l1, "skip_file"@, e.skip_file);
    let l3 = set_multi_spec(l2, "skip_dir"@, e.skip_dir);
    let l4 = set_optional_spec(l3, "sync_list"@, e.sync_list);
    let l5 = set_bool_spec(l4, "download_only"@, e.download_only);
    let l6 = set_bool_spec(l5, "upload_only"@, e.upload_only);
    let l7 = set_bool_spec(l6, "no_remote_delete"@, e.no_remote_delete);
    let l8 = set_optional_spec(l7, "monitor_interval"@, e.monitor_interval);
    set_optional_spec(l8, "monitor_fullscan_frequency"@, e.monitor_fullscan_frequency)
}

/// The edited settings as a configuration states them.
pub open spec fn to_edit_spec(ls: Seq<ConfigLineView>) -> ConfigEditView {
    ConfigEditView {
        sync_dir: single_value_spec(ls, "sync_dir"@),
        skip_file: values_spec(ls, "skip_file"@),
        skip_dir: values_spec(ls, "skip_dir"@),
        sync_list: single_value_spec(ls, "sync_list"@),
        download_only: bool_value_spec(ls, "download_only"@),
        upload_only: bool_value_spec(ls, "upload_only"@),
        no_remote_delete: bool_value_spec(ls, "no_remote_delete"@),
        monitor_interval: single_value_spec(ls, "monitor_interval"@),
        monitor_fullscan_frequency: single_value_spec(ls, "monitor_fullscan_frequency"@),
    }
}

fn line_has_key(l: &ConfigLine, key: &str) -> (r: bool)
    ensures
        r == is_pair_of(line_view(*l), key@),
{
    match l {
        ConfigLine::Pair { key: k, .. } => str_eq(k.as_str(), key),
        _ => false,
    }
}

fn trimmed_nonempty_strings(v: &Vec<String>) -> (r: Vec<String>)
    ensures
        strs(r@) == trimmed_nonempty(strs(v@)),
{
    let mut r: Vec<String> = Vec::new();
    let mut i: usize = 0;
    while i < v.len()
        invariant
            i <= v.len(),
            strs(r@) == trimmed_nonempty(strs(v@.take(i as int))),
        decreases v.len() - i,
    {
        let t = trim_chars(&chars_of(v[i].as_str()), CharClass::Whitespace);
        assert(strs(v@.take(i + 1)).drop_last() =~= strs(v@.take(i as int)));
        assert(strs(v@.take(i + 1)).last() == v@[i as int]@);
        if t.len() > 0 {
            let s = string_of(&t);
            let ghost before = r@;
            r.push(s);
            assert(strs(r@) =~= strs(before).push(s@));
        }
        i += 1;
    }
    assert(v@.take(v@.len() as int) == v@);
    r
}

impl OneDriveConfig {
    fn remove_key(&mut self, key: &str)
        ensures
            final(self)@ == remove_key_spec(old(self)@, key@),
    {
        let mut kept: Vec<ConfigLine> = Vec::new();
        let mut i: usize = 0;
        let ghost ls = self@;
        while i < self.lines.len()
            invariant
                i <= self.lines.len(),
                ls == lines_view(self.lines@),
                lines_view(kept@) == remove_key_spec(ls.take(i as int), key@),
            decreases self.lines.len() - i,
        {
            let ghost before = kept@;
            assert(ls.take(i + 1).drop_last() =~= ls.take(i as int));
            assert(ls.take(i + 1).last() == line_view(self.lines@[i as int]));
            if !line_has_key(&self.lines[i], key) {
                kept.push(copy_line(&self.lines[i]));
                assert(lines_view(kept@) =~= lines_view(before).push(line_view(self.lines@[i as int])));
            }
            i += 1;
        }
        assert(ls.take(ls.len() as int) == ls);
        self.lines = kept;
    }

    fn set_values(&mut self, key: &str, values: Vec<String>)
        ensures
            final(self)@ == set_values_spec(old(self)@, key@, strs(values@)),
    {
        self.remove_key(key);
        let ghost before = self.lines@;
        let k = string_of(&chars_of(key));
        self.lines.push(ConfigLine::Pair { key: k, values });
        assert(lines_view(self.lines@) =~= lines_view(before).push(
            ConfigLineView::Pair(key@, strs(values@)),
        ));
    }

    fn set_single(&mut self, key: &str, value: &str)
        ensures
            final(self)@ == set_single_spec(old(self)@, key@, value@),
    {
        let mut values: Vec<String> = Vec::new();
        values.push(string_of(&chars_of(value)));
        assert(strs(values@) =~= seq![value@]);
        self.set_values(key, values);
    }

    fn set_optional(&mut self, key: &str, value: &str)
        ensures
            final(self)@ == set_optional_spec(old(self)@, key@, value@),
    {
        let t = trim_chars(&chars_of(value), CharClass::Whitespace);
        if t.len() == 0 {
            self.remove_key(key);
        } else {
            self.set_single(key, value);
        }
    }

    fn set_bool(&mut self, key: &str, value: bool)
        ensures
            final(self)@ == set_bool_spec(old(self)@, key@, value),
    {
        if value {
            proof {
                reveal_strlit("true");
                assert("true"@ =~= true_text());
            }
            self.set_single(key, "true");
        } else {
            self.remove_key(key);
        }
    }

    fn set_multi(&mut self, key: &str, values: &Vec<String>)
        ensures
            final(self)@ == set_multi_spec(old(self)@, key@, strs(values@)),
    {
        let t = trimmed_nonempty_strings(values);
        if t.len() == 0 {
            self.remove_key(key);
        } else {
            self.set_values(key, t);
        }
    }

    /// Writes the edited settings: blank optional values and `false` flags remove
    /// their setting, list entries are trimmed and blank ones dropped.
    pub fn apply_edit(&mut self, edit: &ConfigEdit)
        ensures
            final(self)@ == apply_edit_spec(old(self)@, edit@),
    {
        self.set_single("sync_dir", edit.sync_dir.as_str());
        self.set_multi("skip_file", &edit.skip_file);
        self.set_multi("skip_dir", &edit.skip_dir);
        self.set_optional("sync_list", edit.sync_list.as_str());
        self.set_bool("download_only", edit.download_only);
        self.set_bool("upload_only", edit.upload_only);
        self.set_bool("no_remote_delete", edit.no_remote_delete);
        self.set_optional("monitor_interval", edit.monitor_interval.as_str());
        self.set_optional("monitor_fullscan_frequency", edit.monitor_fullscan_frequency.as_str());
    }

    /// Turns on `display_transfer_metrics`, which makes the CLI print progress.
    pub fn enable_transfer_metrics(&mut self)
        ensures
            final(self)@ == set_single_spec(old(self)@, "display_transfer_metrics"@, true_text()),
    {
        proof {
            reveal_strlit("true");
            assert("true"@ =~= true_text());
        }
        self.set_single("display_transfer_metrics", "true");
    }

    fn values(&self, key: &str) -> (r: Vec<String>)
        ensures
            strs(r@) == values_spec(self@, key@),
    {
        let mut out: Vec<String> = Vec::new();
        let mut i: usize = 0;
        let ghost ls = self@;
        while i < self.lines.len()
            invariant
                i <= self.lines.len(),
                ls == lines_view(self.lines@),
                strs(out@) == values_spec(ls.take(i as int), key@),
            decreases self.lines.len() - i,
        {
            assert(ls.take(i + 1).drop_last() =~= ls.take(i as int));
            assert(ls.take(i + 1).last() == line_view(self.lines@[i as int]));
            match &self.lines[i] {
                ConfigLine::Pair { key: k, values } => {
                    if str_eq(k.as_str(), key) {
                        let t = trimmed_nonempty_strings(values);
                        let mut j: usize = 0;
                        let ghost before = strs(out@);
                        while j < t.len()
                            invariant
                                j <= t.len(),
                                strs(out@) == before + strs(t@).take(j as int),
                            decreases t.len() - j,
                        {
                            let ghost prev = out@;
                            out.push(copy_string(&t[j]));
                            assert(strs(out@) =~= strs(prev).push(t@[j as int]@));
                            assert(strs(t@).take(j + 1) =~= strs(t@).take(j as int).push(t@[j as int]@));
                            j += 1;
                        }
                        assert(strs(t@).take(t@.len() as int) =~= strs(t@));
                    }
                },
                _ => {},
            }
            i += 1;
        }
        assert(ls.take(ls.len() as int) == ls);
        out
    }

    fn single_value(&self, key: &str) -> (r: String)
        ensures
            r@ == single_value_spec(self@, key@),
    {
        let v = self.values(key);
        if v.len() > 0 {
            assert(strs(v@)[0] == v@[0]@);
            copy_string(&v[0])
        } else {
            String::new()
        }
    }

    fn bool_value(&self, key: &str) -> (r: bool)
        ensures
            r == bool_value_spec(self@, key@),
    {
        let v = self.values(key);
        if v.len() > 0 {
            assert(strs(v@)[0] == v@[0]@);
            let l = lower_chars(&chars_of(v[0].as_str()));
            let t = chars_of("true");
            proof {
                reveal_strlit("true");
                assert(t@ =~= true_text());
            }
            chars_eq(&l, &t)
        } else {
            false
        }
    }

    /// The edited settings as this configuration states them.
    pub fn to_edit(&self) -> (r: ConfigEdit)
        ensures
            r@ == to_edit_spec(self@),
    {
        ConfigEdit {
            sync_dir: self.single_value("sync_dir"),
            skip_file: self.values("skip_file"),
            skip_dir: self.values("skip_dir"),
            sync_list: self.single_value("sync_list"),
            download_only: self.bool_value("download_only"),
            upload_only: self.bool_value("upload_only"),
            no_remote_delete: self.bool_value("no_remote_delete"),
            monitor_interval: self.single_value("monitor_interval"),
            monitor_fullscan_frequency: self.single_value("monitor_fullscan_frequency"),
        }
    }
}


// ---------------------------------------------------------------------------
// Writing the file
// ---------------------------------------------------------------------------

/// A backslash or double quote is written with a backslash before it.
pub open spec fn escape_char(c: char) -> Seq<char> {
    if c == '\\' {
        seq!['\\', '\\']
    } else if c == '"' {
        seq!['\\', '"']
    } else {
        seq![c]
    }
}

pub open spec fn escape(s: Seq<char>) -> Seq<char>
    decreases s.len(),
{
    if s.len() == 0 {
        seq![]
    } else {
        escape(s.drop_last()) + escape_char(s.last())
    }
}

pub open spec fn eq_quote() -> Seq<char> {
    seq![' ', '=', ' ', '"']
}

pub open spec fn quote_nl() -> Seq<char> {
    seq!['"', '\n']
}

pub open spec fn tab_quote() -> Seq<char> {
    seq!['\t', '"']
}

/// Continuation values, one indented quoted value per line.
pub open spec fn render_continuations(vs: Seq<Seq<char>>) -> Seq<char>
    decreases vs.len(),
{
    if vs.len() == 0 {
        seq![]
    } else {
        render_continuations(vs.drop_last()) + tab_quote() + escape(vs.last()) + quote_nl()
    }
}

/// One line of the file as written: a setting with one blank value is left out.
pub open spec fn render_line(l: ConfigLineView) -> Seq<char> {
    match l {
        ConfigLineView::Blank => seq!['\n'],
        ConfigLineView::Verbatim(t) => t.push('\n'),
        ConfigLineView::Pair(k, vals) => if vals.len() <= 1 {
            let v = if vals.len() == 0 {
                Seq::<char>::empty()
            } else {
                vals[0]
            };
            if trim(v).len() > 0 {
                k + eq_quote() + escape(v) + quote_nl()
            } else {
                seq![]
            }
        } else {
            k + eq_quote() + escape(vals[0]) + quote_nl() + render_continuations(vals.skip(1))
        },
    }
}

pub open spec fn render_spec(ls: Seq<ConfigLineView>) -> Seq<char>
    decreases ls.len(),
{
    if ls.len() == 0 {
        seq![]
    } else {
        render_spec(ls.drop_last()) + render_line(ls.last())
    }
}

fn push_escaped(out: &mut String, v: &String)
    ensures
        final(out)@ == old(out)@ + escape(v@),
{
    let cs = chars_of(v.as_str());
    let ghost start = out@;
    let mut i: usize = 0;
    while i < cs.len()
        invariant
            i <= cs.len(),
            cs@ == v@,
            out@ == start + escape(cs@.take(i as int)),
        decreases cs.len() - i,
    {
        let c = cs[i];
        assert(cs@.take(i + 1).drop_last() =~= cs@.take(i as int));
        if c == '\\' {
            push_char(out, '\\');
            push_char(out, '\\');
        } else if c == '"' {
            push_char(out, '\\');
            push_char(out, '"');
        } else {
            push_char(out, c);
        }
        assert(out@ =~= start + escape(cs@.take(i + 1)));
        i += 1;
    }
    assert(cs@.take(cs@.len() as int) == cs@);
}

fn push_setting_head(out: &mut String, key: &String, v: &String)
    ensures
        final(out)@ == old(out)@ + key@ + eq_quote() + escape(v@) + quote_nl(),
{
    push_str(out, key.as_str());
    push_char(out, ' ');
    push_char(out, '=');
    push_char(out, ' ');
    push_char(out, '"');
    push_escaped(out, v);
    push_char(out, '"');
    push_char(out, '\n');
    assert(out@ =~= old(out)@ + key@ + eq_quote() + escape(v@) + quote_nl());
}

fn push_line(out: &mut String, l: &ConfigLine)
    ensures
        final(out)@ == old(out)@ + render_line(line_view(*l)),
{
    match l {
        ConfigLine::Blank => {
            push_char(out, '\n');
            assert(out@ =~= old(out)@ + seq!['\n']);
        },
        ConfigLine::Verbatim(t) => {
            push_str(out, t.as_str());
            push_char(out, '\n');
            assert(out@ =~= old(out)@ + t@.push('\n'));
        },
        ConfigLine::Pair { key, values } => {
            assert(strs(values@).len() == values@.len());
            if values.len() <= 1 {
                if values.len() == 1 {
                    assert(strs(values@)[0] == values@[0]@);
                    let t = trim_chars(&chars_of(values[0].as_str()), CharClass::Whitespace);
                    if t.len() > 0 {
                        push_setting_head(out, key, &values[0]);
                    }
                } else {
                    proof {
                        crate::text::lemma_lead_len_bounded(Seq::<char>::empty(), CharClass::Whitespace);
                    }
                    assert(trim(Seq::<char>::empty()).len() == 0);
                    assert(out@ =~= old(out)@ + Seq::<char>::empty());
                }
            } else {
                assert(strs(values@)[0] == values@[0]@);
                push_setting_head(out, key, &values[0]);
                let ghost base = out@;
                let ghost rest = strs(values@).skip(1);
                let mut j: usize = 1;
                while j < values.len()
                    invariant
                        1 <= j <= values.len(),
                        rest == strs(values@).skip(1),
                        out@ == base + render_continuations(rest.take(j - 1)),
                    decreases values.len() - j,
                {
                    push_char(out, '\t');
                    push_char(out, '"');
                    push_escaped(out, &values[j]);
                    push_char(out, '"');
                    push_char(out, '\n');
                    assert(rest.take(j as int).drop_last() =~= rest.take(j - 1));
                    assert(rest.take(j as int).last() == values@[j as int]@);
                    assert(out@ =~= base + render_continuations(rest.take(j as int)));
                    j += 1;
                }
                assert(rest.take(values.len() - 1) =~= rest);
            }
        },
    }
}

impl OneDriveConfig {
    /// The configuration file text.
    pub fn render(&self) -> (r: String)
        ensures
            r@ == render_spec(self@),
    {
        let mut out = String::new();
        let mut i: usize = 0;
        let ghost ls = self@;
        while i < self.lines.len()
            invariant
                i <= self.lines.len(),
                ls == lines_view(self.lines@),
                out@ == render_spec(ls.take(i as int)),
            decreases self.lines.len() - i,
        {
            assert(ls.take(i + 1).drop_last() =~= ls.take(i as int));
            assert(ls.take(i + 1).last() == line_view(self.lines@[i as int]));
            push_line(&mut out, &self.lines[i]);
            i += 1;
        }
        assert(ls.take(ls.len() as int) == ls);
        out
    }
}


// ---------------------------------------------------------------------------
// Laws
// ---------------------------------------------------------------------------

/// What `to_edit` gives back of an edit that was written: texts trimmed, blank list
/// entries dropped, flags unchanged.
pub open spec fn normalize_edit(e: ConfigEditView) -> ConfigEditView {
    ConfigEditView {
        sync_dir: trim(e.sync_dir),
        skip_file: trimmed_nonempty(e.skip_file),
        skip_dir: trimmed_nonempty(e.skip_dir),
        sync_list: trim(e.sync_list),
        download_only: e.download_only,
        upload_only: e.upload_only,
        no_remote_delete: e.no_remote_delete,
        monitor_interval: trim(e.monitor_interval),
        monitor_fullscan_frequency: trim(e.monitor_fullscan_frequency),
    }
}

/// The settings that `apply_edit` manages.
pub open spec fn is_managed_key(k: Seq<char>) -> bool {
    ||| k == "sync_dir"@
    ||| k == "skip_file"@
    ||| k == "skip_dir"@
    ||| k == "sync_list"@
    ||| k == "download_only"@
    ||| k == "upload_only"@
    ||| k == "no_remote_delete"@
    ||| k == "monitor_interval"@
    ||| k == "monitor_fullscan_frequency"@
}

pub open spec fn is_unmanaged_line(l: ConfigLineView) -> bool {
    match l {
        ConfigLineView::Pair(k, _) => !is_managed_key(k),
        _ => true,
    }
}

/// The lines other than managed settings, in order.
pub open spec fn unmanaged_lines(ls: Seq<ConfigLineView>) -> Seq<ConfigLineView>
    decreases ls.len(),
{
    if ls.len() == 0 {
        seq![]
    } else if is_unmanaged_line(ls.last()) {
        unmanaged_lines(ls.drop_last()).push(ls.last())
    } else {
        unmanaged_lines(ls.drop_last())
    }
}

proof fn lemma_values_remove_key(ls: Seq<ConfigLineView>, k1: Seq<char>, k2: Seq<char>)
    ensures
        values_spec(remove_key_spec(ls, k2), k1) == (if k1 == k2 {
            Seq::<Seq<char>>::empty()
        } else {
            values_spec(ls, k1)
        }),
    decreases ls.len(),
{
    if ls.len() > 0 {
        lemma_values_remove_key(ls.drop_last(), k1, k2);
        let r = remove_key_spec(ls.drop_last(), k2);
        if !is_pair_of(ls.last(), k2) {
            assert(remove_key_spec(ls, k2).drop_last() == r);
        }
    }
}

proof fn lemma_values_push(ls: Seq<ConfigLineView>, k1: Seq<char>, k2: Seq<char>, v: Seq<Seq<char>>)
    ensures
        values_spec(ls.push(ConfigLineView::Pair(k2, v)), k1) == (if k1 == k2 {
            values_spec(ls, k1) + trimmed_nonempty(v)
        } else {
            values_spec(ls, k1)
        }),
{
    assert(ls.push(ConfigLineView::Pair(k2, v)).drop_last() == ls);
}

proof fn lemma_values_set_values(ls: Seq<ConfigLineView>, k1: Seq<char>, k2: Seq<char>, v: Seq<Seq<char>>)
    ensures
        values_spec(set_values_spec(ls, k2, v), k1) == (if k1 == k2 {
            trimmed_nonempty(v)
        } else {
            values_spec(ls, k1)
        }),
{
    lemma_values_remove_key(ls, k1, k2);
    lemma_values_push(remove_key_spec(ls, k2), k1, k2, v);
    if k1 == k2 {
        assert(Seq::<Seq<char>>::empty() + trimmed_nonempty(v) =~= trimmed_nonempty(v));
    }
}

/// Values of other keys are untouched by writing `k2`.
proof fn lemma_other_key_untouched(ls: Seq<ConfigLineView>, k1: Seq<char>, k2: Seq<char>, v: Seq<Seq<char>>, t: Seq<char>, b: bool)
    requires
        k1 != k2,
    ensures
        values_spec(set_values_spec(ls, k2, v), k1) == values_spec(ls, k1),
        values_spec(set_single_spec(ls, k2, t), k1) == values_spec(ls, k1),
        values_spec(set_optional_spec(ls, k2, t), k1) == values_spec(ls, k1),
        values_spec(set_bool_spec(ls, k2, b), k1) == values_spec(ls, k1),
        values_spec(set_multi_spec(ls, k2, v), k1) == values_spec(ls, k1),
        values_spec(remove_key_spec(ls, k2), k1) == values_spec(ls, k1),
{
    lemma_values_set_values(ls, k1, k2, v);
    lemma_values_set_values(ls, k1, k2, seq![t]);
    lemma_values_set_values(ls, k1, k2, seq![true_text()]);
    lemma_values_set_values(ls, k1, k2, trimmed_nonempty(v));
    lemma_values_remove_key(ls, k1, k2);
}

proof fn lemma_trimmed_nonempty_single(t: Seq<char>)
    ensures
        trimmed_nonempty(seq![t]) == (if trim(t).len() > 0 {
            seq![trim(t)]
        } else {
            Seq::<Seq<char>>::empty()
        }),
{
    assert(seq![t].drop_last() =~= Seq::<Seq<char>>::empty());
    assert(seq![t].last() == t);
    assert(trimmed_nonempty(Seq::<Seq<char>>::empty()) =~= Seq::<Seq<char>>::empty());
    if trim(t).len() > 0 {
        assert(Seq::<Seq<char>>::empty().push(trim(t)) =~= seq![trim(t)]);
    }
}

proof fn lemma_trimmed_nonempty_idempotent(v: Seq<Seq<char>>)
    ensures
        trimmed_nonempty(trimmed_nonempty(v)) == trimmed_nonempty(v),
    decreases v.len(),
{
    if v.len() > 0 {
        lemma_trimmed_nonempty_idempotent(v.drop_last());
        let p = trimmed_nonempty(v.drop_last());
        if trim(v.last()).len() > 0 {
            lemma_trim_by_idempotent(v.last(), CharClass::Whitespace);
            assert(p.push(trim(v.last())).drop_last() == p);
        }
    }
}

/// After a single value is written, its setting reads back as that value trimmed.
proof fn lemma_single_read_back(ls: Seq<ConfigLineView>, k: Seq<char>, t: Seq<char>)
    ensures
        single_value_spec(set_single_spec(ls, k, t), k) == trim(t),
        single_value_spec(set_optional_spec(ls, k, t), k) == trim(t),
{
    lemma_values_set_values(ls, k, k, seq![t]);
    lemma_trimmed_nonempty_single(t);
    lemma_values_remove_key(ls, k, k);
    if trim(t).len() == 0 {
        assert(trim(t) =~= Seq::<char>::empty());
    }
}

proof fn lemma_true_text_trimmed()
    ensures
        trim(true_text()) == true_text(),
        lower(true_text()) == true_text(),
{
    let t = true_text();
    crate::text::lemma_lead_len_is(t, CharClass::Whitespace, 0);
    assert(t.skip(0) == t);
    crate::text::lemma_trail_len_is(t, CharClass::Whitespace, 0);
    assert(t.take(t.len() as int) == t);
    assert(lower(t) =~= t);
}

proof fn lemma_bool_read_back(ls: Seq<ConfigLineView>, k: Seq<char>, b: bool)
    ensures
        bool_value_spec(set_bool_spec(ls, k, b), k) == b,
{
    lemma_values_set_values(ls, k, k, seq![true_text()]);
    lemma_trimmed_nonempty_single(true_text());
    lemma_true_text_trimmed();
    lemma_values_remove_key(ls, k, k);
}

proof fn lemma_multi_read_back(ls: Seq<ConfigLineView>, k: Seq<char>, v: Seq<Seq<char>>)
    ensures
        values_spec(set_multi_spec(ls, k, v), k) == trimmed_nonempty(v),
{
    lemma_values_set_values(ls, k, k, trimmed_nonempty(v));
    lemma_trimmed_nonempty_idempotent(v);
    lemma_values_remove_key(ls, k, k);
}

proof fn lemma_managed_keys_distinct()
    ensures
        "sync_dir"@ != "skip_file"@,
        "sync_dir"@ != "skip_dir"@,
        "sync_dir"@ != "sync_list"@,
        "sync_dir"@ != "download_only"@,
        "sync_dir"@ != "upload_only"@,
        "sync_dir"@ != "no_remote_delete"@,
        "sync_dir"@ != "monitor_interval"@,
        "sync_dir"@ != "monitor_fullscan_frequency"@,
        "skip_file"@ != "skip_dir"@,
        "skip_file"@ != "sync_list"@,
        "skip_file"@ != "download_only"@,
        "skip_file"@ != "upload_only"@,
        "skip_file"@ != "no_remote_delete"@,
        "skip_file"@ != "monitor_interval"@,
        "skip_file"@ != "monitor_fullscan_frequency"@,
        "skip_dir"@ != "sync_list"@,
        "skip_dir"@ != "download_only"@,
        "skip_dir"@ != "upload_only"@,
        "skip_dir"@ != "no_remote_delete"@,
        "skip_dir"@ != "monitor_interval"@,
        "skip_dir"@ != "monitor_fullscan_frequency"@,
        "sync_list"@ != "download_only"@,
        "sync_list"@ != "upload_only"@,
        "sync_list"@ != "no_remote_delete"@,
        "sync_list"@ != "monitor_interval"@,
        "sync_list"@ != "monitor_fullscan_frequency"@,
        "download_only"@ != "upload_only"@,
        "download_only"@ != "no_remote_delete"@,
        "download_only"@ != "monitor_interval"@,
        "download_only"@ != "monitor_fullscan_frequency"@,
        "upload_only"@ != "no_remote_delete"@,
        "upload_only"@ != "monitor_interval"@,
        "upload_only"@ != "monitor_fullscan_frequency"@,
        "no_remote_delete"@ != "monitor_interval"@,
        "no_remote_delete"@ != "monitor_fullscan_frequency"@,
        "monitor_interval"@ != "monitor_fullscan_frequency"@,
        "display_transfer_metrics"@ != "sync_dir"@,
        "display_transfer_metrics"@ != "skip_file"@,
        "display_transfer_metrics"@ != "skip_dir"@,
        "display_transfer_metrics"@ != "sync_list"@,
        "display_transfer_metrics"@ != "download_only"@,
        "display_transfer_metrics"@ != "upload_only"@,
        "display_transfer_metrics"@ != "no_remote_delete"@,
        "display_transfer_metrics"@ != "monitor_interval"@,
        "display_transfer_metrics"@ != "monitor_fullscan_frequency"@,
{
    reveal_strlit("sync_dir");
    reveal_strlit("skip_file");
    reveal_strlit("skip_dir");
    reveal_strlit("sync_list");
    reveal_strlit("download_only");
    reveal_strlit("upload_only");
    reveal_strlit("no_remote_delete");
    reveal_strlit("monitor_interval");
    reveal_strlit("monitor_fullscan_frequency");
    reveal_strlit("display_transfer_metrics");
    assert("sync_dir"@.len() == 8);
    assert("skip_file"@.len() == 9);
    assert("skip_dir"@.len() == 8);
    assert("sync_list"@.len() == 9);
    assert("download_only"@.len() == 13);
    assert("upload_only"@.len() == 11);
    assert("no_remote_delete"@.len() == 16);
    assert("monitor_interval"@.len() == 16);
    assert("monitor_fullscan_frequency"@.len() == 26);
    assert("display_transfer_metrics"@.len() == 24);
    assert("sync_dir"@[1] != "skip_dir"@[1]);
    assert("skip_file"@[1] != "sync_list"@[1]);
    assert("no_remote_delete"@[0] != "monitor_interval"@[0]);
}

/// Reading the edited settings back from a configuration they were written into
/// gives the edit itself, normalized: what is written is what is read.
pub proof fn law_apply_edit_then_to_edit(ls: Seq<ConfigLineView>, e: ConfigEditView)
    ensures
        to_edit_spec(apply_edit_spec(ls, e)) == normalize_edit(e),
{
    lemma_managed_keys_distinct();
    let l1 = set_single_spec(ls, "sync_dir"@, e.sync_dir);
    let l2 = set_multi_spec(l1, "skip_file"@, e.skip_file);
    let l3 = set_multi_spec(l2, "skip_dir"@, e.skip_dir);
    let l4 = set_optional_spec(l3, "sync_list"@, e.sync_list);
    let l5 = set_bool_spec(l4, "download_only"@, e.download_only);
    let l6 = set_bool_spec(l5, "upload_only"@, e.upload_only);
    let l7 = set_bool_spec(l6, "no_remote_delete"@, e.no_remote_delete);
    let l8 = set_optional_spec(l7, "monitor_interval"@, e.monitor_interval);
    let l9 = set_optional_spec(l8, "monitor_fullscan_frequency"@, e.monitor_fullscan_frequency);
    let nt = Seq::<Seq<char>>::empty();
    let tt = Seq::<char>::empty();
    // sync_dir
    lemma_single_read_back(ls, "sync_dir"@, e.sync_dir);
    lemma_other_key_untouched(l1, "sync_dir"@, "skip_file"@, e.skip_file, tt, false);
    lemma_other_key_untouched(l2, "sync_dir"@, "skip_dir"@, e.skip_dir, tt, false);
    lemma_other_key_untouched(l3, "sync_dir"@, "sync_list"@, nt, e.sync_list, false);
    lemma_other_key_untouched(l4, "sync_dir"@, "download_only"@, nt, tt, e.download_only);
    lemma_other_key_untouched(l5, "sync_dir"@, "upload_only"@, nt, tt, e.upload_only);
    lemma_other_key_untouched(l6, "sync_dir"@, "no_remote_delete"@, nt, tt, e.no_remote_delete);
    lemma_other_key_untouched(l7, "sync_dir"@, "monitor_interval"@, nt, e.monitor_interval, false);
    lemma_other_key_untouched(l8, "sync_dir"@, "monitor_fullscan_frequency"@, nt, e.monitor_fullscan_frequency, false);
    // skip_file
    lemma_multi_read_back(l1, "skip_file"@, e.skip_file);
    lemma_other_key_untouched(l2, "skip_file"@, "skip_dir"@, e.skip_dir, tt, false);
    lemma_other_key_untouched(l3, "skip_file"@, "sync_list"@, nt, e.sync_list, false);
    lemma_other_key_untouched(l4, "skip_file"@, "download_only"@, nt, tt, e.download_only);
    lemma_other_key_untouched(l5, "skip_file"@, "upload_only"@, nt, tt, e.upload_only);
    lemma_other_key_untouched(l6, "skip_file"@, "no_remote_delete"@, nt, tt, e.no_remote_delete);
    lemma_other_key_untouched(l7, "skip_file"@, "monitor_interval"@, nt, e.monitor_interval, false);
    lemma_other_key_untouched(l8, "skip_file"@, "monitor_fullscan_frequency"@, nt, e.monitor_fullscan_frequency, false);
    // skip_dir
    lemma_multi_read_back(l2, "skip_dir"@, e.skip_dir);
    lemma_other_key_untouched(l3, "skip_dir"@, "sync_list"@, nt, e.sync_list, false);
    lemma_other_key_untouched(l4, "skip_dir"@, "download_only"@, nt, tt, e.download_only);
    lemma_other_key_untouched(l5, "skip_dir"@, "upload_only"@, nt, tt, e.upload_only);
    lemma_other_key_untouched(l6, "skip_dir"@, "no_remote_delete"@, nt, tt, e.no_remote_delete);
    lemma_other_key_untouched(l7, "skip_dir"@, "monitor_interval"@, nt, e.monitor_interval, false);
    lemma_other_key_untouched(l8, "skip_dir"@, "monitor_fullscan_frequency"@, nt, e.monitor_fullscan_frequency, false);
    // sync_list
    lemma_single_read_back(l3, "sync_list"@, e.sync_list);
    lemma_other_key_untouched(l4, "sync_list"@, "download_only"@, nt, tt, e.download_only);
    lemma_other_key_untouched(l5, "sync_list"@, "upload_only"@, nt, tt, e.upload_only);
    lemma_other_key_untouched(l6, "sync_list"@, "no_remote_delete"@, nt, tt, e.no_remote_delete);
    lemma_other_key_untouched(l7, "sync_list"@, "monitor_interval"@, nt, e.monitor_interval, false);
    lemma_other_key_untouched(l8, "sync_list"@, "monitor_fullscan_frequency"@, nt, e.monitor_fullscan_frequency, false);
    // download_only
    lemma_bool_read_back(l4, "download_only"@, e.download_only);
    lemma_other_key_untouched(l5, "download_only"@, "upload_only"@, nt, tt, e.upload_only);
    lemma_other_key_untouched(l6, "download_only"@, "no_remote_delete"@, nt, tt, e.no_remote_delete);
    lemma_other_key_untouched(l7, "download_only"@, "monitor_interval"@, nt, e.monitor_interval, false);
    lemma_other_key_untouched(l8, "download_only"@, "monitor_fullscan_frequency"@, nt, e.monitor_fullscan_frequency, false);
    // upload_only
    lemma_bool_read_back(l5, "upload_only"@, e.upload_only);
    lemma_other_key_untouched(l6, "upload_only"@, "no_remote_delete"@, nt, tt, e.no_remote_delete);
    lemma_other_key_untouched(l7, "upload_only"@, "monitor_interval"@, nt, e.monitor_interval, false);
    lemma_other_key_untouched(l8, "upload_only"@, "monitor_fullscan_frequency"@, nt, e.monitor_fullscan_frequency, false);
    // no_remote_delete
    lemma_bool_read_back(l6, "no_remote_delete"@, e.no_remote_delete);
    lemma_other_key_untouched(l7, "no_remote_delete"@, "monitor_interval"@, nt, e.monitor_interval, false);
    lemma_other_key_untouched(l8, "no_remote_delete"@, "monitor_fullscan_frequency"@, nt, e.monitor_fullscan_frequency, false);
    // monitor_interval
    lemma_single_read_back(l7, "monitor_interval"@, e.monitor_interval);
    lemma_other_key_untouched(l8, "monitor_interval"@, "monitor_fullscan_frequency"@, nt, e.monitor_fullscan_frequency, false);
    // monitor_fullscan_frequency
    lemma_single_read_back(l8, "monitor_fullscan_frequency"@, e.monitor_fullscan_frequency);
}

proof fn lemma_unmanaged_remove_key(ls: Seq<ConfigLineView>, k: Seq<char>)
    requires
        is_managed_key(k),
    ensures
        unmanaged_lines(remove_key_spec(ls, k)) == unmanaged_lines(ls),
    decreases ls.len(),
{
    if ls.len() > 0 {
        lemma_unmanaged_remove_key(ls.drop_last(), k);
        if !is_pair_of(ls.last(), k) {
            let r = remove_key_spec(ls.drop_last(), k);
            assert(r.push(ls.last()).drop_last() == r);
        }
    }
}

proof fn lemma_unmanaged_set(ls: Seq<ConfigLineView>, k: Seq<char>, v: Seq<Seq<char>>, t: Seq<char>, b: bool)
    requires
        is_managed_key(k),
    ensures
        unmanaged_lines(set_single_spec(ls, k, t)) == unmanaged_lines(ls),
        unmanaged_lines(set_multi_spec(ls, k, v)) == unmanaged_lines(ls),
        unmanaged_lines(set_optional_spec(ls, k, t)) == unmanaged_lines(ls),
        unmanaged_lines(set_bool_spec(ls, k, b)) == unmanaged_lines(ls),
{
    lemma_unmanaged_remove_key(ls, k);
    let r = remove_key_spec(ls, k);
    assert(r.push(ConfigLineView::Pair(k, seq![t])).drop_last() == r);
    assert(r.push(ConfigLineView::Pair(k, trimmed_nonempty(v))).drop_last() == r);
    assert(r.push(ConfigLineView::Pair(k, seq![true_text()])).drop_last() == r);
}

/// Writing an edit keeps every comment, blank line, unknown line and unmanaged
/// setting of the configuration, in its order.
pub proof fn law_apply_edit_keeps_other_lines(ls: Seq<ConfigLineView>, e: ConfigEditView)
    ensures
        unmanaged_lines(apply_edit_spec(ls, e)) == unmanaged_lines(ls),
{
    let nt = Seq::<Seq<char>>::empty();
    let tt = Seq::<char>::empty();
    let l1 = set_single_spec(ls, "sync_dir"@, e.sync_dir);
    let l2 = set_multi_spec(l1, "skip_file"@, e.skip_file);
    let l3 = set_multi_spec(l2, "skip_dir"@, e.skip_dir);
    let l4 = set_optional_spec(l3, "sync_list"@, e.sync_list);
    let l5 = set_bool_spec(l4, "download_only"@, e.download_only);
    let l6 = set_bool_spec(l5, "upload_only"@, e.upload_only);
    let l7 = set_bool_spec(l6, "no_remote_delete"@, e.no_remote_delete);
    let l8 = set_optional_spec(l7, "monitor_interval"@, e.monitor_interval);
    lemma_unmanaged_set(ls, "sync_dir"@, nt, e.sync_dir, false);
    lemma_unmanaged_set(l1, "skip_file"@, e.skip_file, tt, false);
    lemma_unmanaged_set(l2, "skip_dir"@, e.skip_dir, tt, false);
    lemma_unmanaged_set(l3, "sync_list"@, nt, e.sync_list, false);
    lemma_unmanaged_set(l4, "download_only"@, nt, tt, e.download_only);
    lemma_unmanaged_set(l5, "upload_only"@, nt, tt, e.upload_only);
    lemma_unmanaged_set(l6, "no_remote_delete"@, nt, tt, e.no_remote_delete);
    lemma_unmanaged_set(l7, "monitor_interval"@, nt, e.monitor_interval, false);
    lemma_unmanaged_set(l8, "monitor_fullscan_frequency"@, nt, e.monitor_fullscan_frequency, false);
}

/// Turning on transfer metrics makes `display_transfer_metrics` read `true` and
/// leaves the edited settings as they were.
pub proof fn law_enable_transfer_metrics(ls: Seq<ConfigLineView>)
    ensures
        single_value_spec(set_single_spec(ls, "display_transfer_metrics"@, true_text()), "display_transfer_metrics"@) == true_text(),
        to_edit_spec(set_single_spec(ls, "display_transfer_metrics"@, true_text())) == to_edit_spec(ls),
{
    lemma_managed_keys_distinct();
    lemma_single_read_back(ls, "display_transfer_metrics"@, true_text());
    lemma_true_text_trimmed();
    let d = "display_transfer_metrics"@;
    let v = seq![true_text()];
    lemma_values_set_values(ls, "sync_dir"@, d, v);
    lemma_values_set_values(ls, "skip_file"@, d, v);
    lemma_values_set_values(ls, "skip_dir"@, d, v);
    lemma_values_set_values(ls, "sync_list"@, d, v);
    lemma_values_set_values(ls, "download_only"@, d, v);
    lemma_values_set_values(ls, "upload_only"@, d, v);
    lemma_values_set_values(ls, "no_remote_delete"@, d, v);
    lemma_values_set_values(ls, "monitor_interval"@, d, v);
    lemma_values_set_values(ls, "monitor_fullscan_frequency"@, d, v);
}

} // verus!
