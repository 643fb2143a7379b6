//! Writing a configuration and reading it back: when its keys and values hold no
//! quoting, escaping or line-break characters, the settings read back from the
//! written text are the settings it held.
use vstd::prelude::*;

use crate::profile::config::{
    apply_edit_spec, single_value_spec, eq_quote, escape, flush, is_pair_of, law_apply_edit_then_to_edit,
    normalize_edit, parse_lines, parse_spec, parse_step, quote_nl, remove_key_spec,
    render_continuations, render_line, render_spec, set_bool_spec, set_multi_spec,
    set_optional_spec, set_single_spec, set_values_spec, tab_quote, to_edit_spec, true_text,
    trimmed_nonempty, values_spec, ConfigEditView, ConfigLineView, ParseState,
};
use crate::text::{
    in_class, index_of, is_ws, lead_len, lemma_index_of_is, lemma_lead_len_is, lemma_trail_len_is,
    lemma_trim_by_idempotent, lines, strip_cr, trail_len, trim, trim_by, trim_end_by,
    trim_start_by, CharClass,
};
use crate::profile::edit::{config_part, law_saved_edit_reads_back_without_sync_list};
use crate::utils::unquote_spec;

verus! {

// ---------------------------------------------------------------------------
// Text facts
// ---------------------------------------------------------------------------

/// Trimming a text whose class characters sit only before `a` and from `b` on leaves
/// the part between.
proof fn lemma_trim_by_is(s: Seq<char>, cls: CharClass, a: int, b: int)
    requires
        0 <= a < b <= s.len(),
        forall|j: int| 0 <= j < a ==> in_class(cls, #[trigger] s[j]),
        !in_class(cls, s[a]),
        !in_class(cls, s[b - 1]),
        forall|j: int| b <= j < s.len() ==> in_class(cls, #[trigger] s[j]),
    ensures
        trim_by(s, cls) == s.subrange(a, b),
{
    lemma_lead_len_is(s, cls, a);
    let u = s.skip(a);
    assert(trim_start_by(s, cls) == u);
    assert forall|j: int| u.len() - (s.len() - b) <= j < u.len() implies in_class(
        cls,
        #[trigger] u[j],
    ) by {
        assert(u[j] == s[j + a]);
    }
    assert(u[u.len() - (s.len() - b) - 1] == s[b - 1]);
    lemma_trail_len_is(u, cls, s.len() - b);
    assert(trim_end_by(u, cls) =~= s.subrange(a, b));
}

/// Facts `index_of` gives: the first position of the character, or none.
proof fn lemma_index_of_props(s: Seq<char>, c: char)
    ensures
        match index_of(s, c) {
            Some(i) => 0 <= i < s.len() && s[i] == c && forall|j: int| 0 <= j < i ==> #[trigger] s[j] != c,
            None => forall|j: int| 0 <= j < s.len() ==> #[trigger] s[j] != c,
        },
    decreases s.len(),
{
    if s.len() > 0 && s[0] != c {
        let t = s.drop_first();
        lemma_index_of_props(t, c);
        match index_of(t, c) {
            Some(i) => {
                assert forall|j: int| 0 <= j < i + 1 implies #[trigger] s[j] != c by {
                    if j > 0 {
                        assert(s[j] == t[j - 1]);
                    }
                }
                assert(s[i + 1] == t[i]);
            },
            None => {
                assert forall|j: int| 0 <= j < s.len() implies #[trigger] s[j] != c by {
                    if j > 0 {
                        assert(s[j] == t[j - 1]);
                    }
                }
            },
        }
    }
}

/// Splitting a text at line breaks splits each of two parts on its own, when the first
/// ends with a line break.
proof fn lemma_lines_concat(a: Seq<char>, b: Seq<char>)
    requires
        a.len() == 0 || a.last() == '\n',
    ensures
        lines(a + b) == lines(a) + lines(b),
    decreases a.len(),
{
    if a.len() == 0 {
        assert(a + b =~= b);
        assert(lines(a) + lines(b) =~= lines(b));
    } else {
        lemma_index_of_props(a, '\n');
        let i = index_of(a, '\n').unwrap();
        let s = a + b;
        assert forall|j: int| 0 <= j < i implies #[trigger] s[j] != '\n' by {
            assert(s[j] == a[j]);
        }
        assert(s[i] == a[i]);
        lemma_index_of_is(s, '\n', i);
        let rest = a.skip(i + 1);
        assert(s.take(i) =~= a.take(i));
        assert(s.skip(i + 1) =~= rest + b);
        if rest.len() > 0 {
            assert(rest.last() == a.last());
        }
        lemma_lines_concat(rest, b);
        assert(lines(s) =~= lines(a) + lines(b));
    }
}

/// A single line with its break splits into itself.
proof fn lemma_lines_one(x: Seq<char>)
    requires
        forall|j: int| 0 <= j < x.len() ==> #[trigger] x[j] != '\n',
        x.len() == 0 || x.last() != '\r',
    ensures
        lines(x.push('\n')) == seq![x],
{
    let s = x.push('\n');
    assert forall|j: int| 0 <= j < x.len() implies #[trigger] s[j] != '\n' by {
        assert(s[j] == x[j]);
    }
    lemma_index_of_is(s, '\n', x.len() as int);
    assert(s.take(x.len() as int) =~= x);
    assert(s.skip(x.len() as int + 1) =~= Seq::<char>::empty());
    assert(strip_cr(x) == x);
    assert(lines(Seq::<char>::empty()) =~= Seq::<Seq<char>>::empty());
    assert(lines(s) == seq![strip_cr(s.take(x.len() as int))] + lines(s.skip(x.len() as int + 1)));
    assert(seq![x] + Seq::<Seq<char>>::empty() =~= seq![x]);
}

/// No quoting, escaping or line-break character.
pub open spec fn clean_value(v: Seq<char>) -> bool {
    forall|j: int|
        0 <= j < v.len() ==> #[trigger] v[j] != '"' && v[j] != '\'' && v[j] != '\\' && v[j] != '\n'
            && v[j] != '\r'
}

proof fn lemma_escape_clean(v: Seq<char>)
    requires
        clean_value(v),
    ensures
        escape(v) == v,
    decreases v.len(),
{
    if v.len() > 0 {
        let w = v.drop_last();
        assert(clean_value(w)) by {
            assert forall|j: int| 0 <= j < w.len() implies #[trigger] w[j] != '"' && w[j] != '\''
                && w[j] != '\\' && w[j] != '\n' && w[j] != '\r' by {
                assert(w[j] == v[j]);
            }
        }
        lemma_escape_clean(w);
        assert(v[v.len() - 1] == v.last());
        assert(escape(v) =~= v);
    }
}

/// Reading a quoted clean value gives the value, trimmed.
proof fn lemma_unquote_clean(v: Seq<char>)
    requires
        clean_value(v),
    ensures
        unquote_spec(seq!['"'] + v + seq!['"']) == trim(v),
{
    let w = seq!['"'] + v + seq!['"'];
    assert(w[0] == '"' && w[w.len() - 1] == '"');
    lemma_trim_by_is(w, CharClass::Whitespace, 0, w.len() as int);
    assert(w.subrange(0, w.len() as int) =~= w);
    let q = CharClass::Exactly('"');
    if v.len() > 0 {
        assert(w[1] == v[0]);
        assert(w[w.len() - 2] == v[v.len() - 1]);
        lemma_trim_by_is(w, q, 1, w.len() - 1);
        assert(w.subrange(1, w.len() - 1) =~= v);
        assert(v[0] != '\'' && v[v.len() - 1] != '\'');
        lemma_trim_by_is(v, CharClass::Exactly('\''), 0, v.len() as int);
        assert(v.subrange(0, v.len() as int) =~= v);
    } else {
        lemma_lead_len_is(w, q, 2);
        assert(trim_start_by(w, q) =~= Seq::<char>::empty());
        assert(trim_by(w, q) =~= Seq::<char>::empty());
        assert(trim_by(Seq::<char>::empty(), CharClass::Exactly('\'')) =~= Seq::<char>::empty());
        assert(v =~= Seq::<char>::empty());
    }
}

// ---------------------------------------------------------------------------
// Clean configurations
// ---------------------------------------------------------------------------

/// A key written so that reading it back finds it: not blank, not starting or ending
/// in white space, not a comment, and without `=` or a line break.
pub open spec fn clean_key(k: Seq<char>) -> bool {
    &&& k.len() > 0
    &&& !is_ws(k[0])
    &&& !is_ws(k.last())
    &&& k[0] != '#'
    &&& forall|j: int| 0 <= j < k.len() ==> #[trigger] k[j] != '=' && k[j] != '\n' && k[j] != '\r'
}

/// A kept line that reads as a continuation value when it follows a setting line: it
/// is indented and is not a comment.
pub open spec fn loose_line(t: Seq<char>) -> bool {
    t.len() > 0 && is_ws(t[0]) && trim(t).len() > 0 && trim(t)[0] != '#'
}

pub open spec fn clean_line(l: ConfigLineView) -> bool {
    match l {
        ConfigLineView::Blank => true,
        ConfigLineView::Verbatim(t) => {
            &&& forall|j: int| 0 <= j < t.len() ==> #[trigger] t[j] != '\n' && t[j] != '\r'
            &&& trim(t).len() > 0
            &&& (trim(t)[0] == '#' || index_of(trim(t), '=') is None)
        },
        ConfigLineView::Pair(k, vs) => clean_key(k) && forall|j: int|
            0 <= j < vs.len() ==> clean_value(#[trigger] vs[j]),
    }
}

/// Every line clean, and no indented kept line right after a setting line.
pub open spec fn clean_lines(ls: Seq<ConfigLineView>) -> bool
    decreases ls.len(),
{
    if ls.len() == 0 {
        true
    } else {
        &&& clean_lines(ls.drop_last())
        &&& clean_line(ls.last())
        &&& ((ls.last() matches ConfigLineView::Verbatim(t) && loose_line(t)) ==> (ls.len() == 1
            || !(ls.drop_last().last() is Pair)))
    }
}

// ---------------------------------------------------------------------------
// The written lines
// ---------------------------------------------------------------------------

pub open spec fn first_line(k: Seq<char>, v: Seq<char>) -> Seq<char> {
    k + eq_quote() + v + seq!['"']
}

pub open spec fn cont_line(v: Seq<char>) -> Seq<char> {
    tab_quote() + v + seq!['"']
}

pub open spec fn cont_lines(vs: Seq<Seq<char>>) -> Seq<Seq<char>>
    decreases vs.len(),
{
    if vs.len() == 0 {
        seq![]
    } else {
        cont_lines(vs.drop_last()).push(cont_line(vs.last()))
    }
}

pub open spec fn pair_lines(k: Seq<char>, vals: Seq<Seq<char>>) -> Seq<Seq<char>> {
    seq![first_line(k, vals[0])] + cont_lines(vals.skip(1))
}

pub open spec fn parse_from(st: ParseState, ys: Seq<Seq<char>>) -> ParseState
    decreases ys.len(),
{
    if ys.len() == 0 {
        st
    } else {
        parse_step(parse_from(st, ys.drop_last()), ys.last())
    }
}

pub open spec fn trims(vs: Seq<Seq<char>>) -> Seq<Seq<char>> {
    vs.map_values(|v: Seq<char>| trim(v))
}

proof fn lemma_parse_lines_concat(xs: Seq<Seq<char>>, ys: Seq<Seq<char>>)
    ensures
        parse_lines(xs + ys) == parse_from(parse_lines(xs), ys),
    decreases ys.len(),
{
    if ys.len() == 0 {
        assert(xs + ys =~= xs);
    } else {
        lemma_parse_lines_concat(xs, ys.drop_last());
        assert((xs + ys).drop_last() =~= xs + ys.drop_last());
        assert((xs + ys).last() == ys.last());
    }
}

proof fn lemma_trims_nonempty(vs: Seq<Seq<char>>)
    ensures
        trimmed_nonempty(trims(vs)) == trimmed_nonempty(vs),
    decreases vs.len(),
{
    if vs.len() > 0 {
        lemma_trims_nonempty(vs.drop_last());
        assert(trims(vs).drop_last() =~= trims(vs.drop_last()));
        lemma_trim_by_idempotent(vs.last(), CharClass::Whitespace);
        assert(trims(vs).last() == trim(vs.last()));
    }
}

proof fn lemma_lines_continuations(vs: Seq<Seq<char>>)
    requires
        forall|j: int| 0 <= j < vs.len() ==> clean_value(#[trigger] vs[j]),
    ensures
        lines(render_continuations(vs)) == cont_lines(vs),
        render_continuations(vs).len() == 0 || render_continuations(vs).last() == '\n',
    decreases vs.len(),
{
    if vs.len() > 0 {
        let w = vs.drop_last();
        assert forall|j: int| 0 <= j < w.len() implies clean_value(#[trigger] w[j]) by {
            assert(w[j] == vs[j]);
        }
        lemma_lines_continuations(w);
        let v = vs.last();
        assert(clean_value(vs[vs.len() - 1]));
        lemma_escape_clean(v);
        let x = cont_line(v);
        assert(tab_quote() + escape(v) + quote_nl() =~= x.push('\n'));
        assert forall|j: int| 0 <= j < x.len() implies #[trigger] x[j] != '\n' by {
            if 2 <= j < x.len() - 1 {
                assert(x[j] == v[j - 2]);
            }
        }
        lemma_lines_one(x);
        lemma_lines_concat(render_continuations(w), x.push('\n'));
        assert(render_continuations(vs) == render_continuations(w) + x.push('\n'));
    }
}

/// A setting line starts a setting with its first value, trimmed.
proof fn lemma_parse_first(st: ParseState, k: Seq<char>, v: Seq<char>)
    requires
        clean_key(k),
        clean_value(v),
    ensures
        parse_step(st, first_line(k, v)) == (ParseState {
            done: flush(st),
            cur: Some((k, seq![trim(v)])),
        }),
{
    let raw = first_line(k, v);
    let n = k.len() as int;
    assert(raw[0] == k[0]);
    assert(raw[raw.len() - 1] == '"');
    lemma_trim_by_is(raw, CharClass::Whitespace, 0, raw.len() as int);
    assert(raw.subrange(0, raw.len() as int) =~= raw);
    let t = trim(raw);
    assert(t == raw);
    assert forall|j: int| 0 <= j < n + 1 implies #[trigger] t[j] != '=' by {
        if j < n {
            assert(t[j] == k[j]);
        } else {
            assert(t[j] == ' ');
        }
    }
    assert(t[n + 1] == '=');
    lemma_index_of_is(t, '=', n + 1);
    let head = t.take(n + 1);
    assert(head =~= k.push(' '));
    assert(head[n - 1] == k.last());
    lemma_trim_by_is(head, CharClass::Whitespace, 0, n);
    assert(head.subrange(0, n) =~= k);
    let tail = t.skip(n + 2);
    assert(tail =~= seq![' '] + (seq!['"'] + v + seq!['"']));
    assert(tail[1] == '"' && tail[tail.len() - 1] == '"');
    lemma_trim_by_is(tail, CharClass::Whitespace, 1, tail.len() as int);
    assert(tail.subrange(1, tail.len() as int) =~= seq!['"'] + v + seq!['"']);
    lemma_unquote_clean(v);
}

/// An indented quoted line adds a value, trimmed, to the open setting.
proof fn lemma_parse_cont(st: ParseState, k: Seq<char>, vs: Seq<Seq<char>>, v: Seq<char>)
    requires
        st.cur == Some((k, vs)),
        clean_value(v),
    ensures
        parse_step(st, cont_line(v)) == (ParseState { done: st.done, cur: Some((k, vs.push(trim(v)))) }),
{
    let raw = cont_line(v);
    assert(raw[0] == '\t');
    assert(raw[1] == '"' && raw[raw.len() - 1] == '"');
    lemma_trim_by_is(raw, CharClass::Whitespace, 1, raw.len() as int);
    assert(raw.subrange(1, raw.len() as int) =~= seq!['"'] + v + seq!['"']);
    lemma_unquote_clean(v);
}

/// A written setting reads back as that setting with its values trimmed.
proof fn lemma_parse_pair(st: ParseState, k: Seq<char>, vals: Seq<Seq<char>>)
    requires
        vals.len() >= 1,
        clean_key(k),
        forall|j: int| 0 <= j < vals.len() ==> clean_value(#[trigger] vals[j]),
    ensures
        parse_from(st, pair_lines(k, vals)) == (ParseState { done: flush(st), cur: Some((k, trims(vals))) }),
    decreases vals.len(),
{
    if vals.len() == 1 {
        assert(clean_value(vals[0]));
        assert(vals.skip(1) =~= Seq::<Seq<char>>::empty());
        assert(pair_lines(k, vals) =~= seq![first_line(k, vals[0])]);
        let one = seq![first_line(k, vals[0])];
        assert(one.drop_last() =~= Seq::<Seq<char>>::empty());
        assert(parse_from(st, one.drop_last()) == st);
        assert(parse_from(st, one) == parse_step(st, first_line(k, vals[0])));
        lemma_parse_first(st, k, vals[0]);
        assert(trims(vals) =~= seq![trim(vals[0])]);
    } else {
        let w = vals.drop_last();
        assert forall|j: int| 0 <= j < w.len() implies clean_value(#[trigger] w[j]) by {
            assert(w[j] == vals[j]);
        }
        lemma_parse_pair(st, k, w);
        assert(vals.skip(1).drop_last() =~= w.skip(1));
        assert(vals.skip(1).last() == vals.last());
        assert(w[0] == vals[0]);
        assert(pair_lines(k, vals) =~= pair_lines(k, w).push(cont_line(vals.last())));
        assert(pair_lines(k, vals).drop_last() =~= pair_lines(k, w));
        assert(clean_value(vals[vals.len() - 1]));
        lemma_parse_cont(parse_from(st, pair_lines(k, w)), k, trims(w), vals.last());
        assert(parse_from(st, pair_lines(k, vals)) == parse_step(
            parse_from(st, pair_lines(k, w)),
            cont_line(vals.last()),
        ));
        assert(trims(w).push(trim(vals.last())) =~= trims(vals));
    }
}

/// A setting is written (rather than left out) when it holds more than one value or
/// one non-blank value.
pub open spec fn written(vals: Seq<Seq<char>>) -> bool {
    vals.len() >= 2 || (vals.len() == 1 && trim(vals[0]).len() > 0)
}

proof fn lemma_lines_pair(k: Seq<char>, vals: Seq<Seq<char>>)
    requires
        clean_key(k),
        forall|j: int| 0 <= j < vals.len() ==> clean_value(#[trigger] vals[j]),
    ensures
        written(vals) ==> lines(render_line(ConfigLineView::Pair(k, vals))) == pair_lines(k, vals),
        !written(vals) ==> render_line(ConfigLineView::Pair(k, vals)).len() == 0,
        render_line(ConfigLineView::Pair(k, vals)).len() == 0 || render_line(
            ConfigLineView::Pair(k, vals),
        ).last() == '\n',
{
    if vals.len() >= 1 {
        let v = vals[0];
        assert(clean_value(v));
        lemma_escape_clean(v);
        let x = first_line(k, v);
        assert(k + eq_quote() + escape(v) + quote_nl() =~= x.push('\n'));
        assert forall|j: int| 0 <= j < x.len() implies #[trigger] x[j] != '\n' by {
            if j < k.len() {
                assert(x[j] == k[j]);
            } else if k.len() + 4 <= j < x.len() - 1 {
                assert(x[j] == v[j - k.len() - 4]);
            }
        }
        lemma_lines_one(x);
        let rest = vals.skip(1);
        assert forall|j: int| 0 <= j < rest.len() implies clean_value(#[trigger] rest[j]) by {
            assert(rest[j] == vals[j + 1]);
        }
        lemma_lines_continuations(rest);
        if vals.len() >= 2 {
            lemma_lines_concat(x.push('\n'), render_continuations(rest));
            assert(render_line(ConfigLineView::Pair(k, vals)) == x.push('\n') + render_continuations(rest));
            assert(lines(render_line(ConfigLineView::Pair(k, vals))) =~= pair_lines(k, vals));
            if render_continuations(rest).len() > 0 {
                assert((x.push('\n') + render_continuations(rest)).last() == render_continuations(rest).last());
            }
        } else {
            assert(rest =~= Seq::<Seq<char>>::empty());
            assert(cont_lines(rest) =~= Seq::<Seq<char>>::empty());
            assert(pair_lines(k, vals) =~= seq![x]);
        }
    }
}

/// The parser state after reading back the written lines.
pub open spec fn rendered_state(ls: Seq<ConfigLineView>) -> ParseState {
    parse_lines(lines(render_spec(ls)))
}

proof fn lemma_values_push_line(ls: Seq<ConfigLineView>, l: ConfigLineView, key: Seq<char>)
    ensures
        values_spec(ls.push(l), key) == (match l {
            ConfigLineView::Pair(k, v) => if k == key {
                values_spec(ls, key) + trimmed_nonempty(v)
            } else {
                values_spec(ls, key)
            },
            _ => values_spec(ls, key),
        }),
{
    assert(ls.push(l).drop_last() =~= ls);
    assert(ls.push(l).last() == l);
}

proof fn lemma_parse_from_one(st: ParseState, x: Seq<char>)
    ensures
        parse_from(st, seq![x]) == parse_step(st, x),
{
    assert(seq![x].drop_last() =~= Seq::<Seq<char>>::empty());
    assert(parse_from(st, Seq::<Seq<char>>::empty()) == st);
}

/// What reading back has found after the lines `pre`.
pub open spec fn read_back_ok(pre: Seq<ConfigLineView>) -> bool {
    &&& forall|key: Seq<char>| #[trigger] values_spec(flush(rendered_state(pre)), key) == values_spec(pre, key)
    &&& (pre.len() == 0 || !(pre.last() is Pair)) ==> rendered_state(pre).cur is None
    &&& render_spec(pre).len() == 0 || render_spec(pre).last() == '\n'
}

/// One more line keeps reading back right.
proof fn lemma_read_back_step(pre: Seq<ConfigLineView>, l: ConfigLineView)
    requires
        read_back_ok(pre),
        clean_line(l),
        (l matches ConfigLineView::Verbatim(t) && loose_line(t)) ==> (pre.len() == 0 || !(pre.last() is Pair)),
    ensures
        read_back_ok(pre.push(l)),
{
    let ls = pre.push(l);
    assert(ls.drop_last() =~= pre);
    assert(ls.last() == l);
    let st = rendered_state(pre);
    let a = render_spec(pre);
    let b = render_line(l);
    assert(render_spec(ls) == a + b);
    lemma_lines_concat(a, b);
    lemma_parse_lines_concat(lines(a), lines(b));
    assert(rendered_state(ls) == parse_from(st, lines(b)));
    let st2 = rendered_state(ls);
    match l {
        ConfigLineView::Blank => {
            lemma_lines_one(Seq::<char>::empty());
            assert(b =~= Seq::<char>::empty().push('\n'));
            lemma_parse_from_one(st, Seq::<char>::empty());
            assert(trim(Seq::<char>::empty()) =~= Seq::<char>::empty());
            assert(st2 == ParseState { done: flush(st).push(ConfigLineView::Blank), cur: None });
            assert forall|key: Seq<char>| #[trigger] values_spec(flush(st2), key) == values_spec(ls, key) by {
                lemma_values_push_line(flush(st), ConfigLineView::Blank, key);
                lemma_values_push_line(pre, ConfigLineView::Blank, key);
            }
        },
        ConfigLineView::Verbatim(t) => {
            lemma_lines_one(t);
            assert(b == t.push('\n'));
            lemma_parse_from_one(st, t);
            assert(st2 == ParseState { done: flush(st).push(ConfigLineView::Verbatim(t)), cur: None });
            assert forall|key: Seq<char>| #[trigger] values_spec(flush(st2), key) == values_spec(ls, key) by {
                lemma_values_push_line(flush(st), l, key);
                lemma_values_push_line(pre, l, key);
            }
        },
        ConfigLineView::Pair(k, vals) => {
            lemma_lines_pair(k, vals);
            if written(vals) {
                lemma_parse_pair(st, k, vals);
                assert(st2 == ParseState { done: flush(st), cur: Some((k, trims(vals))) });
                lemma_trims_nonempty(vals);
                assert forall|key: Seq<char>| #[trigger] values_spec(flush(st2), key) == values_spec(ls, key) by {
                    lemma_values_push_line(flush(st), ConfigLineView::Pair(k, trims(vals)), key);
                    lemma_values_push_line(pre, l, key);
                }
            } else {
                assert(b =~= Seq::<char>::empty());
                assert(lines(b) =~= Seq::<Seq<char>>::empty());
                assert(st2 == st);
                assert(trimmed_nonempty(vals) =~= Seq::<Seq<char>>::empty()) by {
                    assert(trimmed_nonempty(Seq::<Seq<char>>::empty()) =~= Seq::<Seq<char>>::empty());
                    if vals.len() == 1 {
                        assert(vals.drop_last() =~= Seq::<Seq<char>>::empty());
                        assert(vals.last() == vals[0]);
                    }
                }
                assert forall|key: Seq<char>| #[trigger] values_spec(flush(st2), key) == values_spec(ls, key) by {
                    lemma_values_push_line(pre, l, key);
                    assert(values_spec(pre, key) + Seq::<Seq<char>>::empty() =~= values_spec(pre, key));
                }
            }
        },
    }
    if b.len() > 0 {
        assert((a + b).last() == b.last());
    } else {
        assert(a + b =~= a);
    }
}

/// Reading back the written text of clean lines finds the values they hold.
proof fn lemma_render_then_parse(ls: Seq<ConfigLineView>)
    requires
        clean_lines(ls),
    ensures
        read_back_ok(ls),
    decreases ls.len(),
{
    if ls.len() == 0 {
        assert(render_spec(ls) =~= Seq::<char>::empty());
        assert(lines(Seq::<char>::empty()) =~= Seq::<Seq<char>>::empty());
        assert(flush(rendered_state(ls)) =~= Seq::<ConfigLineView>::empty());
    } else {
        let pre = ls.drop_last();
        lemma_render_then_parse(pre);
        lemma_read_back_step(pre, ls.last());
        assert(pre.push(ls.last()) =~= ls);
    }
}

// ---------------------------------------------------------------------------
// Edits keep a configuration clean
// ---------------------------------------------------------------------------

proof fn lemma_clean_push(ls: Seq<ConfigLineView>, l: ConfigLineView)
    requires
        clean_lines(ls),
        clean_line(l),
        !(l is Verbatim),
    ensures
        clean_lines(ls.push(l)),
{
    assert(ls.push(l).drop_last() =~= ls);
}

/// Removing a setting's lines keeps the configuration clean, and keeps a last line
/// that is not a setting.
proof fn lemma_remove_key_clean(ls: Seq<ConfigLineView>, key: Seq<char>)
    requires
        clean_lines(ls),
    ensures
        clean_lines(remove_key_spec(ls, key)),
        ls.len() > 0 && !(ls.last() is Pair) ==> remove_key_spec(ls, key).len() > 0
            && remove_key_spec(ls, key).last() == ls.last(),
    decreases ls.len(),
{
    if ls.len() > 0 {
        let pre = ls.drop_last();
        let l = ls.last();
        lemma_remove_key_clean(pre, key);
        let r = remove_key_spec(pre, key);
        if !is_pair_of(l, key) {
            let out = r.push(l);
            assert(remove_key_spec(ls, key) == out);
            assert(out.drop_last() =~= r);
            assert(out.last() == l);
            if pre.len() == 0 {
                assert(r =~= Seq::<ConfigLineView>::empty());
            }
        }
    }
}

proof fn lemma_set_values_clean(ls: Seq<ConfigLineView>, key: Seq<char>, vs: Seq<Seq<char>>)
    requires
        clean_lines(ls),
        clean_key(key),
        forall|j: int| 0 <= j < vs.len() ==> clean_value(#[trigger] vs[j]),
    ensures
        clean_lines(set_values_spec(ls, key, vs)),
{
    lemma_remove_key_clean(ls, key);
    lemma_clean_push(remove_key_spec(ls, key), ConfigLineView::Pair(key, vs));
}

proof fn lemma_trim_clean(v: Seq<char>)
    requires
        clean_value(v),
    ensures
        clean_value(trim(v)),
{
    crate::text::lemma_lead_len_bounded(v, CharClass::Whitespace);
    let a = trim_start_by(v, CharClass::Whitespace);
    crate::text::lemma_trail_len_bounded(a, CharClass::Whitespace);
    let t = trim(v);
    assert forall|j: int| 0 <= j < t.len() implies #[trigger] t[j] != '"' && t[j] != '\'' && t[j]
        != '\\' && t[j] != '\n' && t[j] != '\r' by {
        assert(t[j] == a[j]);
        assert(a[j] == v[j + lead_len(v, CharClass::Whitespace)]);
    }
}

proof fn lemma_trimmed_nonempty_clean(vs: Seq<Seq<char>>)
    requires
        forall|j: int| 0 <= j < vs.len() ==> clean_value(#[trigger] vs[j]),
    ensures
        forall|j: int|
            0 <= j < trimmed_nonempty(vs).len() ==> clean_value(#[trigger] trimmed_nonempty(vs)[j]),
    decreases vs.len(),
{
    if vs.len() > 0 {
        let w = vs.drop_last();
        assert forall|j: int| 0 <= j < w.len() implies clean_value(#[trigger] w[j]) by {
            assert(w[j] == vs[j]);
        }
        lemma_trimmed_nonempty_clean(w);
        assert(clean_value(vs[vs.len() - 1]));
        lemma_trim_clean(vs.last());
        let r = trimmed_nonempty(vs);
        let rw = trimmed_nonempty(w);
        if trim(vs.last()).len() > 0 {
            assert(r == rw.push(trim(vs.last())));
            assert forall|j: int| 0 <= j < r.len() implies clean_value(#[trigger] r[j]) by {
                if j < rw.len() {
                    assert(r[j] == rw[j]);
                }
            }
        } else {
            assert(r == rw);
        }
    }
}

proof fn lemma_set_multi_clean(ls: Seq<ConfigLineView>, key: Seq<char>, vs: Seq<Seq<char>>)
    requires
        clean_lines(ls),
        clean_key(key),
        forall|j: int| 0 <= j < vs.len() ==> clean_value(#[trigger] vs[j]),
    ensures
        clean_lines(set_multi_spec(ls, key, vs)),
{
    lemma_trimmed_nonempty_clean(vs);
    lemma_remove_key_clean(ls, key);
    if trimmed_nonempty(vs).len() > 0 {
        lemma_set_values_clean(ls, key, trimmed_nonempty(vs));
    }
}

proof fn lemma_set_single_clean(ls: Seq<ConfigLineView>, key: Seq<char>, v: Seq<char>)
    requires
        clean_lines(ls),
        clean_key(key),
        clean_value(v),
    ensures
        clean_lines(set_single_spec(ls, key, v)),
        clean_lines(set_optional_spec(ls, key, v)),
{
    assert(seq![v][0] == v);
    lemma_set_values_clean(ls, key, seq![v]);
    lemma_remove_key_clean(ls, key);
}

proof fn lemma_set_bool_clean(ls: Seq<ConfigLineView>, key: Seq<char>, b: bool)
    requires
        clean_lines(ls),
        clean_key(key),
    ensures
        clean_lines(set_bool_spec(ls, key, b)),
{
    assert(clean_value(true_text()));
    lemma_set_single_clean(ls, key, true_text());
    lemma_remove_key_clean(ls, key);
}

/// The ten keys OneSync writes are clean.
proof fn lemma_written_keys_clean()
    ensures
        clean_key("sync_dir"@),
        clean_key("skip_file"@),
        clean_key("skip_dir"@),
        clean_key("sync_list"@),
        clean_key("download_only"@),
        clean_key("upload_only"@),
        clean_key("no_remote_delete"@),
        clean_key("monitor_interval"@),
        clean_key("monitor_fullscan_frequency"@),
        clean_key("display_transfer_metrics"@),
{
    reveal_strlit("sync_dir");
    reveal_strlit("skip_file");
    reveal_strlit("skip_dir");
    reveal_strlit("sync_list");
    reveal_strlit("download_only");
    reveal_strlit("upload_only");
    reveal_strlit("no_remote_delete");
    reveal_strlit("monitor_interval");
    reveal_strlit("monitor_fullscan_frequency");
    reveal_strlit("display_transfer_metrics");
}

/// Every text of an edit is clean.
pub open spec fn clean_edit(e: ConfigEditView) -> bool {
    &&& clean_value(e.sync_dir)
    &&& forall|j: int| 0 <= j < e.skip_file.len() ==> clean_value(#[trigger] e.skip_file[j])
    &&& forall|j: int| 0 <= j < e.skip_dir.len() ==> clean_value(#[trigger] e.skip_dir[j])
    &&& clean_value(e.sync_list)
    &&& clean_value(e.monitor_interval)
    &&& clean_value(e.monitor_fullscan_frequency)
}

/// Writing a clean edit into a clean configuration keeps it clean.
pub proof fn lemma_apply_edit_clean(ls: Seq<ConfigLineView>, e: ConfigEditView)
    requires
        clean_lines(ls),
        clean_edit(e),
    ensures
        clean_lines(apply_edit_spec(ls, e)),
{
    lemma_written_keys_clean();
    let l1 = set_single_spec(ls, "sync_dir"@, e.sync_dir);
    lemma_set_single_clean(ls, "sync_dir"@, e.sync_dir);
    let l2 = set_multi_spec(l1, "skip_file"@, e.skip_file);
    lemma_set_multi_clean(l1, "skip_file"@, e.skip_file);
    let l3 = set_multi_spec(l2, "skip_dir"@, e.skip_dir);
    lemma_set_multi_clean(l2, "skip_dir"@, e.skip_dir);
    let l4 = set_optional_spec(l3, "sync_list"@, e.sync_list);
    lemma_set_single_clean(l3, "sync_list"@, e.sync_list);
    let l5 = set_bool_spec(l4, "download_only"@, e.download_only);
    lemma_set_bool_clean(l4, "download_only"@, e.download_only);
    let l6 = set_bool_spec(l5, "upload_only"@, e.upload_only);
    lemma_set_bool_clean(l5, "upload_only"@, e.upload_only);
    let l7 = set_bool_spec(l6, "no_remote_delete"@, e.no_remote_delete);
    lemma_set_bool_clean(l6, "no_remote_delete"@, e.no_remote_delete);
    let l8 = set_optional_spec(l7, "monitor_interval"@, e.monitor_interval);
    lemma_set_single_clean(l7, "monitor_interval"@, e.monitor_interval);
    lemma_set_single_clean(l8, "monitor_fullscan_frequency"@, e.monitor_fullscan_frequency);
}

/// Turning on transfer metrics keeps a clean configuration clean.
pub proof fn lemma_enable_metrics_clean(ls: Seq<ConfigLineView>)
    requires
        clean_lines(ls),
    ensures
        clean_lines(set_single_spec(ls, "display_transfer_metrics"@, true_text())),
{
    lemma_written_keys_clean();
    assert(clean_value(true_text()));
    lemma_set_single_clean(ls, "display_transfer_metrics"@, true_text());
}

// ---------------------------------------------------------------------------
// What reading a clean text gives is clean
// ---------------------------------------------------------------------------

/// No line-break character.
pub open spec fn no_breaks(v: Seq<char>) -> bool {
    forall|j: int| 0 <= j < v.len() ==> #[trigger] v[j] != '\n' && v[j] != '\r'
}

/// A line of a configuration text that reads back cleanly: no carriage return in it;
/// and unless it is blank or a comment, it does not start with `=` (every setting has
/// a key), the value after its first `=` unquotes to clean text, and, when it is
/// indented (so that it may continue the setting above), the whole line unquotes to
/// clean text. A `key = "value"` line and a `\t"value"` continuation line qualify
/// whenever their values hold no quoting, escaping or line-break character.
pub open spec fn readable_line(r: Seq<char>) -> bool {
    let t = trim(r);
    &&& forall|j: int| 0 <= j < r.len() ==> #[trigger] r[j] != '\r'
    &&& (t.len() > 0 && t[0] != '#') ==> {
        &&& t[0] != '='
        &&& (is_ws(r[0]) ==> clean_value(unquote_spec(t)))
        &&& (index_of(t, '=') matches Some(i) ==> clean_value(unquote_spec(trim(t.skip(i + 1)))))
    }
}

/// A configuration text all of whose lines read back cleanly.
pub open spec fn readable_text(c: Seq<char>) -> bool {
    forall|i: int| 0 <= i < lines(c).len() ==> readable_line(#[trigger] lines(c)[i])
}

proof fn lemma_lines_no_newline(s: Seq<char>)
    ensures
        forall|i: int, j: int|
            0 <= i < lines(s).len() && 0 <= j < lines(s)[i].len() ==> #[trigger] lines(s)[i][j] != '\n',
    decreases s.len(),
{
    if s.len() > 0 {
        lemma_index_of_props(s, '\n');
        match index_of(s, '\n') {
            Some(i) => {
                let rest = s.skip(i + 1);
                lemma_lines_no_newline(rest);
                let x = strip_cr(s.take(i));
                let ls = lines(s);
                assert(ls == seq![x] + lines(rest));
                assert forall|k: int, j: int| 0 <= k < ls.len() && 0 <= j < ls[k].len() implies #[trigger] ls[k][j]
                    != '\n' by {
                    if k > 0 {
                        assert(ls[k] == lines(rest)[k - 1]);
                    } else {
                        assert(ls[k][j] == s[j]);
                    }
                }
            },
            None => {
                assert(lines(s) == seq![s]);
            },
        }
    }
}

/// A key read from a line that starts with something other than `=` or `#`.
proof fn lemma_read_key_clean(t: Seq<char>, i: int)
    requires
        no_breaks(t),
        0 < i < t.len(),
        !is_ws(t[0]),
        t[0] != '#',
        forall|j: int| 0 <= j < i ==> #[trigger] t[j] != '=',
    ensures
        clean_key(trim(t.take(i))),
{
    let x = t.take(i);
    let ws = CharClass::Whitespace;
    lemma_lead_len_is(x, ws, 0);
    let a = trim_start_by(x, ws);
    assert(a =~= x);
    crate::text::lemma_trail_len_stops(x, ws);
    let tr = trail_len(x, ws);
    assert(tr < x.len()) by {
        if tr == x.len() {
            assert(in_class(ws, x[0]));
        }
    }
    let k = trim(x);
    assert(k == x.take(x.len() - tr));
    assert(k[0] == t[0]);
    assert(k[k.len() - 1] == x[x.len() - tr - 1]);
    assert forall|j: int| 0 <= j < k.len() implies #[trigger] k[j] != '=' && k[j] != '\n' && k[j] != '\r' by {
        assert(k[j] == t[j]);
    }
}

/// What the parser holds while reading a clean text.
pub open spec fn read_ok(st: ParseState) -> bool {
    &&& clean_lines(st.done)
    &&& match st.cur {
        None => st.done.len() == 0 || !(st.done.last() is Pair),
        Some((k, vs)) => clean_line(ConfigLineView::Pair(k, vs)),
    }
}

proof fn lemma_flush_clean(st: ParseState)
    requires
        read_ok(st),
    ensures
        clean_lines(flush(st)),
        st.cur is None ==> flush(st) == st.done,
{
    match st.cur {
        Some((k, vs)) => lemma_clean_push(st.done, ConfigLineView::Pair(k, vs)),
        None => {},
    }
}

proof fn lemma_push_verbatim_clean(ls: Seq<ConfigLineView>, t: Seq<char>)
    requires
        clean_lines(ls),
        clean_line(ConfigLineView::Verbatim(t)),
        loose_line(t) ==> (ls.len() == 0 || !(ls.last() is Pair)),
    ensures
        clean_lines(ls.push(ConfigLineView::Verbatim(t))),
{
    assert(ls.push(ConfigLineView::Verbatim(t)).drop_last() =~= ls);
}

proof fn lemma_pair_values_clean(st: ParseState, k: Seq<char>, vs: Seq<Seq<char>>)
    requires
        read_ok(st),
        st.cur == Some((k, vs)),
    ensures
        clean_key(k),
        forall|j: int| 0 <= j < vs.len() ==> clean_value(#[trigger] vs[j]),
{
    assert(clean_line(ConfigLineView::Pair(k, vs)));
}

proof fn lemma_trim_no_breaks(v: Seq<char>)
    requires
        no_breaks(v),
    ensures
        no_breaks(trim(v)),
{
    crate::text::lemma_lead_len_bounded(v, CharClass::Whitespace);
    let a = trim_start_by(v, CharClass::Whitespace);
    crate::text::lemma_trail_len_bounded(a, CharClass::Whitespace);
    let t = trim(v);
    assert forall|j: int| 0 <= j < t.len() implies #[trigger] t[j] != '\n' && t[j] != '\r' by {
        assert(t[j] == a[j]);
        assert(a[j] == v[j + lead_len(v, CharClass::Whitespace)]);
    }
}

proof fn lemma_read_step(st: ParseState, raw: Seq<char>)
    requires
        read_ok(st),
        no_breaks(raw),
        readable_line(raw),
    ensures
        read_ok(parse_step(st, raw)),
{
    let t = trim(raw);
    lemma_trim_no_breaks(raw);
    if raw.len() > 0 && is_ws(raw[0]) && st.cur is Some && t.len() > 0 && t[0] != '#' {
        match st.cur {
            Some((k, vs)) => {
                let nv = vs.push(unquote_spec(t));
                lemma_pair_values_clean(st, k, vs);
                assert forall|j: int| 0 <= j < nv.len() implies clean_value(#[trigger] nv[j]) by {
                    if j < vs.len() {
                        assert(nv[j] == vs[j]);
                        assert(clean_value(vs[j]));
                    } else {
                        assert(nv[j] == unquote_spec(t));
                    }
                }
            },
            None => {},
        }
    } else {
        lemma_flush_clean(st);
        let done = flush(st);
        if t.len() == 0 {
            lemma_clean_push(done, ConfigLineView::Blank);
        } else if t[0] == '#' {
            lemma_push_verbatim_clean(done, raw);
        } else {
            lemma_index_of_props(t, '=');
            match index_of(t, '=') {
                Some(i) => {
                    crate::text::lemma_lead_len_stops(raw, CharClass::Whitespace);
                    let a = trim_start_by(raw, CharClass::Whitespace);
                    crate::text::lemma_trail_len_bounded(a, CharClass::Whitespace);
                    assert(t[0] == a[0]);
                    assert(a[0] == raw[lead_len(raw, CharClass::Whitespace) as int]);
                    assert(!is_ws(t[0]));
                    lemma_read_key_clean(t, i);
                    let vs = seq![unquote_spec(trim(t.skip(i + 1)))];
                    assert(vs[0] == unquote_spec(trim(t.skip(i + 1))));
                },
                None => {
                    if loose_line(raw) {
                        assert(st.cur is None);
                    }
                    lemma_push_verbatim_clean(done, raw);
                },
            }
        }
    }
}

proof fn lemma_read_lines(rs: Seq<Seq<char>>)
    requires
        forall|i: int| 0 <= i < rs.len() ==> no_breaks(#[trigger] rs[i]),
        forall|i: int| 0 <= i < rs.len() ==> readable_line(#[trigger] rs[i]),
    ensures
        read_ok(parse_lines(rs)),
    decreases rs.len(),
{
    if rs.len() > 0 {
        let w = rs.drop_last();
        assert forall|i: int| 0 <= i < w.len() implies no_breaks(#[trigger] w[i]) by {
            assert(w[i] == rs[i]);
        }
        assert forall|i: int| 0 <= i < w.len() implies readable_line(#[trigger] w[i]) by {
            assert(w[i] == rs[i]);
        }
        lemma_read_lines(w);
        assert(no_breaks(rs[rs.len() - 1]));
        assert(readable_line(rs[rs.len() - 1]));
        lemma_read_step(parse_lines(w), rs.last());
    } else {
        assert(clean_lines(Seq::<ConfigLineView>::empty()));
    }
}

/// Reading a text whose lines read back cleanly gives a clean configuration.
pub proof fn lemma_parse_clean(c: Seq<char>)
    requires
        readable_text(c),
    ensures
        clean_lines(parse_spec(c)),
{
    lemma_lines_no_newline(c);
    let ls = lines(c);
    assert forall|i: int| 0 <= i < ls.len() implies no_breaks(#[trigger] ls[i]) by {
        assert(readable_line(ls[i]));
        assert forall|j: int| 0 <= j < ls[i].len() implies #[trigger] ls[i][j] != '\n' && ls[i][j] != '\r' by {
            assert(ls[i][j] != '\n');
        }
    }
    lemma_read_lines(ls);
    lemma_flush_clean(parse_lines(ls));
}

// ---------------------------------------------------------------------------
// Laws
// ---------------------------------------------------------------------------

/// Writing a clean configuration and reading the text back gives every setting's
/// values as they were, and so the same edited settings.
pub proof fn law_written_config_reads_back(ls: Seq<ConfigLineView>)
    requires
        clean_lines(ls),
    ensures
        forall|key: Seq<char>| #[trigger] values_spec(parse_spec(render_spec(ls)), key) == values_spec(ls, key),
        to_edit_spec(parse_spec(render_spec(ls))) == to_edit_spec(ls),
{
    lemma_render_then_parse(ls);
    assert(parse_spec(render_spec(ls)) == flush(rendered_state(ls)));
    let p = parse_spec(render_spec(ls));
    assert(values_spec(p, "sync_dir"@) == values_spec(ls, "sync_dir"@));
    assert(values_spec(p, "skip_file"@) == values_spec(ls, "skip_file"@));
    assert(values_spec(p, "skip_dir"@) == values_spec(ls, "skip_dir"@));
    assert(values_spec(p, "sync_list"@) == values_spec(ls, "sync_list"@));
    assert(values_spec(p, "download_only"@) == values_spec(ls, "download_only"@));
    assert(values_spec(p, "upload_only"@) == values_spec(ls, "upload_only"@));
    assert(values_spec(p, "no_remote_delete"@) == values_spec(ls, "no_remote_delete"@));
    assert(values_spec(p, "monitor_interval"@) == values_spec(ls, "monitor_interval"@));
    assert(values_spec(p, "monitor_fullscan_frequency"@) == values_spec(ls, "monitor_fullscan_frequency"@));
}

/// A clean edit written into a clean configuration and read back from the written
/// text gives the edit, normalized.
pub proof fn law_edited_config_reads_back(ls: Seq<ConfigLineView>, e: ConfigEditView)
    requires
        clean_lines(ls),
        clean_edit(e),
    ensures
        to_edit_spec(parse_spec(render_spec(apply_edit_spec(ls, e)))) == normalize_edit(e),
{
    lemma_apply_edit_clean(ls, e);
    law_written_config_reads_back(apply_edit_spec(ls, e));
    law_apply_edit_then_to_edit(ls, e);
}

/// Turning on transfer metrics and writing the configuration leaves every setting
/// read back from the text as the configuration held it.
pub proof fn law_metrics_config_reads_back(ls: Seq<ConfigLineView>)
    requires
        clean_lines(ls),
    ensures
        ({
            let m = set_single_spec(ls, "display_transfer_metrics"@, true_text());
            forall|key: Seq<char>| #[trigger] values_spec(parse_spec(render_spec(m)), key) == values_spec(m, key)
        }),
{
    lemma_enable_metrics_clean(ls);
    law_written_config_reads_back(set_single_spec(ls, "display_transfer_metrics"@, true_text()));
}

proof fn lemma_trimmed_nonempty_nonblank(vs: Seq<Seq<char>>)
    ensures
        forall|j: int| 0 <= j < trimmed_nonempty(vs).len() ==> #[trigger] trimmed_nonempty(vs)[j].len() > 0,
    decreases vs.len(),
{
    if vs.len() > 0 {
        let w = vs.drop_last();
        lemma_trimmed_nonempty_nonblank(w);
        let r = trimmed_nonempty(vs);
        let rw = trimmed_nonempty(w);
        if trim(vs.last()).len() > 0 {
            assert(r == rw.push(trim(vs.last())));
            assert forall|j: int| 0 <= j < r.len() implies #[trigger] r[j].len() > 0 by {
                if j < rw.len() {
                    assert(r[j] == rw[j]);
                }
            }
        } else {
            assert(r == rw);
        }
    }
}

proof fn lemma_values_nonblank(ls: Seq<ConfigLineView>, key: Seq<char>)
    ensures
        forall|j: int| 0 <= j < values_spec(ls, key).len() ==> #[trigger] values_spec(ls, key)[j].len() > 0,
    decreases ls.len(),
{
    if ls.len() > 0 {
        let pre = ls.drop_last();
        lemma_values_nonblank(pre, key);
        let vp = values_spec(pre, key);
        let v = values_spec(ls, key);
        match ls.last() {
            ConfigLineView::Pair(k, vals) => {
                if k == key {
                    lemma_trimmed_nonempty_nonblank(vals);
                    let t = trimmed_nonempty(vals);
                    assert(v == vp + t);
                    assert forall|j: int| 0 <= j < v.len() implies #[trigger] v[j].len() > 0 by {
                        if j < vp.len() {
                            assert(v[j] == vp[j]);
                        } else {
                            assert(v[j] == t[j - vp.len()]);
                        }
                    }
                }
            },
            _ => {},
        }
    }
}

/// A saved profile edit (the selective-sync list left out of the configuration) read
/// back from the written file gives the edit, normalized, with no selective-sync list
/// setting in the file.
pub proof fn law_saved_profile_file_reads_back(ls: Seq<ConfigLineView>, e: ConfigEditView)
    requires
        clean_lines(ls),
        clean_edit(e),
    ensures
        ({
            let written = parse_spec(render_spec(apply_edit_spec(ls, config_part(e))));
            &&& to_edit_spec(written) == config_part(normalize_edit(e))
            &&& values_spec(written, "sync_list"@).len() == 0
        }),
{
    let c = config_part(e);
    assert(clean_edit(c));
    lemma_apply_edit_clean(ls, c);
    law_written_config_reads_back(apply_edit_spec(ls, c));
    law_saved_edit_reads_back_without_sync_list(ls, e);
    let written = parse_spec(render_spec(apply_edit_spec(ls, c)));
    lemma_values_nonblank(written, "sync_list"@);
    assert(single_value_spec(written, "sync_list"@) == Seq::<char>::empty());
    if values_spec(written, "sync_list"@).len() > 0 {
        assert(values_spec(written, "sync_list"@)[0].len() > 0);
    }
}

/// A configuration read from a text whose lines read back cleanly is written back
/// without losing a setting;
/// so is it after a clean edit (which reads back as the edit, normalized) and after
/// turning on transfer metrics.
pub proof fn law_read_config_round_trips(c: Seq<char>, e: ConfigEditView)
    requires
        readable_text(c),
        clean_edit(e),
    ensures
        to_edit_spec(parse_spec(render_spec(parse_spec(c)))) == to_edit_spec(parse_spec(c)),
        to_edit_spec(parse_spec(render_spec(apply_edit_spec(parse_spec(c), e)))) == normalize_edit(e),
        ({
            let m = set_single_spec(parse_spec(c), "display_transfer_metrics"@, true_text());
            to_edit_spec(parse_spec(render_spec(m))) == to_edit_spec(m)
        }),
{
    lemma_parse_clean(c);
    law_written_config_reads_back(parse_spec(c));
    law_edited_config_reads_back(parse_spec(c), e);
    lemma_enable_metrics_clean(parse_spec(c));
    law_written_config_reads_back(set_single_spec(parse_spec(c), "display_transfer_metrics"@, true_text()));
}

/// The lines OneSync writes for a clean setting read back cleanly: `key = "value"`,
/// and a `\t"value"` continuation line whose value holds no `=`.
pub proof fn lemma_written_setting_lines_readable(k: Seq<char>, v: Seq<char>)
    requires
        clean_key(k),
        clean_value(v),
    ensures
        readable_line(first_line(k, v)),
        (forall|j: int| 0 <= j < v.len() ==> #[trigger] v[j] != '=') ==> readable_line(cont_line(v)),
{
    let raw = first_line(k, v);
    let n = k.len() as int;
    assert(raw[0] == k[0]);
    assert(raw[raw.len() - 1] == '"');
    lemma_trim_by_is(raw, CharClass::Whitespace, 0, raw.len() as int);
    assert(raw.subrange(0, raw.len() as int) =~= raw);
    let t = trim(raw);
    assert forall|j: int| 0 <= j < raw.len() implies #[trigger] raw[j] != '\r' by {
        if j < n {
            assert(raw[j] == k[j]);
        } else if n + 4 <= j < raw.len() - 1 {
            assert(raw[j] == v[j - n - 4]);
        }
    }
    assert forall|j: int| 0 <= j < n + 1 implies #[trigger] t[j] != '=' by {
        if j < n {
            assert(t[j] == k[j]);
        } else {
            assert(t[j] == ' ');
        }
    }
    assert(t[n + 1] == '=');
    lemma_index_of_is(t, '=', n + 1);
    let tail = t.skip(n + 2);
    assert(tail =~= seq![' '] + (seq!['"'] + v + seq!['"']));
    assert(tail[1] == '"' && tail[tail.len() - 1] == '"');
    lemma_trim_by_is(tail, CharClass::Whitespace, 1, tail.len() as int);
    assert(tail.subrange(1, tail.len() as int) =~= seq!['"'] + v + seq!['"']);
    lemma_unquote_clean(v);
    lemma_trim_clean(v);
    if forall|j: int| 0 <= j < v.len() ==> #[trigger] v[j] != '=' {
        let c = cont_line(v);
        assert(c[0] == '\t');
        assert(c[1] == '"' && c[c.len() - 1] == '"');
        lemma_trim_by_is(c, CharClass::Whitespace, 1, c.len() as int);
        let ct = trim(c);
        assert(ct =~= seq!['"'] + v + seq!['"']);
        assert forall|j: int| 0 <= j < c.len() implies #[trigger] c[j] != '\r' by {
            if 2 <= j < c.len() - 1 {
                assert(c[j] == v[j - 2]);
            }
        }
        assert forall|j: int| 0 <= j < ct.len() implies #[trigger] ct[j] != '=' by {
            if 1 <= j < ct.len() - 1 {
                assert(ct[j] == v[j - 1]);
            }
        }
        lemma_index_of_is(ct, '=', ct.len() as int);
    }
}

/// One change made to a configuration in memory.
pub enum ConfigStep {
    /// `apply_edit` with this edit.
    Edit(ConfigEditView),
    /// `enable_transfer_metrics`.
    Metrics,
}

pub open spec fn apply_step(ls: Seq<ConfigLineView>, step: ConfigStep) -> Seq<ConfigLineView> {
    match step {
        ConfigStep::Edit(e) => apply_edit_spec(ls, e),
        ConfigStep::Metrics => set_single_spec(ls, "display_transfer_metrics"@, true_text()),
    }
}

/// The configuration after the changes, in order.
pub open spec fn apply_steps(ls: Seq<ConfigLineView>, steps: Seq<ConfigStep>) -> Seq<ConfigLineView>
    decreases steps.len(),
{
    if steps.len() == 0 {
        ls
    } else {
        apply_step(apply_steps(ls, steps.drop_last()), steps.last())
    }
}

/// Every edit among the changes is clean.
pub open spec fn clean_steps(steps: Seq<ConfigStep>) -> bool {
    forall|i: int| 0 <= i < steps.len() ==> (#[trigger] steps[i] matches ConfigStep::Edit(e) ==> clean_edit(e))
}

proof fn lemma_steps_clean(ls: Seq<ConfigLineView>, steps: Seq<ConfigStep>)
    requires
        clean_lines(ls),
        clean_steps(steps),
    ensures
        clean_lines(apply_steps(ls, steps)),
    decreases steps.len(),
{
    if steps.len() > 0 {
        let w = steps.drop_last();
        assert forall|i: int| 0 <= i < w.len() implies (#[trigger] w[i] matches ConfigStep::Edit(e) ==> clean_edit(e)) by {
            assert(w[i] == steps[i]);
        }
        lemma_steps_clean(ls, w);
        let cur = apply_steps(ls, w);
        assert(steps[steps.len() - 1] == steps.last());
        match steps.last() {
            ConfigStep::Edit(e) => lemma_apply_edit_clean(cur, e),
            ConfigStep::Metrics => lemma_enable_metrics_clean(cur),
        }
    }
}

/// A configuration read from a text whose lines read back cleanly, then changed by any
/// number of clean edits and metrics switches, is written back without losing a
/// setting: every key reads back with the values it held.
pub proof fn law_changed_config_round_trips(c: Seq<char>, steps: Seq<ConfigStep>)
    requires
        readable_text(c),
        clean_steps(steps),
    ensures
        ({
            let ls = apply_steps(parse_spec(c), steps);
            &&& forall|key: Seq<char>| #[trigger] values_spec(parse_spec(render_spec(ls)), key) == values_spec(ls, key)
            &&& to_edit_spec(parse_spec(render_spec(ls))) == to_edit_spec(ls)
        }),
{
    lemma_parse_clean(c);
    lemma_steps_clean(parse_spec(c), steps);
    law_written_config_reads_back(apply_steps(parse_spec(c), steps));
}

/// A profile edit saved into a configuration read from a text whose lines read back
/// cleanly, and read back from the written file, gives the edit, normalized, with no
/// selective-sync list setting in the file.
pub proof fn law_saved_read_config_reads_back(c: Seq<char>, e: ConfigEditView)
    requires
        readable_text(c),
        clean_edit(e),
    ensures
        ({
            let written = parse_spec(render_spec(apply_edit_spec(parse_spec(c), config_part(e))));
            &&& to_edit_spec(written) == config_part(normalize_edit(e))
            &&& values_spec(written, "sync_list"@).len() == 0
        }),
{
    lemma_parse_clean(c);
    law_saved_profile_file_reads_back(parse_spec(c), e);
}

} // verus!
