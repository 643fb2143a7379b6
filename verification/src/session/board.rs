//! The rows the main view lists: live transfers of the selected profile and changes a
//! dry run announced. The board keeps how far each transfer got, what each previewed
//! change is doing, and the order in which the rows are shown: rows still at work
//! first, newest first; finished transfers after them, newest first.
use vstd::prelude::*;

use crate::adapter::onedrive::parse::{
    capped_whole, file_change_view, first_fraction_digit, is_complete_spec, percent_parts,
    valid_decimal, valid_decimal_exec, FileChangeView,
};
use crate::event::{FileChange, PreviewChange, PreviewState};
use crate::text::{chars_of, decimal, decimal_string, str_eq, string_of};
use crate::present::lit;

verus! {

// ---------------------------------------------------------------------------
// Progress
// ---------------------------------------------------------------------------

/// How far a transfer line says the transfer got, in tenths of a percent: full when
/// it said done; otherwise the percentage it printed (down to its first decimal, at
/// most a hundred), or nothing without one.
pub open spec fn progress_of(f: FileChangeView) -> nat {
    if f.done {
        1000
    } else {
        match f.percent {
            Some(p) => if valid_decimal(p) {
                if capped_whole(p) >= 100 {
                    1000
                } else {
                    capped_whole(p) * 10 + first_fraction_digit(p)
                }
            } else {
                0
            },
            None => 0,
        }
    }
}

/// The progress of a transfer line, in tenths of a percent.
pub fn file_progress(file: &FileChange) -> (r: u32)
    ensures
        r == progress_of(file_change_view(*file)),
        r <= 1000,
{
    if file.done {
        return 1000;
    }
    match &file.percent {
        Some(p) => {
            let t = chars_of(p.as_str());
            if !valid_decimal_exec(&t) {
                return 0;
            }
            let (whole, tenth) = percent_parts(&t);
            if whole >= 100 {
                1000
            } else {
                (whole * 10 + tenth) as u32
            }
        },
        None => 0,
    }
}

/// How far applying a previewed change got, in tenths of a percent: `done` of
/// `total` bytes (a total of zero counts as one), at most all of it.
pub open spec fn apply_progress_spec(done: u64, total: u64) -> nat {
    let t: int = if total == 0 {
        1
    } else {
        total as int
    };
    let p = (done as int) * 1000 / t;
    if p >= 1000 {
        1000
    } else {
        p as nat
    }
}

/// The whole percent shown while a change is applied: `done` of `total`, rounded to
/// the nearest percent (halves up), at most a hundred.
pub open spec fn apply_percent_spec(done: u64, total: u64) -> nat {
    let t: int = if total == 0 {
        1
    } else {
        total as int
    };
    let p = ((done as int) * 200 + t) / (2 * t);
    if p >= 100 {
        100
    } else {
        p as nat
    }
}

pub fn apply_progress(done: u64, total: u64) -> (r: u32)
    ensures
        r == apply_progress_spec(done, total),
        r <= 1000,
{
    let t: u128 = if total == 0 {
        1
    } else {
        total as u128
    };
    let p: u128 = (done as u128) * 1000 / t;
    if p >= 1000 {
        1000
    } else {
        p as u32
    }
}

/// The label of a change being applied: "正在应用" and the percentage.
pub fn apply_label(done: u64, total: u64) -> (r: String)
    ensures
        r@ == "正在应用 "@ + decimal(apply_percent_spec(done, total)) + "%"@,
{
    let t: u128 = if total == 0 {
        1
    } else {
        total as u128
    };
    let p: u128 = ((done as u128) * 200 + t) / (2 * t);
    let shown: u64 = if p >= 100 {
        100
    } else {
        p as u64
    };
    let mut s = lit("正在应用 ");
    let n = decimal_string(shown);
    crate::text::push_str(&mut s, n.as_str());
    crate::text::push_str(&mut s, "%");
    s
}

// ---------------------------------------------------------------------------
// Rows
// ---------------------------------------------------------------------------

/// One listed row. A transfer row has no profile id and is known by its file name; a
/// previewed change is known by its profile and change id.
#[derive(Debug)]
pub struct BoardRow {
    pub account_id: String,
    pub item_id: String,
    pub preview: bool,
    /// When the row was first listed: later rows have larger numbers.
    pub started: u64,
    /// The transfer reached its end (always false for a previewed change).
    pub completed: bool,
    /// In tenths of a percent.
    pub progress: u32,
    pub state: PreviewState,
}

pub struct RowView {
    pub account_id: Seq<char>,
    pub item_id: Seq<char>,
    pub preview: bool,
    pub started: u64,
    pub completed: bool,
    pub progress: nat,
    pub state: PreviewState,
}

impl View for BoardRow {
    type V = RowView;

    open spec fn view(&self) -> RowView {
        RowView {
            account_id: self.account_id@,
            item_id: self.item_id@,
            preview: self.preview,
            started: self.started,
            completed: self.completed,
            progress: self.progress as nat,
            state: self.state,
        }
    }
}

/// Whether a row is the one known by these keys.
pub open spec fn row_is(r: RowView, preview: bool, account_id: Seq<char>, item_id: Seq<char>) -> bool {
    r.preview == preview && r.account_id == account_id && r.item_id == item_id
}

/// The first row known by these keys.
pub open spec fn find_row(rows: Seq<RowView>, preview: bool, account_id: Seq<char>, item_id: Seq<char>) -> Option<
    int,
> {
    if exists|i: int| 0 <= i < rows.len() && #[trigger] row_is(rows[i], preview, account_id, item_id) {
        Some(
            choose|i: int|
                0 <= i < rows.len() && #[trigger] row_is(rows[i], preview, account_id, item_id)
                    && forall|j: int| 0 <= j < i ==> !row_is(rows[j], preview, account_id, item_id),
        )
    } else {
        None
    }
}

proof fn lemma_find_row_is(rows: Seq<RowView>, preview: bool, a: Seq<char>, c: Seq<char>, i: int)
    requires
        0 <= i < rows.len(),
        row_is(rows[i], preview, a, c),
        forall|j: int| 0 <= j < i ==> !#[trigger] row_is(rows[j], preview, a, c),
    ensures
        find_row(rows, preview, a, c) == Some(i),
{
    let k = choose|k: int|
        0 <= k < rows.len() && #[trigger] row_is(rows[k], preview, a, c) && forall|j: int|
            0 <= j < k ==> !row_is(rows[j], preview, a, c);
    assert(0 <= k < rows.len() && row_is(rows[k], preview, a, c));
    if k < i {
        assert(!row_is(rows[k], preview, a, c));
    }
    if i < k {
        assert(!row_is(rows[i], preview, a, c));
    }
}

proof fn lemma_first_match(rows: Seq<RowView>, preview: bool, a: Seq<char>, c: Seq<char>, i: int) -> (k: int)
    requires
        0 <= i < rows.len(),
        row_is(rows[i], preview, a, c),
    ensures
        0 <= k <= i,
        row_is(rows[k], preview, a, c),
        forall|j: int| 0 <= j < k ==> !#[trigger] row_is(rows[j], preview, a, c),
    decreases i,
{
    if exists|j: int| 0 <= j < i && #[trigger] row_is(rows[j], preview, a, c) {
        let j = choose|j: int| 0 <= j < i && #[trigger] row_is(rows[j], preview, a, c);
        lemma_first_match(rows, preview, a, c, j)
    } else {
        i
    }
}

/// What `find_row` gives: the first row known by the keys, or none when no row is.
pub proof fn lemma_find_row(rows: Seq<RowView>, preview: bool, a: Seq<char>, c: Seq<char>)
    ensures
        match find_row(rows, preview, a, c) {
            Some(i) => 0 <= i < rows.len() && row_is(rows[i], preview, a, c) && forall|j: int|
                0 <= j < i ==> !#[trigger] row_is(rows[j], preview, a, c),
            None => forall|j: int| 0 <= j < rows.len() ==> !#[trigger] row_is(rows[j], preview, a, c),
        },
{
    if exists|i: int| 0 <= i < rows.len() && #[trigger] row_is(rows[i], preview, a, c) {
        let i = choose|i: int| 0 <= i < rows.len() && #[trigger] row_is(rows[i], preview, a, c);
        let k = lemma_first_match(rows, preview, a, c, i);
        lemma_find_row_is(rows, preview, a, c, k);
    }
}

/// No two rows are known by the same keys.
pub open spec fn keys_unique(rows: Seq<RowView>) -> bool {
    forall|i: int, j: int|
        0 <= i < rows.len() && 0 <= j < rows.len() && i != j ==> !row_is(
            #[trigger] rows[j],
            rows[i].preview,
            rows[i].account_id,
            #[trigger] rows[i].item_id,
        )
}

/// No key twice, and no progress past full.
pub open spec fn rows_wf(rows: Seq<RowView>) -> bool {
    &&& keys_unique(rows)
    &&& forall|i: int| 0 <= i < rows.len() ==> #[trigger] rows[i].progress <= 1000
}

// ---------------------------------------------------------------------------
// The board
// ---------------------------------------------------------------------------

/// The listed rows and the number the next new row gets.
#[derive(Debug)]
pub struct TransferBoard {
    rows: Vec<BoardRow>,
    next_order: u64,
}

pub struct BoardView {
    pub rows: Seq<RowView>,
    pub next_order: u64,
}

pub open spec fn rows_view(rows: Seq<BoardRow>) -> Seq<RowView> {
    rows.map_values(|r: BoardRow| r@)
}

impl View for TransferBoard {
    type V = BoardView;

    closed spec fn view(&self) -> BoardView {
        BoardView { rows: rows_view(self.rows@), next_order: self.next_order }
    }
}

/// The number after `n`, back to zero after the largest.
pub open spec fn next_number(n: u64) -> u64 {
    if n == u64::MAX {
        0
    } else {
        (n + 1) as u64
    }
}

pub open spec fn empty_board() -> BoardView {
    BoardView { rows: Seq::empty(), next_order: 0 }
}

/// The board after a transfer line: the file's row takes the new progress (never
/// less than it had while the transfer runs and has not failed; full once complete),
/// or a new row is listed for it.
pub open spec fn upsert_spec(b: BoardView, f: FileChangeView) -> BoardView {
    let p = progress_of(f);
    let done = is_complete_spec(f);
    match find_row(b.rows, false, Seq::empty(), f.name) {
        Some(i) => {
            let old = b.rows[i];
            let progress = if f.failed {
                p
            } else if done {
                1000
            } else if p >= old.progress {
                p
            } else {
                old.progress
            };
            BoardView { rows: b.rows.update(i, RowView { progress, completed: done, ..old }), ..b }
        },
        None => BoardView {
            rows: b.rows.push(
                RowView {
                    account_id: Seq::empty(),
                    item_id: f.name,
                    preview: false,
                    started: b.next_order,
                    completed: done,
                    progress: if done {
                        1000
                    } else {
                        p
                    },
                    state: PreviewState::Pending,
                },
            ),
            next_order: next_number(b.next_order),
        },
    }
}

/// The board after a dry run announced a change: its row takes the change's state, or
/// a new row is listed for it.
pub open spec fn upsert_preview_spec(b: BoardView, a: Seq<char>, c: Seq<char>, state: PreviewState) -> BoardView {
    match find_row(b.rows, true, a, c) {
        Some(i) => BoardView { rows: b.rows.update(i, RowView { state, ..b.rows[i] }), ..b },
        None => BoardView {
            rows: b.rows.push(
                RowView {
                    account_id: a,
                    item_id: c,
                    preview: true,
                    started: b.next_order,
                    completed: false,
                    progress: 0,
                    state,
                },
            ),
            next_order: next_number(b.next_order),
        },
    }
}

/// The board with the previewed change's row (if listed) in a new state, and a new
/// progress when one is given.
pub open spec fn set_preview_spec(
    b: BoardView,
    a: Seq<char>,
    c: Seq<char>,
    state: PreviewState,
    progress: Option<nat>,
) -> BoardView {
    match find_row(b.rows, true, a, c) {
        Some(i) => BoardView {
            rows: b.rows.update(
                i,
                RowView {
                    state,
                    progress: match progress {
                        Some(p) => p,
                        None => b.rows[i].progress,
                    },
                    ..b.rows[i]
                },
            ),
            ..b
        },
        None => b,
    }
}

/// The board after applying a change failed: its row is failed, unless bringing the
/// sync state up to date already failed for it.
pub open spec fn mark_failed_spec(b: BoardView, a: Seq<char>, c: Seq<char>) -> BoardView {
    match find_row(b.rows, true, a, c) {
        Some(i) => if b.rows[i].state == PreviewState::ReconcileFailed {
            b
        } else {
            set_preview_spec(b, a, c, PreviewState::Failed, None)
        },
        None => b,
    }
}

/// The board without the previewed change's row.
pub open spec fn remove_preview_spec(b: BoardView, a: Seq<char>, c: Seq<char>) -> BoardView {
    match find_row(b.rows, true, a, c) {
        Some(i) => BoardView { rows: b.rows.remove(i), ..b },
        None => b,
    }
}

/// Whether row `x` is listed no later than row `y`: rows at work before finished
/// transfers, and newer rows first.
pub open spec fn listed_before(x: RowView, y: RowView) -> bool {
    let fx = !x.preview && x.completed;
    let fy = !y.preview && y.completed;
    (!fx && fy) || (fx == fy && x.started >= y.started)
}

/// `order` lists every row exactly once, in display order.
pub open spec fn display_order_spec(rows: Seq<RowView>, order: Seq<usize>) -> bool {
    &&& order.len() == rows.len()
    &&& forall|i: int| 0 <= i < order.len() ==> #[trigger] order[i] < rows.len()
    &&& forall|i: int, j: int| 0 <= i < j < order.len() ==> order[i] != order[j]
    &&& forall|i: int, j: int|
        0 <= i < j < order.len() ==> listed_before(rows[order[i] as int], rows[order[j] as int])
}

fn same_key(r: &BoardRow, preview: bool, account_id: &str, item_id: &str) -> (b: bool)
    ensures
        b == row_is(r@, preview, account_id@, item_id@),
{
    r.preview == preview && str_eq(r.account_id.as_str(), account_id) && str_eq(
        r.item_id.as_str(),
        item_id,
    )
}

fn copy_text(s: &str) -> (r: String)
    ensures
        r@ == s@,
{
    string_of(chars_of(s).as_slice())
}

fn next_after(n: u64) -> (r: u64)
    ensures
        r == next_number(n),
{
    if n == u64::MAX {
        0
    } else {
        n + 1
    }
}

impl TransferBoard {
    pub open spec fn wf(&self) -> bool {
        rows_wf(self@.rows)
    }

    pub fn new() -> (r: Self)
        ensures
            r@ == empty_board(),
            r.wf(),
    {
        let r = TransferBoard { rows: Vec::new(), next_order: 0 };
        assert(r@.rows =~= Seq::<RowView>::empty());
        r
    }

    pub fn rows(&self) -> (r: &[BoardRow])
        ensures
            rows_view(r@) == self@.rows,
    {
        self.rows.as_slice()
    }

    /// Drops every row; numbering starts again.
    pub fn clear(&mut self)
        ensures
            final(self)@ == empty_board(),
            final(self).wf(),
    {
        self.rows = Vec::new();
        self.next_order = 0;
        assert(self@.rows =~= Seq::<RowView>::empty());
    }

    fn find(&self, preview: bool, account_id: &str, item_id: &str) -> (r: Option<usize>)
        ensures
            match r {
                Some(i) => i < self@.rows.len() && find_row(self@.rows, preview, account_id@, item_id@)
                    == Some(i as int),
                None => find_row(self@.rows, preview, account_id@, item_id@) == None::<int>,
            },
    {
        let ghost rows = self@.rows;
        let mut i: usize = 0;
        while i < self.rows.len()
            invariant
                i <= self.rows@.len(),
                rows == self@.rows,
                rows.len() == self.rows@.len(),
                forall|j: int| 0 <= j < i ==> !#[trigger] row_is(rows[j], preview, account_id@, item_id@),
            decreases self.rows.len() - i,
        {
            assert(rows[i as int] == self.rows@[i as int]@);
            if same_key(&self.rows[i], preview, account_id, item_id) {
                proof {
                    lemma_find_row_is(rows, preview, account_id@, item_id@, i as int);
                }
                return Some(i);
            }
            i += 1;
        }
        None
    }

    /// Lists a transfer line: see `upsert_spec`.
    pub fn upsert(&mut self, file: &FileChange)
        requires
            old(self).wf(),
        ensures
            final(self)@ == upsert_spec(old(self)@, file_change_view(*file)),
            final(self).wf(),
    {
        let ghost before = self@;
        let p = file_progress(file);
        let done = file.is_complete();
        let no_profile = String::new();
        match self.find(false, no_profile.as_str(), file.name.as_str()) {
            Some(i) => {
                let old_progress = self.rows[i].progress;
                let progress = if file.failed {
                    p
                } else if done {
                    1000
                } else if p >= old_progress {
                    p
                } else {
                    old_progress
                };
                let r = BoardRow {
                    account_id: copy_text(self.rows[i].account_id.as_str()),
                    item_id: copy_text(self.rows[i].item_id.as_str()),
                    preview: self.rows[i].preview,
                    started: self.rows[i].started,
                    completed: done,
                    progress,
                    state: self.rows[i].state,
                };
                let ghost rv = r@;
                self.rows.set(i, r);
                assert(self@.rows =~= before.rows.update(i as int, rv));
                assert(keys_unique(self@.rows)) by {
                    assert forall|x: int, y: int|
                        0 <= x < self@.rows.len() && 0 <= y < self@.rows.len() && x != y implies !row_is(
                        #[trigger] self@.rows[y],
                        self@.rows[x].preview,
                        self@.rows[x].account_id,
                        #[trigger] self@.rows[x].item_id,
                    ) by {
                        assert(before.rows[y] == self@.rows[y] || y == i);
                        assert(before.rows[x] == self@.rows[x] || x == i);
                        assert(!row_is(before.rows[y], before.rows[x].preview, before.rows[x].account_id, before.rows[x].item_id));
                    }
                }
            },
            None => {
                let r = BoardRow {
                    account_id: String::new(),
                    item_id: copy_text(file.name.as_str()),
                    preview: false,
                    started: self.next_order,
                    completed: done,
                    progress: if done {
                        1000
                    } else {
                        p
                    },
                    state: PreviewState::Pending,
                };
                let ghost rv = r@;
                assert(rv.account_id =~= Seq::<char>::empty());
                self.rows.push(r);
                self.next_order = next_after(self.next_order);
                assert(self@.rows =~= before.rows.push(rv));
                proof {
                    Self::lemma_push_keeps_unique(before.rows, rv);
                }
            },
        }
    }

    proof fn lemma_push_keeps_unique(rows: Seq<RowView>, rv: RowView)
        requires
            keys_unique(rows),
            find_row(rows, rv.preview, rv.account_id, rv.item_id) == None::<int>,
        ensures
            keys_unique(rows.push(rv)),
    {
        let s = rows.push(rv);
        assert forall|x: int, y: int|
            0 <= x < s.len() && 0 <= y < s.len() && x != y implies !row_is(
            #[trigger] s[y],
            s[x].preview,
            s[x].account_id,
            #[trigger] s[x].item_id,
        ) by {
            if x == rows.len() {
                assert(s[y] == rows[y]);
                if row_is(rows[y], rv.preview, rv.account_id, rv.item_id) {
                    assert(exists|k: int| 0 <= k < rows.len() && #[trigger] row_is(rows[k], rv.preview, rv.account_id, rv.item_id));
                }
            } else if y == rows.len() {
                assert(s[x] == rows[x]);
                if row_is(rv, rows[x].preview, rows[x].account_id, rows[x].item_id) {
                    assert(row_is(rows[x], rv.preview, rv.account_id, rv.item_id));
                    assert(exists|k: int| 0 <= k < rows.len() && #[trigger] row_is(rows[k], rv.preview, rv.account_id, rv.item_id));
                }
            } else {
                assert(s[x] == rows[x] && s[y] == rows[y]);
            }
        }
    }

    /// Lists a previewed change: see `upsert_preview_spec`.
    pub fn upsert_preview(&mut self, account_id: &str, change: &PreviewChange)
        requires
            old(self).wf(),
        ensures
            final(self)@ == upsert_preview_spec(old(self)@, account_id@, change.id@, change.state),
            final(self).wf(),
    {
        let ghost before = self@;
        match self.find(true, account_id, change.id.as_str()) {
            Some(i) => {
                self.set_state(i, change.state, None);
            },
            None => {
                let r = BoardRow {
                    account_id: copy_text(account_id),
                    item_id: copy_text(change.id.as_str()),
                    preview: true,
                    started: self.next_order,
                    completed: false,
                    progress: 0,
                    state: change.state,
                };
                let ghost rv = r@;
                self.rows.push(r);
                self.next_order = next_after(self.next_order);
                assert(self@.rows =~= before.rows.push(rv));
                proof {
                    Self::lemma_push_keeps_unique(before.rows, rv);
                }
            },
        }
    }

    fn set_state(&mut self, i: usize, state: PreviewState, progress: Option<u32>)
        requires
            old(self).wf(),
            i < old(self)@.rows.len(),
            progress matches Some(p) ==> p <= 1000,
        ensures
            final(self)@ == (BoardView {
                rows: old(self)@.rows.update(
                    i as int,
                    RowView {
                        state,
                        progress: match progress {
                            Some(p) => p as nat,
                            None => old(self)@.rows[i as int].progress,
                        },
                        ..old(self)@.rows[i as int]
                    },
                ),
                ..old(self)@
            }),
            final(self).wf(),
    {
        let ghost before = self@;
        let r = BoardRow {
            account_id: copy_text(self.rows[i].account_id.as_str()),
            item_id: copy_text(self.rows[i].item_id.as_str()),
            preview: self.rows[i].preview,
            started: self.rows[i].started,
            completed: self.rows[i].completed,
            progress: match progress {
                Some(p) => p,
                None => self.rows[i].progress,
            },
            state,
        };
        let ghost rv = r@;
        self.rows.set(i, r);
        assert(self@.rows =~= before.rows.update(i as int, rv));
        assert(keys_unique(self@.rows)) by {
            assert forall|x: int, y: int|
                0 <= x < self@.rows.len() && 0 <= y < self@.rows.len() && x != y implies !row_is(
                #[trigger] self@.rows[y],
                self@.rows[x].preview,
                self@.rows[x].account_id,
                #[trigger] self@.rows[x].item_id,
            ) by {
                assert(before.rows[y] == self@.rows[y] || y == i);
                assert(before.rows[x] == self@.rows[x] || x == i);
                assert(!row_is(before.rows[y], before.rows[x].preview, before.rows[x].account_id, before.rows[x].item_id));
            }
        }
    }

    /// The user started applying the change.
    pub fn mark_applying(&mut self, account_id: &str, change_id: &str)
        requires
            old(self).wf(),
        ensures
            final(self)@ == set_preview_spec(old(self)@, account_id@, change_id@, PreviewState::Applying, None),
            final(self).wf(),
    {
        if let Some(i) = self.find(true, account_id, change_id) {
            self.set_state(i, PreviewState::Applying, None);
        }
    }

    /// `done` of `total` bytes of the change were moved.
    pub fn mark_progress(&mut self, account_id: &str, change_id: &str, done: u64, total: u64)
        requires
            old(self).wf(),
        ensures
            final(self)@ == set_preview_spec(
                old(self)@,
                account_id@,
                change_id@,
                PreviewState::Applying,
                Some(apply_progress_spec(done, total)),
            ),
            final(self).wf(),
    {
        if let Some(i) = self.find(true, account_id, change_id) {
            let p = apply_progress(done, total);
            self.set_state(i, PreviewState::Applying, Some(p));
        }
    }

    /// The change was applied; its folder is being synced again.
    pub fn mark_reconciling(&mut self, account_id: &str, change_id: &str)
        requires
            old(self).wf(),
        ensures
            final(self)@ == set_preview_spec(old(self)@, account_id@, change_id@, PreviewState::Reconciling, None),
            final(self).wf(),
    {
        if let Some(i) = self.find(true, account_id, change_id) {
            self.set_state(i, PreviewState::Reconciling, None);
        }
    }

    /// Applying the change failed.
    pub fn mark_failed(&mut self, account_id: &str, change_id: &str)
        requires
            old(self).wf(),
        ensures
            final(self)@ == mark_failed_spec(old(self)@, account_id@, change_id@),
            final(self).wf(),
    {
        if let Some(i) = self.find(true, account_id, change_id) {
            if !matches!(self.rows[i].state, PreviewState::ReconcileFailed) {
                self.set_state(i, PreviewState::Failed, None);
            }
        }
    }

    /// Syncing the change's folder afterwards failed.
    pub fn mark_reconcile_failed(&mut self, account_id: &str, change_id: &str)
        requires
            old(self).wf(),
        ensures
            final(self)@ == set_preview_spec(
                old(self)@,
                account_id@,
                change_id@,
                PreviewState::ReconcileFailed,
                None,
            ),
            final(self).wf(),
    {
        if let Some(i) = self.find(true, account_id, change_id) {
            self.set_state(i, PreviewState::ReconcileFailed, None);
        }
    }

    /// Drops the change's row: it was applied or dismissed.
    pub fn remove_preview(&mut self, account_id: &str, change_id: &str)
        requires
            old(self).wf(),
        ensures
            final(self)@ == remove_preview_spec(old(self)@, account_id@, change_id@),
            final(self).wf(),
    {
        let ghost before = self@;
        if let Some(i) = self.find(true, account_id, change_id) {
            self.rows.remove(i);
            assert(self@.rows =~= before.rows.remove(i as int));
            assert(keys_unique(self@.rows)) by {
                let s = self@.rows;
                assert forall|x: int, y: int|
                    0 <= x < s.len() && 0 <= y < s.len() && x != y implies !row_is(
                    #[trigger] s[y],
                    s[x].preview,
                    s[x].account_id,
                    #[trigger] s[x].item_id,
                ) by {
                    let bx = if x < i { x } else { x + 1 };
                    let by_ = if y < i { y } else { y + 1 };
                    assert(s[x] == before.rows[bx]);
                    assert(s[y] == before.rows[by_]);
                    assert(!row_is(before.rows[by_], before.rows[bx].preview, before.rows[bx].account_id, before.rows[bx].item_id));
                }
            }
        }
    }

    /// The rows' positions in the order they are shown.
    pub fn display_order(&self) -> (r: Vec<usize>)
        ensures
            display_order_spec(self@.rows, r@),
    {
        let ghost rows = self@.rows;
        let mut order: Vec<usize> = Vec::new();
        let mut k: usize = 0;
        while k < self.rows.len()
            invariant
                k <= self.rows@.len(),
                rows == self@.rows,
                rows.len() == self.rows@.len(),
                order@.len() == k,
                forall|i: int| 0 <= i < order@.len() ==> #[trigger] order@[i] < k,
                forall|i: int, j: int| 0 <= i < j < order@.len() ==> order@[i] != order@[j],
                forall|i: int, j: int|
                    0 <= i < j < order@.len() ==> listed_before(
                        rows[order@[i] as int],
                        rows[order@[j] as int],
                    ),
            decreases self.rows.len() - k,
        {
            assert(rows[k as int] == self.rows@[k as int]@);
            let mut p: usize = 0;
            while p < order.len() && self.before(order[p], k)
                invariant
                    p <= order@.len(),
                    k < rows.len(),
                    rows == self@.rows,
                    rows.len() == self.rows@.len(),
                    forall|i: int| 0 <= i < order@.len() ==> #[trigger] order@[i] < k,
                    forall|q: int| 0 <= q < p ==> listed_before(#[trigger] rows[order@[q] as int], rows[k as int]),
                decreases order@.len() - p,
            {
                p += 1;
            }
            let ghost old_order = order@;
            proof {
                // Past `p`, every row follows the new one: the order is sorted and
                // `listed_before` is total and transitive.
                assert forall|q: int| p <= q < old_order.len() implies listed_before(
                    rows[k as int],
                    #[trigger] rows[old_order[q] as int],
                ) by {
                    if p < old_order.len() {
                        if q > p {
                            assert(listed_before(rows[old_order[p as int] as int], rows[old_order[q] as int]));
                        }
                    }
                }
            }
            order.insert(p, k);
            assert(order@ =~= old_order.insert(p as int, k));
            assert forall|i: int, j: int| 0 <= i < j < order@.len() implies listed_before(
                rows[order@[i] as int],
                rows[order@[j] as int],
            ) by {
                if i < p && j < p {
                } else if i < p && j == p {
                } else if i < p {
                    assert(order@[j] == old_order[j - 1]);
                } else if i == p {
                    assert(order@[j] == old_order[j - 1]);
                } else {
                    assert(order@[i] == old_order[i - 1]);
                    assert(order@[j] == old_order[j - 1]);
                }
            }
            assert forall|i: int, j: int| 0 <= i < j < order@.len() implies order@[i] != order@[j] by {
                if i < p && j < p {
                } else if i < p && j == p {
                    assert(old_order[i] < k);
                } else if i < p {
                    assert(order@[j] == old_order[j - 1]);
                } else if i == p {
                    assert(order@[j] == old_order[j - 1]);
                    assert(old_order[j - 1] < k);
                } else {
                    assert(order@[i] == old_order[i - 1]);
                    assert(order@[j] == old_order[j - 1]);
                }
            }
            assert forall|i: int| 0 <= i < order@.len() implies #[trigger] order@[i] < k + 1 by {
                if i < p {
                } else if i > p {
                    assert(order@[i] == old_order[i - 1]);
                }
            }
            k += 1;
        }
        order
    }

    fn before(&self, x: usize, y: usize) -> (r: bool)
        requires
            x < self@.rows.len(),
            y < self@.rows.len(),
        ensures
            r == listed_before(self@.rows[x as int], self@.rows[y as int]),
    {
        let a = &self.rows[x];
        let b = &self.rows[y];
        assert(self@.rows[x as int] == a@ && self@.rows[y as int] == b@);
        let fa = !a.preview && a.completed;
        let fb = !b.preview && b.completed;
        (!fa && fb) || (fa == fb && a.started >= b.started)
    }
}

// ---------------------------------------------------------------------------
// Laws
// ---------------------------------------------------------------------------

/// A transfer counts as complete exactly when its progress is full.
pub proof fn law_complete_exactly_when_full(f: FileChangeView)
    ensures
        is_complete_spec(f) <==> progress_of(f) == 1000,
{
    match f.percent {
        Some(p) => {
            if valid_decimal(p) && capped_whole(p) < 100 {
                assert(first_fraction_digit(p) < 10);
            }
        },
        None => {},
    }
    if !f.done {
        match f.percent {
            Some(p) => {
                if !valid_decimal(p) {
                    assert(!crate::adapter::onedrive::parse::percent_complete(p));
                }
            },
            None => {},
        }
    }
}

/// While a transfer runs and has not failed, what the board shows of it never goes back.
pub proof fn law_running_progress_never_drops(b: BoardView, f: FileChangeView)
    requires
        rows_wf(b.rows),
        !f.failed,
        find_row(b.rows, false, Seq::empty(), f.name) is Some,
    ensures
        ({
            let i = find_row(b.rows, false, Seq::empty(), f.name).unwrap();
            upsert_spec(b, f).rows[i].progress >= b.rows[i].progress
        }),
{
    lemma_find_row(b.rows, false, Seq::empty(), f.name);
}

/// Once bringing the sync state up to date failed for a change, a later report that
/// applying it failed does not hide that.
pub proof fn law_reconcile_failure_stays(b: BoardView, a: Seq<char>, c: Seq<char>)
    ensures
        ({
            let after = mark_failed_spec(set_preview_spec(b, a, c, PreviewState::ReconcileFailed, None), a, c);
            after == set_preview_spec(b, a, c, PreviewState::ReconcileFailed, None)
        }),
{
    let s = set_preview_spec(b, a, c, PreviewState::ReconcileFailed, None);
    lemma_find_row(b.rows, true, a, c);
    match find_row(b.rows, true, a, c) {
        Some(i) => {
            assert(row_is(s.rows[i], true, a, c));
            assert forall|j: int| 0 <= j < i implies !#[trigger] row_is(s.rows[j], true, a, c) by {
                assert(s.rows[j] == b.rows[j]);
            }
            lemma_find_row_is(s.rows, true, a, c, i);
        },
        None => {},
    }
}

/// A removed change is no longer listed.
pub proof fn law_removed_change_is_gone(b: BoardView, a: Seq<char>, c: Seq<char>)
    requires
        rows_wf(b.rows),
    ensures
        find_row(remove_preview_spec(b, a, c).rows, true, a, c) is None,
{
    lemma_find_row(b.rows, true, a, c);
    match find_row(b.rows, true, a, c) {
        Some(i) => {
            let s = b.rows.remove(i);
            if exists|k: int| 0 <= k < s.len() && #[trigger] row_is(s[k], true, a, c) {
                let k = choose|k: int| 0 <= k < s.len() && #[trigger] row_is(s[k], true, a, c);
                let bk = if k < i { k } else { k + 1 };
                assert(s[k] == b.rows[bk]);
                assert(row_is(b.rows[bk], b.rows[i].preview, b.rows[i].account_id, b.rows[i].item_id));
            }
        },
        None => {},
    }
}

} // verus!
