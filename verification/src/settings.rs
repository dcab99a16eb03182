//! The editable form behind the settings window.
//!
//! A Config is the settled thing on disk. This is the unsettled thing on
//! screen: a list of rows the user is part-way through editing, which may hold
//! two rows wanting the same Chord, or an Action with nothing typed into it
//! yet. Both states have to be allowed to exist, so they are *reported* rather
//! than prevented, and this is where that reporting lives.

use vstd::prelude::*;

use crate::action::{Action, TapAction};
use crate::chord::{trim_chars, Chord};
use crate::config::Config;
use crate::keys::Key;
use crate::table::{chord_pair, rank, BindingTable};
use crate::text::{blank, chars_of, lemma_trim_empty_iff_blank, trim};

verus! {

/// Something wrong with a row, and which row.
#[derive(Debug, Clone, Copy, PartialEq, Eq, Structural)]
pub enum Problem {
    /// An earlier row already claims this Chord. The earlier one wins, exactly
    /// as it does when a config file is loaded.
    DuplicateChord { row: usize },
    /// An Action whose target, command or identity is still empty.
    EmptyAction { row: usize },
    /// Desktops are numbered from one, as the user counts them.
    NoSuchDesktop { row: usize },
}

/// The row a Problem is about.
pub open spec fn problem_row(p: Problem) -> usize {
    match p {
        Problem::DuplicateChord { row } => row,
        Problem::EmptyAction { row } => row,
        Problem::NoSuchDesktop { row } => row,
    }
}

/// What the settings window says about a Problem.
pub open spec fn problem_message(p: Problem) -> Seq<char> {
    match p {
        Problem::DuplicateChord { .. } => "another Binding already uses this Chord"@,
        Problem::EmptyAction { .. } => "this Action has nothing to do"@,
        Problem::NoSuchDesktop { .. } => "desktops are numbered from 1"@,
    }
}

impl Problem {
    pub fn row(self) -> (r: usize)
        ensures
            r == problem_row(self),
    {
        match self {
            Problem::DuplicateChord { row } => row,
            Problem::EmptyAction { row } => row,
            Problem::NoSuchDesktop { row } => row,
        }
    }

    pub fn message(self) -> (m: &'static str)
        ensures
            m@ == problem_message(self),
    {
        match self {
            Problem::DuplicateChord { .. } => "another Binding already uses this Chord",
            Problem::EmptyAction { .. } => "this Action has nothing to do",
            Problem::NoSuchDesktop { .. } => "desktops are numbered from 1",
        }
    }
}

/// The form: everything a Config holds, with the Bindings as rows rather than
/// a table, so that a Chord typed twice can be seen. A table would swallow
/// the second one and leave the user wondering why their new Binding does
/// nothing.
#[derive(Debug, PartialEq, Eq)]
pub struct Settings {
    pub hyper: Key,
    pub tap: TapAction,
    pub autostart: bool,
    pub bindings: Vec<(Chord, Action)>,
}

/// Whether an earlier row claims the same Chord as row `i`.
pub open spec fn claimed_earlier(rows: Seq<(Chord, Action)>, i: int) -> bool {
    exists|j: int| 0 <= j < i && rows[j].0 == rows[i].0
}

/// Whether an Action has nothing to do: an empty identity or target, or a
/// command that is only whitespace.
pub open spec fn empty_action(a: Action) -> bool {
    match a {
        Action::App { id } => id@.len() == 0,
        Action::Open { target } => target@.len() == 0,
        Action::Run { command, .. } => blank(command@),
        Action::Desktop { .. } => false,
    }
}

/// What is wrong with row `i`, in the order it is reported.
pub open spec fn row_problems(rows: Seq<(Chord, Action)>, i: int) -> Seq<Problem> {
    (if claimed_earlier(rows, i) {
        seq![Problem::DuplicateChord { row: i as usize }]
    } else {
        Seq::empty()
    }) + (if empty_action(rows[i].1) {
        seq![Problem::EmptyAction { row: i as usize }]
    } else if rows[i].1 matches Action::Desktop { index } && index == 0 {
        seq![Problem::NoSuchDesktop { row: i as usize }]
    } else {
        Seq::empty()
    })
}

/// Everything wrong with the first `n` rows, in row order.
pub open spec fn problems_upto(rows: Seq<(Chord, Action)>, n: int) -> Seq<Problem>
    decreases n,
{
    if n <= 0 {
        Seq::empty()
    } else {
        problems_upto(rows, n - 1) + row_problems(rows, n - 1)
    }
}

/// The table rows make, the first row on a Chord winning.
pub open spec fn first_wins(rows: Seq<(Chord, Action)>) -> Map<(u8, Key), Action>
    decreases rows.len(),
{
    if rows.len() == 0 {
        Map::empty()
    } else {
        let before = first_wins(rows.drop_last());
        let p = chord_pair(rows.last().0);
        if before.contains_key(p) {
            before
        } else {
            before.insert(p, rows.last().1)
        }
    }
}

/// Rows listing a table: each Binding once, in key-table order.
pub open spec fn lists(rows: Seq<(Chord, Action)>, table: Map<(u8, Key), Action>) -> bool {
    &&& rows.len() == table.dom().len()
    &&& forall|i: int, j: int|
        0 <= i < j < rows.len() ==> rank(chord_pair(#[trigger] rows[i].0)) < rank(
            chord_pair(#[trigger] rows[j].0),
        )
    &&& forall|i: int|
        0 <= i < rows.len() ==> table.contains_key(chord_pair(#[trigger] rows[i].0))
            && table[chord_pair(rows[i].0)] == rows[i].1
    &&& forall|p: (u8, Key)|
        #[trigger] table.contains_key(p) ==> exists|i: int|
            0 <= i < rows.len() && chord_pair(rows[i].0) == p
}

impl Clone for Settings {
    fn clone(&self) -> (s: Self)
        ensures
            s.hyper == self.hyper,
            s.tap == self.tap,
            s.autostart == self.autostart,
            s.bindings@ == self.bindings@,
    {
        let mut rows: Vec<(Chord, Action)> = Vec::new();
        let mut i: usize = 0;
        while i < self.bindings.len()
            invariant
                i <= self.bindings@.len(),
                rows@ == self.bindings@.take(i as int),
            decreases self.bindings.len() - i,
        {
            let (chord, action) = &self.bindings[i];
            rows.push((*chord, action.clone()));
            assert(rows@ =~= self.bindings@.take(i + 1));
            i = i + 1;
        }
        assert(rows@ =~= self.bindings@);
        Settings { hyper: self.hyper, tap: self.tap, autostart: self.autostart, bindings: rows }
    }
}

impl Settings {
    /// The form showing a Config: its Bindings as rows, in key-table order.
    pub fn from_config(config: Config) -> (s: Self)
        ensures
            s.hyper == config.hyper,
            s.tap == config.tap,
            s.autostart == config.autostart,
            lists(s.bindings@, config.bindings@),
    {
        let all = config.bindings.sorted();
        let mut rows: Vec<(Chord, Action)> = Vec::new();
        let mut i: usize = 0;
        while i < all.len()
            invariant
                i <= all@.len(),
                rows@.len() == i,
                forall|j: int|
                    0 <= j < i ==> (#[trigger] rows@[j]).0 == all@[j].0 && rows@[j].1
                        == *all@[j].1,
            decreases all.len() - i,
        {
            let (chord, action) = all[i];
            rows.push((chord, action.clone()));
            i = i + 1;
        }
        proof {
            assert forall|i: int, j: int|
                0 <= i < j < rows@.len() implies rank(chord_pair(#[trigger] rows@[i].0)) < rank(
                chord_pair(#[trigger] rows@[j].0),
            ) by {
                assert(rows@[i].0 == all@[i].0);
                assert(rows@[j].0 == all@[j].0);
            }
            assert forall|p: (u8, Key)| #[trigger]
                config.bindings@.contains_key(p) implies exists|i: int|
                0 <= i < rows@.len() && chord_pair(rows@[i].0) == p by {
                let i = choose|i: int| 0 <= i < all@.len() && chord_pair(all@[i].0) == p;
                assert(rows@[i].0 == all@[i].0);
            }
        }
        Settings {
            hyper: config.hyper,
            tap: config.tap,
            autostart: config.autostart,
            bindings: rows,
        }
    }

    /// Adds a row at the end.
    pub fn add(&mut self, chord: Chord, action: Action)
        ensures
            final(self).bindings@ == old(self).bindings@.push((chord, action)),
            final(self).hyper == old(self).hyper,
            final(self).tap == old(self).tap,
            final(self).autostart == old(self).autostart,
    {
        self.bindings.push((chord, action));
    }

    /// Removes a row, if there is one at that position.
    pub fn remove(&mut self, row: usize)
        ensures
            final(self).bindings@ == (if row < old(self).bindings@.len() {
                old(self).bindings@.remove(row as int)
            } else {
                old(self).bindings@
            }),
            final(self).hyper == old(self).hyper,
            final(self).tap == old(self).tap,
            final(self).autostart == old(self).autostart,
    {
        if row < self.bindings.len() {
            self.bindings.remove(row);
        }
    }

    /// Everything wrong with the form, in row order.
    ///
    /// All of it at once: a user with three mistakes should see three, rather
    /// than fixing one and being shown the next.
    pub fn problems(&self) -> (found: Vec<Problem>)
        ensures
            found@ == problems_upto(self.bindings@, self.bindings@.len() as int),
    {
        let rows = &self.bindings;
        let mut found: Vec<Problem> = Vec::new();
        let mut row: usize = 0;
        while row < rows.len()
            invariant
                row <= rows@.len(),
                found@ == problems_upto(rows@, row as int),
            decreases rows.len() - row,
        {
            let (chord, action) = (&rows[row].0, &rows[row].1);
            let mut earlier: usize = 0;
            let mut seen = false;
            while earlier < row
                invariant
                    row < rows@.len(),
                    earlier <= row,
                    *chord == rows@[row as int].0,
                    seen == exists|j: int| 0 <= j < earlier && rows@[j].0 == rows@[row as int].0,
                decreases row - earlier,
            {
                if rows[earlier].0 == *chord {
                    seen = true;
                }
                earlier = earlier + 1;
            }
            let ghost before = found@;
            if seen {
                found.push(Problem::DuplicateChord { row });
            }
            let empty = match action {
                Action::App { id } => id.as_str().is_empty(),
                Action::Open { target } => target.as_str().is_empty(),
                Action::Run { command, .. } => {
                    let chars = chars_of(command.as_str());
                    let trimmed = trim_chars(chars.as_slice());
                    proof {
                        lemma_trim_empty_iff_blank(command@);
                    }
                    trimmed.len() == 0
                },
                Action::Desktop { .. } => false,
            };
            if empty {
                found.push(Problem::EmptyAction { row });
            } else if let Action::Desktop { index: 0 } = action {
                found.push(Problem::NoSuchDesktop { row });
            }
            assert(found@ =~= before + row_problems(rows@, row as int));
            row = row + 1;
        }
        found
    }

    /// The form as something that can be written to disk.
    ///
    /// Duplicates collapse the same way the loader collapses them, first wins,
    /// rather than writing both and letting the next load decide. What stops
    /// a duplicate reaching this point at all is `problems`.
    pub fn into_config(self) -> (config: Config)
        ensures
            config.hyper == self.hyper,
            config.tap == self.tap,
            config.autostart == self.autostart,
            config.bindings@ == first_wins(self.bindings@),
    {
        let ghost all = self.bindings@;
        let Settings { hyper, tap, autostart, bindings } = self;
        let mut rest = bindings;
        let mut table = BindingTable::empty();
        while rest.len() > 0
            invariant
                all == all.take(all.len() - rest@.len()) + rest@,
                rest@.len() <= all.len(),
                table@ == first_wins(all.take(all.len() - rest@.len())),
            decreases rest@.len(),
        {
            let ghost done = all.take(all.len() - rest@.len());
            let (chord, action) = rest.remove(0);
            table.add(chord, action);
            proof {
                let now = all.take(all.len() - rest@.len());
                assert(now =~= done.push((chord, action)));
                assert(now.drop_last() =~= done);
                assert(all =~= now + rest@);
            }
        }
        assert(all.take(all.len() as int) =~= all);
        Config { hyper, tap, autostart, bindings: table }
    }
}

/// The Problem of row `i` claiming a Chord an earlier row already claims.
pub open spec fn duplicate_at(i: int) -> Problem {
    Problem::DuplicateChord { row: i as usize }
}

/// The Problem of row `i` asking for an Action with nothing to do.
pub open spec fn empty_action_at(i: int) -> Problem {
    Problem::EmptyAction { row: i as usize }
}

/// The Problem of row `i` asking for a desktop that does not exist.
pub open spec fn no_such_desktop_at(i: int) -> Problem {
    Problem::NoSuchDesktop { row: i as usize }
}

/// No two rows want the same Chord.
pub open spec fn distinct_chords(rows: Seq<(Chord, Action)>) -> bool {
    forall|i: int, j: int| 0 <= i < j < rows.len() ==> rows[i].0 != rows[j].0
}

proof fn lemma_first_wins_distinct(rows: Seq<(Chord, Action)>)
    requires
        distinct_chords(rows),
    ensures
        forall|p: (u8, Key)|
            #[trigger] first_wins(rows).contains_key(p) <==> exists|i: int|
                0 <= i < rows.len() && chord_pair(rows[i].0) == p,
        forall|i: int|
            0 <= i < rows.len() ==> #[trigger] first_wins(rows)[chord_pair(rows[i].0)]
                == rows[i].1,
    decreases rows.len(),
{
    if rows.len() > 0 {
        let rest = rows.drop_last();
        lemma_first_wins_distinct(rest);
        let last = rows.last();
        let p = chord_pair(last.0);
        assert(!first_wins(rest).contains_key(p)) by {
            if first_wins(rest).contains_key(p) {
                let j = choose|j: int| 0 <= j < rest.len() && chord_pair(rest[j].0) == p;
                crate::table::lemma_rank_injective(rest[j].0, last.0);
                assert(rows[j].0 == rows[rows.len() - 1].0);
            }
        }
        assert forall|q: (u8, Key)| #[trigger] first_wins(rows).contains_key(q) <==> exists|
            i: int,
        | 0 <= i < rows.len() && chord_pair(rows[i].0) == q by {
            if first_wins(rest).contains_key(q) {
                let j = choose|j: int| 0 <= j < rest.len() && chord_pair(rest[j].0) == q;
                assert(chord_pair(rows[j].0) == q);
            }
            if exists|i: int| 0 <= i < rows.len() && chord_pair(rows[i].0) == q {
                let i = choose|i: int| 0 <= i < rows.len() && chord_pair(rows[i].0) == q;
                if i < rows.len() - 1 {
                    assert(chord_pair(rest[i].0) == q);
                }
            }
        }
        assert forall|i: int| 0 <= i < rows.len() implies #[trigger] first_wins(
            rows,
        )[chord_pair(rows[i].0)] == rows[i].1 by {
            if i < rows.len() - 1 {
                assert(rest[i] == rows[i]);
                if chord_pair(rows[i].0) == p {
                    crate::table::lemma_rank_injective(rows[i].0, last.0);
                }
            }
        }
    }
}

/// A Config survives a trip through the form: its Bindings listed as rows
/// and written back make the same table.
pub proof fn lemma_form_round_trip(rows: Seq<(Chord, Action)>, table: Map<(u8, Key), Action>)
    requires
        lists(rows, table),
    ensures
        first_wins(rows) == table,
{
    assert(distinct_chords(rows)) by {
        assert forall|i: int, j: int| 0 <= i < j < rows.len() implies rows[i].0 != rows[j].0 by {
            assert(rank(chord_pair(rows[i].0)) < rank(chord_pair(rows[j].0)));
        }
    }
    lemma_first_wins_distinct(rows);
    assert forall|p: (u8, Key)| #[trigger] first_wins(rows).contains_key(p) == table.contains_key(
        p,
    ) by {
        if table.contains_key(p) {
            let i = choose|i: int| 0 <= i < rows.len() && chord_pair(rows[i].0) == p;
            assert(first_wins(rows).contains_key(chord_pair(rows[i].0)));
        }
    }
    assert(first_wins(rows) =~= table);
}

proof fn lemma_row_problems_rows(rows: Seq<(Chord, Action)>, n: int)
    requires
        0 <= n <= rows.len(),
        rows.len() <= usize::MAX,
    ensures
        forall|k: int|
            0 <= k < problems_upto(rows, n).len() ==> problem_row(
                #[trigger] problems_upto(rows, n)[k],
            ) < n,
        forall|i: int|
            0 <= i < rows.len() ==> (problems_upto(rows, n).contains(#[trigger] duplicate_at(i))
                <==> i < n && claimed_earlier(rows, i)),
    decreases n,
{
    if n > 0 {
        lemma_row_problems_rows(rows, n - 1);
        let before = problems_upto(rows, n - 1);
        let here = row_problems(rows, n - 1);
        let all = problems_upto(rows, n);
        assert(all == before + here);
        assert forall|k: int| 0 <= k < all.len() implies problem_row(#[trigger] all[k]) < n by {
            if k >= before.len() {
                assert(all[k] == here[k - before.len()]);
            }
        }
        assert forall|i: int| 0 <= i < rows.len() implies (all.contains(#[trigger] duplicate_at(i))
            <==> i < n && claimed_earlier(rows, i)) by {
            let d = duplicate_at(i);
            if i == n - 1 && claimed_earlier(rows, i) {
                assert(here[0] == d);
                assert(all[before.len() as int] == d);
            }
            if i < n - 1 && claimed_earlier(rows, i) {
                let k = choose|k: int| 0 <= k < before.len() && before[k] == d;
                assert(all[k] == d);
            }
            if all.contains(d) {
                let k = choose|k: int| 0 <= k < all.len() && all[k] == d;
                if k >= before.len() {
                    let m = k - before.len();
                    assert(here[m] == d);
                    let dups = if claimed_earlier(rows, n - 1) {
                        seq![duplicate_at(n - 1)]
                    } else {
                        Seq::<Problem>::empty()
                    };
                    let rest = here.skip(dups.len() as int);
                    assert(here =~= dups + rest);
                    if m >= dups.len() {
                        assert(rest[m - dups.len()] == d);
                        assert(rest.len() <= 1);
                        assert(!(rest[0] is DuplicateChord));
                    }
                    assert(i == n - 1);
                } else {
                    assert(before[k] == d);
                }
            }
        }
    }
}

/// A row is reported as a duplicate exactly when an earlier row claims the
/// same Chord: the second row is the problem, not the first.
pub proof fn lemma_duplicates_reported(rows: Seq<(Chord, Action)>, i: int)
    requires
        0 <= i < rows.len() <= usize::MAX,
    ensures
        problems_upto(rows, rows.len() as int).contains(duplicate_at(i)) <==> claimed_earlier(
            rows,
            i,
        ),
{
    lemma_row_problems_rows(rows, rows.len() as int);
}

/// The problems decide it: a form with no duplicate reported writes every
/// row, each Chord bound to its own row's Action.
pub proof fn lemma_unreported_rows_all_written(rows: Seq<(Chord, Action)>)
    requires
        rows.len() <= usize::MAX,
        forall|i: int|
            0 <= i < rows.len() ==> !problems_upto(rows, rows.len() as int).contains(
                #[trigger] duplicate_at(i),
            ),
    ensures
        forall|i: int|
            0 <= i < rows.len() ==> first_wins(rows).contains_key(chord_pair(rows[i].0))
                && #[trigger] first_wins(rows)[chord_pair(rows[i].0)] == rows[i].1,
        first_wins(rows).dom().len() == rows.len(),
{
    lemma_row_problems_rows(rows, rows.len() as int);
    assert(distinct_chords(rows)) by {
        assert forall|i: int, j: int| 0 <= i < j < rows.len() implies rows[i].0 != rows[j].0 by {
            if rows[i].0 == rows[j].0 {
                assert(claimed_earlier(rows, j));
                assert(!problems_upto(rows, rows.len() as int).contains(duplicate_at(j)));
            }
        }
    }
    lemma_first_wins_distinct(rows);
    lemma_first_wins_size(rows);
}

proof fn lemma_first_wins_size(rows: Seq<(Chord, Action)>)
    requires
        distinct_chords(rows),
    ensures
        first_wins(rows).dom().finite(),
        first_wins(rows).dom().len() == rows.len(),
    decreases rows.len(),
{
    if rows.len() > 0 {
        let rest = rows.drop_last();
        lemma_first_wins_size(rest);
        lemma_first_wins_distinct(rest);
        let p = chord_pair(rows.last().0);
        if first_wins(rest).contains_key(p) {
            let j = choose|j: int| 0 <= j < rest.len() && chord_pair(rest[j].0) == p;
            crate::table::lemma_rank_injective(rest[j].0, rows.last().0);
            assert(rows[j].0 == rows[rows.len() - 1].0);
        }
    }
}

proof fn lemma_problems_upto_contains(rows: Seq<(Chord, Action)>, n: int, q: Problem)
    requires
        0 <= n <= rows.len(),
    ensures
        problems_upto(rows, n).contains(q) <==> exists|k: int|
            0 <= k < n && #[trigger] row_problems(rows, k).contains(q),
    decreases n,
{
    if n > 0 {
        lemma_problems_upto_contains(rows, n - 1, q);
        let before = problems_upto(rows, n - 1);
        let here = row_problems(rows, n - 1);
        let all = problems_upto(rows, n);
        assert(all == before + here);
        if before.contains(q) {
            let x = choose|x: int| 0 <= x < before.len() && before[x] == q;
            assert(all[x] == q);
        }
        if here.contains(q) {
            let x = choose|x: int| 0 <= x < here.len() && here[x] == q;
            assert(all[before.len() + x] == q);
        }
        if all.contains(q) {
            let x = choose|x: int| 0 <= x < all.len() && all[x] == q;
            if x < before.len() {
                assert(before[x] == q);
            } else {
                assert(here[x - before.len()] == q);
            }
        }
    }
}

proof fn lemma_row_problems_content(rows: Seq<(Chord, Action)>, i: int, q: Problem)
    requires
        0 <= i < rows.len() <= usize::MAX,
    ensures
        row_problems(rows, i).contains(q) <==> problem_row(q) == i && match q {
            Problem::DuplicateChord { .. } => claimed_earlier(rows, i),
            Problem::EmptyAction { .. } => empty_action(rows[i].1),
            Problem::NoSuchDesktop { .. } => !empty_action(rows[i].1) && (rows[i].1
                == (Action::Desktop { index: 0 })),
        },
{
    let dup = if claimed_earlier(rows, i) {
        seq![Problem::DuplicateChord { row: i as usize }]
    } else {
        Seq::<Problem>::empty()
    };
    let other = if empty_action(rows[i].1) {
        seq![Problem::EmptyAction { row: i as usize }]
    } else if rows[i].1 matches Action::Desktop { index } && index == 0 {
        seq![Problem::NoSuchDesktop { row: i as usize }]
    } else {
        Seq::<Problem>::empty()
    };
    let all = row_problems(rows, i);
    assert(all == dup + other);
    if all.contains(q) {
        let x = choose|x: int| 0 <= x < all.len() && all[x] == q;
        if x < dup.len() {
            assert(dup[x] == q);
        } else {
            assert(other[x - dup.len()] == q);
        }
    }
    match q {
        Problem::DuplicateChord { .. } => {
            if problem_row(q) == i && claimed_earlier(rows, i) {
                assert(all[0] == q);
            }
        },
        _ => {
            if problem_row(q) == i && other.len() == 1 && other[0] == q {
                assert(all[dup.len() as int] == q);
            }
        },
    }
}

/// Desktops are numbered from one: a row is told its desktop does not exist
/// exactly when it asks for desktop 0. Desktop 1, the first one, is never
/// refused.
pub proof fn lemma_no_such_desktop_only_for_zero(rows: Seq<(Chord, Action)>, i: int)
    requires
        0 <= i < rows.len() <= usize::MAX,
    ensures
        problems_upto(rows, rows.len() as int).contains(no_such_desktop_at(i)) <==> (rows[i].1
            == (Action::Desktop { index: 0 })),
{
    let q = no_such_desktop_at(i);
    lemma_problems_upto_contains(rows, rows.len() as int, q);
    lemma_row_problems_content(rows, i, q);
    if exists|k: int| 0 <= k < rows.len() && #[trigger] row_problems(rows, k).contains(q) {
        let k = choose|k: int| 0 <= k < rows.len() && #[trigger] row_problems(rows, k).contains(q);
        lemma_row_problems_content(rows, k, q);
    }
}

/// A row is told it has nothing to do exactly when its Action is empty: an
/// empty identity or target, or a command that is only whitespace.
pub proof fn lemma_empty_action_reported(rows: Seq<(Chord, Action)>, i: int)
    requires
        0 <= i < rows.len() <= usize::MAX,
    ensures
        problems_upto(rows, rows.len() as int).contains(empty_action_at(i)) <==> empty_action(
            rows[i].1,
        ),
{
    let q = empty_action_at(i);
    lemma_problems_upto_contains(rows, rows.len() as int, q);
    lemma_row_problems_content(rows, i, q);
    if exists|k: int| 0 <= k < rows.len() && #[trigger] row_problems(rows, k).contains(q) {
        let k = choose|k: int| 0 <= k < rows.len() && #[trigger] row_problems(rows, k).contains(q);
        lemma_row_problems_content(rows, k, q);
    }
}

} // verus!
