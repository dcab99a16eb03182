//! The set of Bindings in force.
//!
//! Held as rows sorted in key-table order: by modifiers, then by key, which is
//! the order `Chord` sorts in. A Chord appears at most once, and iteration
//! order is therefore fixed, so writing the config file produces the same
//! bytes every time.

use vstd::prelude::*;

use crate::action::Action;
use crate::chord::{lemma_modifiers_eq, Chord};
use crate::keys::{key_index, lemma_key_rows};

verus! {

/// Where a Chord sorts: modifiers first, then the key's row in the table.
pub open spec fn rank(c: (u8, crate::keys::Key)) -> int {
    (c.0 as int) * 128 + key_index(c.1)
}

/// A Chord as the pair the table is keyed by.
pub open spec fn chord_pair(c: Chord) -> (u8, crate::keys::Key) {
    (c.mods@, c.key)
}

/// Rows strictly ascending by rank, so no Chord appears twice.
pub open spec fn ascending(rows: Seq<(Chord, Action)>) -> bool {
    forall|i: int, j: int|
        0 <= i < j < rows.len() ==> rank(chord_pair(#[trigger] rows[i].0)) < rank(
            chord_pair(#[trigger] rows[j].0),
        )
}

/// The map that rows describe: each Chord to its Action.
pub open spec fn rows_map(rows: Seq<(Chord, Action)>) -> Map<(u8, crate::keys::Key), Action>
    decreases rows.len(),
{
    if rows.len() == 0 {
        Map::empty()
    } else {
        rows_map(rows.drop_last()).insert(chord_pair(rows.last().0), rows.last().1)
    }
}

/// Different Chords sort differently.
pub proof fn lemma_rank_injective(a: Chord, b: Chord)
    requires
        rank(chord_pair(a)) == rank(chord_pair(b)),
    ensures
        a == b,
{
    lemma_key_rows(a.key);
    lemma_key_rows(b.key);
    lemma_modifiers_eq(a.mods, b.mods);
}

/// What `rows_map` holds, entry by entry, for rows with no Chord twice.
pub proof fn lemma_rows_map(rows: Seq<(Chord, Action)>)
    requires
        ascending(rows),
    ensures
        forall|p: (u8, crate::keys::Key)|
            #[trigger] rows_map(rows).contains_key(p) <==> exists|i: int|
                0 <= i < rows.len() && chord_pair(rows[i].0) == p,
        forall|i: int|
            0 <= i < rows.len() ==> #[trigger] rows_map(rows)[chord_pair(rows[i].0)]
                == rows[i].1,
        rows_map(rows).dom().finite(),
        rows_map(rows).dom().len() == rows.len(),
    decreases rows.len(),
{
    if rows.len() > 0 {
        let rest = rows.drop_last();
        assert(ascending(rest));
        lemma_rows_map(rest);
        let last = chord_pair(rows.last().0);
        assert forall|p: (u8, crate::keys::Key)|
            #[trigger] rows_map(rows).contains_key(p) <==> exists|i: int|
                0 <= i < rows.len() && chord_pair(rows[i].0) == p by {
            if rows_map(rows).contains_key(p) && p != last {
                let i = choose|i: int| 0 <= i < rest.len() && chord_pair(rest[i].0) == p;
                assert(chord_pair(rows[i].0) == p);
            }
            if exists|i: int| 0 <= i < rows.len() && chord_pair(rows[i].0) == p {
                let i = choose|i: int| 0 <= i < rows.len() && chord_pair(rows[i].0) == p;
                if i < rows.len() - 1 {
                    assert(chord_pair(rest[i].0) == p);
                }
            }
        }
        assert forall|i: int| 0 <= i < rows.len() implies #[trigger] rows_map(
            rows,
        )[chord_pair(rows[i].0)] == rows[i].1 by {
            if i < rows.len() - 1 {
                assert(rank(chord_pair(rows[i].0)) < rank(last));
                assert(rest[i] == rows[i]);
            }
        }
        assert(!rows_map(rest).contains_key(last)) by {
            if rows_map(rest).contains_key(last) {
                let i = choose|i: int| 0 <= i < rest.len() && chord_pair(rest[i].0) == last;
                assert(rank(chord_pair(rows[i].0)) < rank(chord_pair(rows[rows.len() - 1].0)));
            }
        }
    }
}

/// The Bindings in force: at most one Action per Chord.
#[derive(Debug, PartialEq, Eq)]
pub struct BindingTable {
    rows: Vec<(Chord, Action)>,
}

impl View for BindingTable {
    type V = Map<(u8, crate::keys::Key), Action>;

    closed spec fn view(&self) -> Map<(u8, crate::keys::Key), Action> {
        rows_map(self.rows@)
    }
}

impl Clone for BindingTable {
    fn clone(&self) -> (t: Self)
        ensures
            t@ == self@,
    {
        proof {
            use_type_invariant(self);
        }
        let mut rows: Vec<(Chord, Action)> = Vec::new();
        let mut i: usize = 0;
        while i < self.rows.len()
            invariant
                i <= self.rows@.len(),
                rows@ == self.rows@.take(i as int),
            decreases self.rows.len() - i,
        {
            let (chord, action) = &self.rows[i];
            rows.push((*chord, action.clone()));
            assert(rows@ =~= self.rows@.take(i + 1));
            i = i + 1;
        }
        assert(rows@ =~= self.rows@);
        BindingTable { rows }
    }
}

impl BindingTable {
    #[verifier::type_invariant]
    closed spec fn well_formed(self) -> bool {
        ascending(self.rows@)
    }

    /// Nothing bound.
    pub fn empty() -> (t: Self)
        ensures
            t@ == Map::<(u8, crate::keys::Key), Action>::empty(),
    {
        BindingTable { rows: Vec::new() }
    }

    /// The Action bound to a Chord, if any.
    pub fn get(&self, chord: &Chord) -> (a: Option<&Action>)
        ensures
            a == (if self@.contains_key(chord_pair(*chord)) {
                Some(&self@[chord_pair(*chord)])
            } else {
                None
            }),
    {
        proof {
            use_type_invariant(self);
            lemma_rows_map(self.rows@);
        }
        let mut i: usize = 0;
        while i < self.rows.len()
            invariant
                ascending(self.rows@),
                i <= self.rows@.len(),
                forall|j: int| 0 <= j < i ==> self.rows@[j].0 != *chord,
            decreases self.rows.len() - i,
        {
            if self.rows[i].0 == *chord {
                proof {
                    lemma_rows_map(self.rows@);
                    let row = self.rows@[i as int];
                    assert(rows_map(self.rows@)[chord_pair(row.0)] == row.1);
                    assert(rows_map(self.rows@).contains_key(chord_pair(row.0)));
                }
                return Some(&self.rows[i].1);
            }
            i = i + 1;
        }
        proof {
            if self@.contains_key(chord_pair(*chord)) {
                let j = choose|j: int|
                    0 <= j < self.rows@.len() && chord_pair(self.rows@[j].0) == chord_pair(
                        *chord,
                    );
                lemma_rank_injective(self.rows@[j].0, *chord);
            }
        }
        None
    }

    /// Every Binding, in key-table order rather than in whatever order they
    /// were added, so that writing the config file produces the same bytes
    /// every time.
    pub fn sorted(&self) -> (all: Vec<(Chord, &Action)>)
        ensures
            all@.len() == self@.dom().len(),
            forall|i: int, j: int|
                0 <= i < j < all@.len() ==> rank(chord_pair(#[trigger] all@[i].0)) < rank(
                    chord_pair(#[trigger] all@[j].0),
                ),
            forall|i: int|
                0 <= i < all@.len() ==> self@.contains_key(chord_pair(#[trigger] all@[i].0))
                    && self@[chord_pair(all@[i].0)] == *all@[i].1,
            forall|p: (u8, crate::keys::Key)|
                #[trigger] self@.contains_key(p) ==> exists|i: int|
                    0 <= i < all@.len() && chord_pair(all@[i].0) == p,
    {
        proof {
            use_type_invariant(self);
            lemma_rows_map(self.rows@);
        }
        let mut all: Vec<(Chord, &Action)> = Vec::new();
        let mut i: usize = 0;
        while i < self.rows.len()
            invariant
                i <= self.rows@.len(),
                all@.len() == i,
                forall|j: int|
                    0 <= j < i ==> (#[trigger] all@[j]).0 == self.rows@[j].0 && *all@[j].1
                        == self.rows@[j].1,
            decreases self.rows.len() - i,
        {
            all.push((self.rows[i].0, &self.rows[i].1));
            i = i + 1;
        }
        proof {
            assert forall|i: int, j: int|
                0 <= i < j < all@.len() implies rank(chord_pair(#[trigger] all@[i].0)) < rank(
                chord_pair(#[trigger] all@[j].0),
            ) by {
                assert(all@[i].0 == self.rows@[i].0);
                assert(all@[j].0 == self.rows@[j].0);
            }
            assert forall|p: (u8, crate::keys::Key)| #[trigger]
                self@.contains_key(p) implies exists|i: int|
                0 <= i < all@.len() && chord_pair(all@[i].0) == p by {
                let i = choose|i: int|
                    0 <= i < self.rows@.len() && chord_pair(self.rows@[i].0) == p;
                assert(all@[i].0 == self.rows@[i].0);
            }
        }
        all
    }

    /// Where a Chord's row is, or where it would go.
    fn locate(&self, chord: Chord) -> (at: Result<usize, usize>)
        ensures
            at matches Ok(i) ==> i < self.rows@.len() && self.rows@[i as int].0 == chord,
            at matches Err(i) ==> i <= self.rows@.len() && (forall|j: int|
                0 <= j < i ==> rank(chord_pair(#[trigger] self.rows@[j].0)) < rank(
                    chord_pair(chord),
                )) && (forall|j: int|
                i <= j < self.rows@.len() ==> rank(chord_pair(chord)) < rank(
                    chord_pair(#[trigger] self.rows@[j].0),
                )),
            (at is Err) == !self@.contains_key(chord_pair(chord)),
    {
        proof {
            use_type_invariant(self);
            lemma_rows_map(self.rows@);
        }
        let ghost rows = self.rows@;
        let want = chord.key.index() + (chord.mods.bits() as usize) * 128;
        let mut i: usize = 0;
        while i < self.rows.len()
            invariant
                self.rows@ == rows,
                ascending(rows),
                i <= rows.len(),
                want == rank(chord_pair(chord)),
                forall|j: int| 0 <= j < i ==> rank(chord_pair(#[trigger] rows[j].0)) < want,
            decreases self.rows.len() - i,
        {
            let here = self.rows[i].0;
            let at = here.key.index() + (here.mods.bits() as usize) * 128;
            if at == want {
                proof {
                    lemma_rank_injective(here, chord);
                    lemma_rows_map(rows);
                    assert(rows_map(rows).contains_key(chord_pair(rows[i as int].0)));
                }
                return Ok(i);
            }
            if at > want {
                proof {
                    lemma_rows_map(rows);
                    assert forall|j: int| i <= j < rows.len() implies want < rank(
                        chord_pair(#[trigger] rows[j].0),
                    ) by {
                        if j > i {
                            assert(rank(chord_pair(rows[i as int].0)) < rank(
                                chord_pair(rows[j].0),
                            ));
                        }
                    }
                    if rows_map(rows).contains_key(chord_pair(chord)) {
                        let j = choose|j: int|
                            0 <= j < rows.len() && chord_pair(rows[j].0) == chord_pair(chord);
                        assert(rank(chord_pair(rows[j].0)) == want);
                    }
                }
                return Err(i);
            }
            i = i + 1;
        }
        proof {
            if rows_map(rows).contains_key(chord_pair(chord)) {
                let j = choose|j: int| 0 <= j < rows.len() && chord_pair(rows[j].0) == chord_pair(chord);
                assert(rank(chord_pair(rows[j].0)) == want);
            }
        }
        Err(i)
    }

    /// Adds a Binding, keeping any Binding already on that Chord.
    ///
    /// Returns whether the Chord was free. The first Binding wins so that a
    /// duplicate can be reported rather than silently overwriting.
    pub fn add(&mut self, chord: Chord, action: Action) -> (free: bool)
        ensures
            free == !old(self)@.contains_key(chord_pair(chord)),
            final(self)@ == (if free {
                old(self)@.insert(chord_pair(chord), action)
            } else {
                old(self)@
            }),
    {
        match self.locate(chord) {
            Ok(_) => false,
            Err(i) => {
                self.insert_row(i, chord, action);
                true
            },
        }
    }

    /// Binds a Chord, replacing any Binding already on it.
    fn put(&mut self, chord: Chord, action: Action)
        ensures
            final(self)@ == old(self)@.insert(chord_pair(chord), action),
    {
        match self.locate(chord) {
            Ok(i) => self.replace_row(i, chord, action),
            Err(i) => self.insert_row(i, chord, action),
        }
    }

    fn insert_row(&mut self, i: usize, chord: Chord, action: Action)
        requires
            i <= old(self).rows@.len(),
            forall|j: int|
                0 <= j < i ==> rank(chord_pair(#[trigger] old(self).rows@[j].0)) < rank(
                    chord_pair(chord),
                ),
            forall|j: int|
                i <= j < old(self).rows@.len() ==> rank(chord_pair(chord)) < rank(
                    chord_pair(#[trigger] old(self).rows@[j].0),
                ),
        ensures
            final(self)@ == old(self)@.insert(chord_pair(chord), action),
    {
        proof {
            use_type_invariant(&*self);
        }
        let ghost before = self.rows@;
        let ghost after = before.insert(i as int, (chord, action));
        proof {
            assert(ascending(after)) by {
                assert forall|a: int, b: int| 0 <= a < b < after.len() implies rank(
                    chord_pair(#[trigger] after[a].0),
                ) < rank(chord_pair(#[trigger] after[b].0)) by {
                    if a < i && b > i {
                        assert(after[b] == before[b - 1]);
                    } else if a > i {
                        assert(after[a] == before[a - 1]);
                        assert(after[b] == before[b - 1]);
                    } else if b < i {
                    } else if a == i {
                        assert(after[b] == before[b - 1]);
                    } else {
                        assert(after[a] == before[a]);
                    }
                }
            }
            lemma_rows_map(before);
            lemma_rows_map(after);
            assert(rows_map(after) =~= rows_map(before).insert(chord_pair(chord), action)) by {
                assert forall|p: (u8, crate::keys::Key)| #[trigger]
                    rows_map(after).contains_key(p) == rows_map(before).insert(
                        chord_pair(chord),
                        action,
                    ).contains_key(p) by {
                    if rows_map(after).contains_key(p) {
                        let k = choose|k: int| 0 <= k < after.len() && chord_pair(after[k].0) == p;
                        if k < i {
                            assert(after[k] == before[k]);
                            assert(rows_map(before).contains_key(chord_pair(before[k].0)));
                        } else if k > i {
                            assert(after[k] == before[k - 1]);
                            assert(rows_map(before).contains_key(chord_pair(before[k - 1].0)));
                        }
                    }
                    if rows_map(before).contains_key(p) {
                        let k = choose|k: int|
                            0 <= k < before.len() && chord_pair(before[k].0) == p;
                        if k < i {
                            assert(after[k] == before[k]);
                            assert(rows_map(after).contains_key(chord_pair(after[k].0)));
                        } else {
                            assert(after[k + 1] == before[k]);
                            assert(rows_map(after).contains_key(chord_pair(after[k + 1].0)));
                        }
                    }
                    if p == chord_pair(chord) {
                        assert(after[i as int].0 == chord);
                        assert(rows_map(after).contains_key(chord_pair(after[i as int].0)));
                    }
                }
                assert forall|p: (u8, crate::keys::Key)| #[trigger]
                    rows_map(after).contains_key(p) implies rows_map(after)[p] == rows_map(
                    before,
                ).insert(chord_pair(chord), action)[p] by {
                    let k = choose|k: int| 0 <= k < after.len() && chord_pair(after[k].0) == p;
                    if k < i {
                        assert(after[k] == before[k]);
                        assert(p != chord_pair(chord));
                    } else if k > i {
                        assert(after[k] == before[k - 1]);
                        assert(p != chord_pair(chord));
                    }
                }
            }
        }
        let mut rows: Vec<(Chord, Action)> = Vec::new();
        std::mem::swap(&mut rows, &mut self.rows);
        rows.insert(i, (chord, action));
        assert(rows@ == after);
        self.rows = rows;
    }

    fn replace_row(&mut self, i: usize, chord: Chord, action: Action)
        requires
            i < old(self).rows@.len(),
            old(self).rows@[i as int].0 == chord,
        ensures
            final(self)@ == old(self)@.insert(chord_pair(chord), action),
    {
        proof {
            use_type_invariant(&*self);
        }
        let ghost before = self.rows@;
        let ghost after = before.update(i as int, (chord, action));
        proof {
            assert forall|a: int, b: int| 0 <= a < b < after.len() implies rank(
                chord_pair(#[trigger] after[a].0),
            ) < rank(chord_pair(#[trigger] after[b].0)) by {
                assert(after[a].0 == before[a].0);
                assert(after[b].0 == before[b].0);
            }
            lemma_rows_map(before);
            lemma_rows_map(after);
            assert(rows_map(after) =~= rows_map(before).insert(chord_pair(chord), action)) by {
                assert forall|p: (u8, crate::keys::Key)| #[trigger]
                    rows_map(after).contains_key(p) == rows_map(before).insert(
                        chord_pair(chord),
                        action,
                    ).contains_key(p) by {
                    if rows_map(after).contains_key(p) {
                        let k = choose|k: int| 0 <= k < after.len() && chord_pair(after[k].0) == p;
                        assert(after[k].0 == before[k].0);
                    }
                    if rows_map(before).contains_key(p) {
                        let k = choose|k: int|
                            0 <= k < before.len() && chord_pair(before[k].0) == p;
                        assert(after[k].0 == before[k].0);
                    }
                }
                assert forall|p: (u8, crate::keys::Key)| #[trigger]
                    rows_map(after).contains_key(p) implies rows_map(after)[p] == rows_map(
                    before,
                ).insert(chord_pair(chord), action)[p] by {
                    let k = choose|k: int| 0 <= k < after.len() && chord_pair(after[k].0) == p;
                    if k != i {
                        assert(after[k] == before[k]);
                        if p == chord_pair(chord) {
                            lemma_rank_injective(before[k].0, chord);
                        }
                    }
                }
            }
        }
        let mut rows: Vec<(Chord, Action)> = Vec::new();
        std::mem::swap(&mut rows, &mut self.rows);
        rows.set(i, (chord, action));
        assert(rows@ == after);
        self.rows = rows;
    }

    /// A table from rows, a later row on the same Chord replacing an earlier
    /// one, as building a map from pairs does.
    pub fn from_pairs(pairs: Vec<(Chord, Action)>) -> (t: Self)
        ensures
            t@ == pairs_map(pairs@),
    {
        let ghost all = pairs@;
        let mut rest = pairs;
        let mut t = BindingTable::empty();
        while rest.len() > 0
            invariant
                all == all.take(all.len() - rest@.len()) + rest@,
                rest@.len() <= all.len(),
                t@ == pairs_map(all.take(all.len() - rest@.len())),
            decreases rest@.len(),
        {
            let ghost done = all.take(all.len() - rest@.len());
            let (chord, action) = rest.remove(0);
            t.put(chord, action);
            proof {
                let now = all.take(all.len() - rest@.len());
                assert(now =~= done.push((chord, action)));
                assert(now.drop_last() =~= done);
                assert(all =~= now + rest@);
            }
        }
        assert(all.take(all.len() as int) =~= all);
        t
    }
}

/// The map built from pairs in order, a later pair on the same Chord replacing
/// an earlier one.
pub open spec fn pairs_map(pairs: Seq<(Chord, Action)>) -> Map<(u8, crate::keys::Key), Action>
    decreases pairs.len(),
{
    if pairs.len() == 0 {
        Map::empty()
    } else {
        pairs_map(pairs.drop_last()).insert(chord_pair(pairs.last().0), pairs.last().1)
    }
}

} // verus!
