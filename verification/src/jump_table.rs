//! The jump table: a mapping from label name to the zero-based position
//! of that label's defining instruction within the program.
//!
//! A later entry for the same name silently replaces the earlier one, so
//! the table's abstract value is a [`Map`] from character sequence to
//! position in which the last insertion wins.  The table is backed by a
//! plain vector of entries; a lookup scans from the newest entry
//! backwards, which realises exactly the overwrite-on-collision
//! semantics.

use vstd::prelude::*;

verus! {

/// A label-to-position table with overwrite-on-collision semantics.
#[derive(Debug)]
pub struct JumpTable {
    entries: Vec<(String, usize)>,
}

/// The map described by a sequence of insertions, later entries
/// overwriting earlier ones.
pub open spec fn entries_map(entries: Seq<(String, usize)>) -> Map<Seq<char>, nat>
    decreases entries.len(),
{
    if entries.len() == 0 {
        Map::empty()
    } else {
        entries_map(entries.drop_last()).insert(
            entries.last().0@,
            entries.last().1 as nat,
        )
    }
}

impl View for JumpTable {
    type V = Map<Seq<char>, nat>;

    closed spec fn view(&self) -> Map<Seq<char>, nat> {
        entries_map(self.entries@)
    }
}

/// Every position recorded in the map lies below `bound`.
pub open spec fn targets_below(m: Map<Seq<char>, nat>, bound: nat) -> bool {
    forall|l: Seq<char>| m.contains_key(l) ==> #[trigger] m[l] < bound
}

/// An entry whose key differs from `label` leaves the map unchanged at
/// `label`; dropping a suffix of such entries therefore preserves what
/// the map says about `label`.
proof fn lemma_entries_map_no_suffix_match(entries: Seq<(String, usize)>, i: int, label: Seq<char>)
    requires
        0 <= i <= entries.len(),
        forall|j: int| i <= j < entries.len() ==> (#[trigger] entries[j].0)@ != label,
    ensures
        entries_map(entries).contains_key(label) == entries_map(entries.take(i)).contains_key(
            label,
        ),
        entries_map(entries).contains_key(label) ==> entries_map(entries)[label] == entries_map(
            entries.take(i),
        )[label],
    decreases entries.len() - i,
{
    if i == entries.len() {
        assert(entries.take(i) =~= entries);
    } else {
        lemma_entries_map_no_suffix_match(entries, i + 1, label);
        let prefix = entries.take(i + 1);
        assert(prefix.drop_last() =~= entries.take(i));
        assert(prefix.last() == entries[i]);
    }
}

impl JumpTable {
    /// Returns an empty jump table.
    pub fn new() -> (t: JumpTable)
        ensures
            t@ == Map::<Seq<char>, nat>::empty(),
    {
        JumpTable { entries: Vec::new() }
    }

    /// Records `position` for `label`, replacing any earlier entry for
    /// the same label.
    pub fn insert(&mut self, label: String, position: usize)
        ensures
            final(self)@ == old(self)@.insert(label@, position as nat),
    {
        let ghost before = self.entries@;
        self.entries.push((label, position));
        proof {
            assert(self.entries@.drop_last() =~= before);
        }
    }

    /// Looks up the position recorded for `label`, if any.
    pub fn get(&self, label: &String) -> (r: Option<usize>)
        ensures
            match r {
                Some(position) => self@.contains_key(label@) && position as nat == self@[label@],
                None => !self@.contains_key(label@),
            },
    {
        let mut i: usize = self.entries.len();
        while i > 0
            invariant
                i <= self.entries@.len(),
                forall|j: int|
                    i <= j < self.entries@.len() ==> (#[trigger] self.entries@[j].0)@ != label@,
            decreases i,
        {
            i = i - 1;
            if self.entries[i].0 == *label {
                proof {
                    lemma_entries_map_no_suffix_match(self.entries@, i + 1, label@);
                    let prefix = self.entries@.take(i + 1);
                    assert(prefix.drop_last() =~= self.entries@.take(i as int));
                    assert(prefix.last() == self.entries@[i as int]);
                }
                return Some(self.entries[i].1);
            }
        }
        proof {
            lemma_entries_map_no_suffix_match(self.entries@, 0, label@);
            assert(self.entries@.take(0) =~= Seq::<(String, usize)>::empty());
        }
        None
    }
}

} // verus!
