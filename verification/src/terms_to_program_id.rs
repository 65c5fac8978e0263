//! The reference corpus as the funnel reads it: leading terms of known
//! sequences, each with the ids of the programs that already produce them.

use crate::register_value::{clone_values, same_values, term_values, RegisterValue};
use vstd::prelude::*;

verus! {

/// One key of the index and the programs known for it.
pub struct TermsEntry {
    pub terms: Vec<RegisterValue>,
    pub program_ids: Vec<u32>,
}

/// An entry as the contracts see it.
pub ghost struct TermsEntryView {
    pub terms: Seq<int>,
    pub program_ids: Seq<u32>,
}

impl View for TermsEntry {
    type V = TermsEntryView;

    open spec fn view(&self) -> TermsEntryView {
        TermsEntryView { terms: term_values(self.terms@), program_ids: self.program_ids@ }
    }
}

/// Maps a fixed-length tuple of terms to the set of program ids known for it.
///
/// A tuple may hold the wildcard value in place of a term that the corpus
/// does not give.
pub struct TermsToProgramIdSet {
    pub entries: Vec<TermsEntry>,
}

impl View for TermsToProgramIdSet {
    type V = Seq<TermsEntryView>;

    open spec fn view(&self) -> Seq<TermsEntryView> {
        Seq::new(self.entries@.len(), |i: int| self.entries@[i]@)
    }
}

/// The program ids that the entries hold for `key`.
pub open spec fn program_ids_of(entries: Seq<TermsEntryView>, key: Seq<int>) -> Set<u32>
    decreases entries.len(),
{
    if entries.len() == 0 {
        Set::empty()
    } else if entries.last().terms == key {
        program_ids_of(entries.drop_last(), key).union(entries.last().program_ids.to_set())
    } else {
        program_ids_of(entries.drop_last(), key)
    }
}

/// True when no two entries have the same key.
pub open spec fn keys_are_distinct(entries: Seq<TermsEntryView>) -> bool {
    forall|i: int, j: int|
        0 <= i < j < entries.len() ==> (#[trigger] entries[i]).terms != (#[trigger] entries[j]).terms
}

/// The key under which a sequence is filed: its first `term_count` terms,
/// with the wildcard in the places that the sequence does not reach.
pub open spec fn padded_key(terms: Seq<int>, term_count: nat, wildcard: int) -> Seq<int> {
    Seq::new(
        term_count,
        |k: int|
            if k < terms.len() {
                terms[k]
            } else {
                wildcard
            },
    )
}

/// Position of the first entry at or behind `from` that has the key, or the
/// number of entries.
pub open spec fn key_position(entries: Seq<TermsEntryView>, key: Seq<int>, from: int) -> int
    decreases entries.len() - from,
{
    if from < 0 || from >= entries.len() {
        entries.len() as int
    } else if entries[from].terms == key {
        from
    } else {
        key_position(entries, key, from + 1)
    }
}

/// The entries after `program_id` was filed under `key`: the first entry
/// with that key gains the id, unless it has it; without such an entry a new
/// one is added at the end.
pub open spec fn with_program_id(entries: Seq<TermsEntryView>, key: Seq<int>, program_id: u32) -> Seq<
    TermsEntryView,
> {
    let at = key_position(entries, key, 0);
    if at >= entries.len() {
        entries.push(TermsEntryView { terms: key, program_ids: seq![program_id] })
    } else if entries[at].program_ids.contains(program_id) {
        entries
    } else {
        entries.update(
            at,
            TermsEntryView { terms: key, program_ids: entries[at].program_ids.push(program_id) },
        )
    }
}

/// The position of a key is that of the first entry that has it.
pub proof fn lemma_key_position(entries: Seq<TermsEntryView>, key: Seq<int>, from: int, at: int)
    requires
        0 <= from <= at <= entries.len(),
        forall|i: int| from <= i < at ==> (#[trigger] entries[i]).terms != key,
        at < entries.len() ==> entries[at].terms == key,
    ensures
        key_position(entries, key, from) == at,
    decreases at - from,
{
    if from < at {
        lemma_key_position(entries, key, from + 1, at);
    }
}

/// What an entry holds for its key, the index holds for that key.
proof fn lemma_program_ids_of_contains(
    entries: Seq<TermsEntryView>,
    at: int,
    program_id: u32,
)
    requires
        0 <= at < entries.len(),
        entries[at].program_ids.contains(program_id),
    ensures
        program_ids_of(entries, entries[at].terms).contains(program_id),
    decreases entries.len(),
{
    if at < entries.len() - 1 {
        assert(entries.drop_last()[at] == entries[at]);
        lemma_program_ids_of_contains(entries.drop_last(), at, program_id);
    }
}

/// Filing a program id under a key adds the id to what the key holds and
/// changes nothing for any other key. Keys stay distinct.
pub proof fn lemma_with_program_id(
    entries: Seq<TermsEntryView>,
    key: Seq<int>,
    program_id: u32,
    other: Seq<int>,
)
    ensures
        program_ids_of(with_program_id(entries, key, program_id), other) == if other == key {
            program_ids_of(entries, other).insert(program_id)
        } else {
            program_ids_of(entries, other)
        },
        keys_are_distinct(entries) ==> keys_are_distinct(
            with_program_id(entries, key, program_id),
        ),
{
    let at = key_position(entries, key, 0);
    let after = with_program_id(entries, key, program_id);
    lemma_key_position_found(entries, key, 0);
    if at >= entries.len() {
        assert(after.drop_last() =~= entries);
        assert(after.last().program_ids.to_set() =~= Set::<u32>::empty().insert(program_id)) by {
            assert(after.last().program_ids[0] == program_id);
        }
        lemma_program_ids_of_absent(entries, key);
        if other == key {
            assert(program_ids_of(after, other) =~= program_ids_of(entries, other).insert(
                program_id,
            ));
        }
        if keys_are_distinct(entries) {
            assert forall|i: int, j: int| 0 <= i < j < after.len() implies (
            #[trigger] after[i]).terms != (#[trigger] after[j]).terms by {
                assert(after[i] == entries[i]);
                if j < entries.len() {
                    assert(after[j] == entries[j]);
                }
            }
        }
    } else if entries[at].program_ids.contains(program_id) {
        lemma_program_ids_of_contains(entries, at, program_id);
        if other == key {
            assert(program_ids_of(entries, other).insert(program_id) =~= program_ids_of(
                entries,
                other,
            ));
        }
    } else {
        lemma_program_ids_of_update(entries, at, program_id, other);
        if keys_are_distinct(entries) {
            assert forall|i: int, j: int| 0 <= i < j < after.len() implies (
            #[trigger] after[i]).terms != (#[trigger] after[j]).terms by {
                assert(after[i].terms == entries[i].terms);
                assert(after[j].terms == entries[j].terms);
            }
        }
    }
}

/// The position of a key lies in the index or just behind it; no entry before
/// it has the key, and the entry at it has.
proof fn lemma_key_position_found(entries: Seq<TermsEntryView>, key: Seq<int>, from: int)
    requires
        0 <= from <= entries.len(),
    ensures
        from <= key_position(entries, key, from) <= entries.len(),
        forall|i: int|
            from <= i < key_position(entries, key, from) ==> (#[trigger] entries[i]).terms != key,
        key_position(entries, key, from) < entries.len() ==> entries[key_position(
            entries,
            key,
            from,
        )].terms == key,
    decreases entries.len() - from,
{
    if from < entries.len() && entries[from].terms != key {
        lemma_key_position_found(entries, key, from + 1);
    }
}

/// Replacing equal entries one for one changes no lookup.
proof fn lemma_program_ids_of_update(
    entries: Seq<TermsEntryView>,
    at: int,
    program_id: u32,
    key: Seq<int>,
)
    requires
        0 <= at < entries.len(),
    ensures
        program_ids_of(
            entries.update(
                at,
                TermsEntryView {
                    terms: entries[at].terms,
                    program_ids: entries[at].program_ids.push(program_id),
                },
            ),
            key,
        ) == if key == entries[at].terms {
            program_ids_of(entries, key).insert(program_id)
        } else {
            program_ids_of(entries, key)
        },
    decreases entries.len(),
{
    let changed = TermsEntryView {
        terms: entries[at].terms,
        program_ids: entries[at].program_ids.push(program_id),
    };
    let updated = entries.update(at, changed);
    if at == entries.len() - 1 {
        assert(updated.drop_last() =~= entries.drop_last());
        assert(changed.program_ids.to_set() =~= entries[at].program_ids.to_set().insert(
            program_id,
        )) by {
            assert forall|id: u32| #[trigger]
                changed.program_ids.to_set().contains(id) <==> entries[at].program_ids.to_set().insert(
                    program_id,
                ).contains(id) by {
                if changed.program_ids.contains(id) {
                    let k = choose|k: int|
                        0 <= k < changed.program_ids.len() && changed.program_ids[k] == id;
                    if k < entries[at].program_ids.len() {
                        assert(entries[at].program_ids[k] == id);
                    }
                }
                if entries[at].program_ids.contains(id) {
                    let k = choose|k: int|
                        0 <= k < entries[at].program_ids.len() && entries[at].program_ids[k] == id;
                    assert(changed.program_ids[k] == id);
                }
                if id == program_id {
                    assert(changed.program_ids[changed.program_ids.len() - 1] == id);
                }
            }
        }
        if key == entries[at].terms {
            assert(program_ids_of(updated, key) =~= program_ids_of(entries, key).insert(
                program_id,
            ));
        }
    } else {
        lemma_program_ids_of_update(entries.drop_last(), at, program_id, key);
        assert(updated.drop_last() =~= entries.drop_last().update(at, changed));
        assert(updated.last() == entries.last());
        if key == entries[at].terms {
            assert(program_ids_of(updated, key) =~= program_ids_of(entries, key).insert(
                program_id,
            ));
        }
    }
}

/// No entry has the key: nothing is known for it.
proof fn lemma_program_ids_of_absent(entries: Seq<TermsEntryView>, key: Seq<int>)
    requires
        forall|i: int| 0 <= i < entries.len() ==> (#[trigger] entries[i]).terms != key,
    ensures
        program_ids_of(entries, key) == Set::<u32>::empty(),
    decreases entries.len(),
{
    if entries.len() > 0 {
        assert(entries[entries.len() - 1].terms != key);
        assert forall|i: int| 0 <= i < entries.drop_last().len() implies (
        #[trigger] entries.drop_last()[i]).terms != key by {
            assert(entries.drop_last()[i] == entries[i]);
        }
        lemma_program_ids_of_absent(entries.drop_last(), key);
    }
}

impl TermsToProgramIdSet {
    /// An index that knows nothing.
    pub fn new() -> (r: Self)
        ensures
            r@ == Seq::<TermsEntryView>::empty(),
    {
        let r = TermsToProgramIdSet { entries: Vec::new() };
        assert(r@ =~= Seq::<TermsEntryView>::empty());
        r
    }

    /// Number of keys.
    pub fn len(&self) -> (r: usize)
        ensures
            r == self@.len(),
    {
        self.entries.len()
    }

    /// Position of the entry with the key `terms`, if there is one.
    pub fn find(&self, terms: &Vec<RegisterValue>) -> (r: Option<usize>)
        ensures
            match r {
                Some(at) => at < self@.len() && self@[at as int].terms == term_values(terms@)
                    && forall|i: int| 0 <= i < at ==> (#[trigger] self@[i]).terms != term_values(
                    terms@,
                ),
                None => forall|i: int|
                    0 <= i < self@.len() ==> (#[trigger] self@[i]).terms != term_values(terms@),
            },
    {
        let mut i: usize = 0;
        while i < self.entries.len()
            invariant
                i <= self.entries@.len(),
                forall|k: int| 0 <= k < i ==> (#[trigger] self@[k]).terms != term_values(terms@),
            decreases self.entries@.len() - i,
        {
            if same_values(&self.entries[i].terms, terms) {
                return Some(i);
            }
            i += 1;
        }
        None
    }

    /// Files `program_id` under the key `terms`.
    pub fn insert(&mut self, terms: &Vec<RegisterValue>, program_id: u32)
        ensures
            final(self)@ == with_program_id(old(self)@, term_values(terms@), program_id),
    {
        let ghost before = self@;
        let ghost key = term_values(terms@);
        match self.find(terms) {
            Some(at) => {
                proof {
                    lemma_key_position(before, key, 0, at as int);
                }
                if !contains_id(&self.entries[at].program_ids, program_id) {
                    self.entries[at].program_ids.push(program_id);
                    assert(self@ =~= with_program_id(before, key, program_id));
                }
            },
            None => {
                proof {
                    lemma_key_position(before, key, 0, before.len() as int);
                }
                let mut program_ids: Vec<u32> = Vec::new();
                program_ids.push(program_id);
                self.entries.push(TermsEntry { terms: clone_values(terms), program_ids });
                assert(self@.last().program_ids =~= seq![program_id]);
                assert(self@ =~= with_program_id(before, key, program_id));
            },
        }
    }

    /// Files a sequence of the corpus, unless it has fewer than
    /// `minimum_term_count` terms: under its first `term_count` terms, padded
    /// with the wildcard. Tells whether the sequence was filed.
    pub fn insert_sequence(
        &mut self,
        program_id: u32,
        terms: &Vec<RegisterValue>,
        minimum_term_count: usize,
        term_count: usize,
        wildcard: &RegisterValue,
    ) -> (r: bool)
        ensures
            r == (terms@.len() >= minimum_term_count),
            final(self)@ == if r {
                with_program_id(
                    old(self)@,
                    padded_key(term_values(terms@), term_count as nat, wildcard@),
                    program_id,
                )
            } else {
                old(self)@
            },
    {
        if terms.len() < minimum_term_count {
            return false;
        }
        let mut key: Vec<RegisterValue> = Vec::new();
        let mut k: usize = 0;
        while k < term_count
            invariant
                k <= term_count,
                key@.len() == k,
                forall|j: int|
                    0 <= j < k ==> (#[trigger] key@[j])@ == if j < terms@.len() {
                        terms@[j]@
                    } else {
                        wildcard@
                    },
            decreases term_count - k,
        {
            if k < terms.len() {
                key.push(terms[k].clone());
            } else {
                key.push(wildcard.clone());
            }
            k += 1;
        }
        assert(term_values(key@) =~= padded_key(
            term_values(terms@),
            term_count as nat,
            wildcard@,
        ));
        self.insert(&key, program_id);
        true
    }
}

/// Tells whether `program_id` is among `program_ids`.
fn contains_id(program_ids: &Vec<u32>, program_id: u32) -> (r: bool)
    ensures
        r == program_ids@.contains(program_id),
{
    let mut i: usize = 0;
    while i < program_ids.len()
        invariant
            i <= program_ids@.len(),
            forall|k: int| 0 <= k < i ==> program_ids@[k] != program_id,
        decreases program_ids@.len() - i,
    {
        if program_ids[i] == program_id {
            return true;
        }
        i += 1;
    }
    false
}

} // verus!
