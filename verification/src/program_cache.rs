//! Memo of sub-program results within one top-level evaluation.

use crate::register_value::{clone_values, same_values, term_values, RegisterValue};
use vstd::prelude::*;

verus! {

/// One remembered result: which program, on which input, gave which output.
pub struct CacheEntry {
    pub program_id: u64,
    pub input: Vec<RegisterValue>,
    pub output: RegisterValue,
}

/// Results of sub-programs already computed during the current evaluation,
/// keyed by program identity and input.
pub struct ProgramCache {
    entries: Vec<CacheEntry>,
}

/// The output remembered for a key, the entry stored last winning.
pub open spec fn cache_lookup(entries: Seq<CacheEntry>, program_id: u64, input: Seq<int>) -> Option<
    int,
>
    decreases entries.len(),
{
    if entries.len() == 0 {
        None
    } else if entries.last().program_id == program_id && term_values(entries.last().input@)
        == input {
        Some(entries.last().output@)
    } else {
        cache_lookup(entries.drop_last(), program_id, input)
    }
}

impl View for ProgramCache {
    type V = Map<(u64, Seq<int>), int>;

    closed spec fn view(&self) -> Map<(u64, Seq<int>), int> {
        Map::new(
            |key: (u64, Seq<int>)| cache_lookup(self.entries@, key.0, key.1) is Some,
            |key: (u64, Seq<int>)| cache_lookup(self.entries@, key.0, key.1)->0,
        )
    }
}

impl ProgramCache {
    /// A cache that remembers nothing.
    pub fn new() -> (r: Self)
        ensures
            r@ == Map::<(u64, Seq<int>), int>::empty(),
    {
        let r = ProgramCache { entries: Vec::new() };
        assert(r@ =~= Map::<(u64, Seq<int>), int>::empty());
        r
    }

    /// The output remembered for `program_id` on `input`, if any.
    pub fn get(&self, program_id: u64, input: &Vec<RegisterValue>) -> (r: Option<RegisterValue>)
        ensures
            match r {
                Some(output) => self@.dom().contains((program_id, term_values(input@)))
                    && output@ == self@[(program_id, term_values(input@))],
                None => !self@.dom().contains((program_id, term_values(input@))),
            },
    {
        let ghost key = term_values(input@);
        let mut i: usize = self.entries.len();
        assert(self.entries@.subrange(0, i as int) =~= self.entries@);
        while i > 0
            invariant
                i <= self.entries.len(),
                key == term_values(input@),
                cache_lookup(self.entries@, program_id, key) == cache_lookup(
                    self.entries@.subrange(0, i as int),
                    program_id,
                    key,
                ),
            decreases i,
        {
            let ghost prefix = self.entries@.subrange(0, i as int);
            i -= 1;
            assert(prefix.drop_last() =~= self.entries@.subrange(0, i as int));
            assert(prefix.last() == self.entries@[i as int]);
            let entry = &self.entries[i];
            if entry.program_id == program_id && same_values(&entry.input, input) {
                return Some(entry.output.clone());
            }
        }
        assert(self.entries@.subrange(0, 0).len() == 0);
        None
    }

    /// Remembers `output` for `program_id` on `input`.
    pub fn set(&mut self, program_id: u64, input: &Vec<RegisterValue>, output: RegisterValue)
        ensures
            final(self)@ == old(self)@.insert((program_id, term_values(input@)), output@),
    {
        let entry = CacheEntry { program_id, input: clone_values(input), output };
        self.entries.push(entry);
        assert(self.entries@.drop_last() =~= old(self).entries@);
        assert(self@ =~= old(self)@.insert((program_id, term_values(input@)), output@));
    }
}

} // verus!
