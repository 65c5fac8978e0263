//! What biases the choice of mutations: how often each operation and each
//! constant occurs in known programs, how often one operation follows
//! another, the known programs by popularity, and the programs that must not
//! be used.

use crate::genome::GenomeItem;
use crate::node::Operation;
use crate::popular_program_container::{PopularProgramContainer, NUMBER_OF_CLUSTERS};
use crate::random::{choose_weighted_pair, weight_sum};
use rand::Rng;
use vstd::prelude::*;

verus! {

/// The genes of a known program.
#[derive(Clone, Debug)]
pub struct ProgramFragment {
    pub program_id: u32,
    pub items: Vec<GenomeItem>,
}

/// Statistics over the known programs, rebuilt with every analytics refresh
/// and read by every worker.
pub struct GenomeMutateContext {
    /// How often each operation occurs.
    pub operation_histogram: Vec<(Operation, usize)>,
    /// How often each operation follows each operation: the first, the one
    /// that follows it, and the count.
    pub operation_bigrams: Vec<(Operation, Operation, usize)>,
    /// How often each constant occurs.
    pub constant_histogram: Vec<(i32, usize)>,
    /// The known programs by popularity.
    pub popular_program_container: PopularProgramContainer,
    /// The genes of known programs, to splice from.
    pub program_fragments: Vec<ProgramFragment>,
    /// Programs that must not be used.
    pub deny_program_ids: Vec<u32>,
}

/// Positions and counts of a histogram, as the weighted choice wants them,
/// without the rows that count nothing.
pub open spec fn position_weights(counts: Seq<usize>) -> Seq<(usize, usize)>
    decreases counts.len(),
{
    if counts.len() == 0 {
        Seq::empty()
    } else if counts.last() > 0 {
        position_weights(counts.drop_last()).push(((counts.len() - 1) as usize, counts.last()))
    } else {
        position_weights(counts.drop_last())
    }
}

/// Sum of the counts of a histogram.
pub open spec fn count_sum(counts: Seq<usize>) -> nat
    decreases counts.len(),
{
    if counts.len() == 0 {
        0
    } else {
        count_sum(counts.drop_last()) + counts.last() as nat
    }
}

/// The counts of the first rows add up to no more than all counts do.
pub proof fn lemma_count_sum_grows(counts: Seq<usize>, upto: int)
    requires
        0 <= upto <= counts.len(),
    ensures
        count_sum(counts.take(upto)) <= count_sum(counts),
    decreases counts.len() - upto,
{
    if upto < counts.len() {
        lemma_count_sum_grows(counts, upto + 1);
        assert(counts.take(upto + 1).drop_last() =~= counts.take(upto));
    } else {
        assert(counts.take(upto) =~= counts);
    }
}

/// Every weighted position is a position of the histogram with a count above
/// zero.
pub proof fn lemma_position_weights(counts: Seq<usize>, k: int)
    requires
        0 <= k < position_weights(counts).len(),
        counts.len() <= usize::MAX,
    ensures
        position_weights(counts)[k].0 < counts.len(),
        counts[position_weights(counts)[k].0 as int] == position_weights(counts)[k].1,
        position_weights(counts)[k].1 > 0,
    decreases counts.len(),
{
    if counts.len() > 0 {
        let fewer = position_weights(counts.drop_last());
        if k < fewer.len() {
            lemma_position_weights(counts.drop_last(), k);
        }
    }
}

/// Picks a position of a histogram with a probability proportional to its
/// count. Nothing when no row counts anything or when the counts do not add
/// up in a `usize`.
pub fn choose_weighted_position<R: Rng + ?Sized>(rng: &mut R, counts: &Vec<usize>) -> (r: Option<
    usize,
>)
    ensures
        r is Some <==> 0 < count_sum(counts@) <= usize::MAX,
        r matches Some(position) ==> position < counts@.len() && counts@[position as int] > 0,
{
    let mut weights: Vec<(usize, usize)> = Vec::new();
    let mut total: usize = 0;
    let mut i: usize = 0;
    assert(counts@.take(0) =~= Seq::<usize>::empty());
    while i < counts.len()
        invariant
            i <= counts@.len(),
            weights@ == position_weights(counts@.take(i as int)),
            total == weight_sum(weights@),
            total == count_sum(counts@.take(i as int)),
            total == 0 <==> weights@.len() == 0,
        decreases counts@.len() - i,
    {
        assert(counts@.take(i + 1).drop_last() =~= counts@.take(i as int));
        assert(counts@.take(i + 1).last() == counts@[i as int]);
        if counts[i] > 0 {
            total = match total.checked_add(counts[i]) {
                Some(sum) => sum,
                None => {
                    proof {
                        lemma_count_sum_grows(counts@, i + 1);
                    }
                    return None;
                },
            };
            let ghost before = weights@;
            weights.push((i, counts[i]));
            assert(weights@.drop_last() =~= before);
        }
        i += 1;
    }
    assert(counts@.take(i as int) =~= counts@);
    if weights.len() == 0 {
        return None;
    }
    let picked = choose_weighted_pair(rng, &weights);
    proof {
        let k = choose|k: int| 0 <= k < weights@.len() && weights@[k] == picked;
        lemma_position_weights(counts@.take(i as int), k);
    }
    Some(picked.0)
}

impl GenomeMutateContext {
    /// A context without statistics over `popular_program_container`.
    pub fn new(popular_program_container: PopularProgramContainer) -> (r: Self)
        ensures
            r.operation_histogram@.len() == 0,
            r.operation_bigrams@.len() == 0,
            r.constant_histogram@.len() == 0,
            r.program_fragments@.len() == 0,
            r.deny_program_ids@.len() == 0,
            r.popular_program_container == popular_program_container,
    {
        GenomeMutateContext {
            operation_histogram: Vec::new(),
            operation_bigrams: Vec::new(),
            constant_histogram: Vec::new(),
            popular_program_container,
            program_fragments: Vec::new(),
            deny_program_ids: Vec::new(),
        }
    }

    /// Tells whether a program must not be used.
    pub fn is_denied(&self, program_id: u32) -> (r: bool)
        ensures
            r == self.deny_program_ids@.contains(program_id),
    {
        let mut i: usize = 0;
        while i < self.deny_program_ids.len()
            invariant
                i <= self.deny_program_ids@.len(),
                forall|k: int| 0 <= k < i ==> self.deny_program_ids@[k] != program_id,
            decreases self.deny_program_ids@.len() - i,
        {
            if self.deny_program_ids[i] == program_id {
                return true;
            }
            i += 1;
        }
        false
    }

    /// Position of the genes of a known program, if the context holds them.
    pub fn fragment_of(&self, program_id: u32) -> (r: Option<usize>)
        ensures
            match r {
                Some(at) => at < self.program_fragments@.len()
                    && self.program_fragments@[at as int].program_id == program_id,
                None => forall|i: int|
                    0 <= i < self.program_fragments@.len() ==> (
                    #[trigger] self.program_fragments@[i]).program_id != program_id,
            },
    {
        let mut i: usize = 0;
        while i < self.program_fragments.len()
            invariant
                i <= self.program_fragments@.len(),
                forall|k: int|
                    0 <= k < i ==> (#[trigger] self.program_fragments@[k]).program_id
                        != program_id,
            decreases self.program_fragments@.len() - i,
        {
            if self.program_fragments[i].program_id == program_id {
                return Some(i);
            }
            i += 1;
        }
        None
    }

    /// The counts of the operation histogram, row by row.
    pub open spec fn operation_counts(&self) -> Seq<usize> {
        Seq::new(self.operation_histogram@.len(), |i: int| self.operation_histogram@[i].1)
    }

    /// The counts of the operations that follow `previous`, row by row of the
    /// bigrams; zero for the rows of other operations.
    pub open spec fn counts_after(&self, previous: Operation) -> Seq<usize> {
        Seq::new(
            self.operation_bigrams@.len(),
            |i: int|
                if self.operation_bigrams@[i].0 == previous {
                    self.operation_bigrams@[i].2
                } else {
                    0
                },
        )
    }

    /// The counts of the constant histogram, row by row.
    pub open spec fn constant_counts(&self) -> Seq<usize> {
        Seq::new(self.constant_histogram@.len(), |i: int| self.constant_histogram@[i].1)
    }

    /// Picks an operation with a probability proportional to how often it
    /// occurs. Nothing when the histogram counts nothing or when its counts
    /// do not add up in a `usize`.
    pub fn choose_operation<R: Rng + ?Sized>(&self, rng: &mut R) -> (r: Option<Operation>)
        ensures
            r is Some <==> 0 < count_sum(self.operation_counts()) <= usize::MAX,
            r matches Some(operation) ==> exists|i: int|
                0 <= i < self.operation_histogram@.len() && (
                #[trigger] self.operation_histogram@[i]) == (operation, self.operation_histogram@[i].1)
                    && self.operation_histogram@[i].1 > 0,
    {
        let mut counts: Vec<usize> = Vec::new();
        let mut i: usize = 0;
        while i < self.operation_histogram.len()
            invariant
                i <= self.operation_histogram@.len(),
                counts@.len() == i,
                forall|k: int| 0 <= k < i ==> counts@[k] == self.operation_histogram@[k].1,
            decreases self.operation_histogram@.len() - i,
        {
            counts.push(self.operation_histogram[i].1);
            i += 1;
        }
        assert(counts@ =~= self.operation_counts());
        match choose_weighted_position(rng, &counts) {
            Some(position) => {
                let picked = self.operation_histogram[position].0;
                assert(self.operation_histogram@[position as int] == (
                    picked,
                    self.operation_histogram@[position as int].1,
                ));
                Some(picked)
            },
            None => None,
        }
    }

    /// Picks an operation to follow `previous`, with a probability
    /// proportional to how often it does. Nothing when nothing is known to
    /// follow `previous`.
    pub fn choose_operation_after<R: Rng + ?Sized>(&self, rng: &mut R, previous: Operation) -> (r:
        Option<Operation>)
        ensures
            r is Some <==> 0 < count_sum(self.counts_after(previous)) <= usize::MAX,
            r matches Some(operation) ==> exists|i: int|
                0 <= i < self.operation_bigrams@.len() && (#[trigger] self.operation_bigrams@[i])
                    == (previous, operation, self.operation_bigrams@[i].2)
                    && self.operation_bigrams@[i].2 > 0,
    {
        let mut counts: Vec<usize> = Vec::new();
        let mut i: usize = 0;
        while i < self.operation_bigrams.len()
            invariant
                i <= self.operation_bigrams@.len(),
                counts@.len() == i,
                forall|k: int|
                    0 <= k < i ==> counts@[k] == if self.operation_bigrams@[k].0 == previous {
                        self.operation_bigrams@[k].2
                    } else {
                        0
                    },
            decreases self.operation_bigrams@.len() - i,
        {
            if self.operation_bigrams[i].0 == previous {
                counts.push(self.operation_bigrams[i].2);
            } else {
                counts.push(0);
            }
            i += 1;
        }
        assert(counts@ =~= self.counts_after(previous));
        match choose_weighted_position(rng, &counts) {
            Some(position) => {
                let picked = self.operation_bigrams[position].1;
                assert(self.operation_bigrams@[position as int] == (
                    previous,
                    picked,
                    self.operation_bigrams@[position as int].2,
                ));
                Some(picked)
            },
            None => None,
        }
    }

    /// Picks a constant with a probability proportional to how often it
    /// occurs. Nothing when the histogram counts nothing or when its counts
    /// do not add up in a `usize`.
    pub fn choose_constant<R: Rng + ?Sized>(&self, rng: &mut R) -> (r: Option<i32>)
        ensures
            r is Some <==> 0 < count_sum(self.constant_counts()) <= usize::MAX,
            r matches Some(value) ==> exists|i: int|
                0 <= i < self.constant_histogram@.len() && (#[trigger] self.constant_histogram@[i])
                    == (value, self.constant_histogram@[i].1) && self.constant_histogram@[i].1
                    > 0,
    {
        let mut counts: Vec<usize> = Vec::new();
        let mut i: usize = 0;
        while i < self.constant_histogram.len()
            invariant
                i <= self.constant_histogram@.len(),
                counts@.len() == i,
                forall|k: int| 0 <= k < i ==> counts@[k] == self.constant_histogram@[k].1,
            decreases self.constant_histogram@.len() - i,
        {
            counts.push(self.constant_histogram[i].1);
            i += 1;
        }
        assert(counts@ =~= self.constant_counts());
        match choose_weighted_position(rng, &counts) {
            Some(position) => {
                let picked = self.constant_histogram[position].0;
                assert(self.constant_histogram@[position as int] == (
                    picked,
                    self.constant_histogram@[position as int].1,
                ));
                Some(picked)
            },
            None => None,
        }
    }

    /// True when the program may be used and the context holds its genes.
    pub open spec fn usable(&self, program_id: u32) -> bool {
        &&& !self.deny_program_ids@.contains(program_id)
        &&& exists|i: int|
            0 <= i < self.program_fragments@.len() && (
            #[trigger] self.program_fragments@[i]).program_id == program_id
    }

    /// Picks a known program by popularity and hands out its genes. Nothing
    /// when no program was picked, when the picked program is denied, and
    /// when the context does not hold its genes.
    pub fn choose_fragment<R: Rng + ?Sized>(&self, rng: &mut R) -> (r: Option<Vec<GenomeItem>>)
        ensures
            r matches Some(items) ==> exists|i: int|
                0 <= i < self.program_fragments@.len() && (
                #[trigger] self.program_fragments@[i]).items@ == items@ && self.usable(
                    self.program_fragments@[i].program_id,
                ),
            (forall|c: int, k: int|
                0 <= c < NUMBER_OF_CLUSTERS && 0 <= k < self.popular_program_container@[c].len()
                    ==> !self.usable(#[trigger] self.popular_program_container@[c][k]))
                ==> r is None,
            (forall|c: int|
                0 <= c < NUMBER_OF_CLUSTERS ==> (#[trigger] self.popular_program_container@[c]).len()
                    > 0) && (forall|c: int, k: int|
                0 <= c < NUMBER_OF_CLUSTERS && 0 <= k < self.popular_program_container@[c].len()
                    ==> self.usable(#[trigger] self.popular_program_container@[c][k])) ==> r is Some,
    {
        let program_id = match self.popular_program_container.choose_weighted_by_popularity(rng) {
            Some(program_id) => program_id,
            None => {
                return None;
            },
        };
        proof {
            let c = choose|c: int|
                0 <= c < NUMBER_OF_CLUSTERS && (#[trigger] self.popular_program_container@[c]).contains(
                    program_id,
                );
            let k = choose|k: int|
                0 <= k < self.popular_program_container@[c].len()
                    && self.popular_program_container@[c][k] == program_id;
            assert(self.popular_program_container@[c][k] == program_id);
        }
        if self.is_denied(program_id) {
            return None;
        }
        match self.fragment_of(program_id) {
            Some(at) => {
                let items = self.program_fragments[at].items.clone();
                assert(items@ =~= self.program_fragments@[at as int].items@);
                Some(items)
            },
            None => None,
        }
    }
}

} // verus!
