//! The funnel: rejects most candidates on their first few terms and confirms
//! the rest on the full term count.

use crate::program::{terms_between, terms_fault, Program};
use crate::program_state::EvalError;
use crate::register_value::{clone_values, term_values, RegisterValue};
use crate::terms_to_program_id::{TermsEntryView, TermsToProgramIdSet};
use vstd::prelude::*;

verus! {

/// The constants that the miner builds its funnel with.
pub struct FunnelConfig {}

impl FunnelConfig {
    /// A candidate is looked up on this many leading terms.
    pub const MINIMUM_NUMBER_OF_REQUIRED_TERMS: usize = 10;

    /// A match is confirmed on this many terms.
    pub const TERM_COUNT: usize = 40;

    /// Stands in a reference sequence for a term that the corpus does not
    /// give, and matches any term.
    pub const WILDCARD_MAGIC_VALUE: i64 = -0x5eed_0f_10da;
}

/// How far a candidate, or a candidate with one reference sequence, got.
#[derive(Clone, Copy, Debug, PartialEq, Eq, Structural)]
pub enum FunnelState {
    /// No reference sequence agrees with the leading terms.
    Rejected,
    /// The leading terms agree; the full term count is yet to be compared.
    Promoted,
    /// All terms agree.
    Confirmed,
    /// The leading terms agree, a later term does not.
    Discarded,
}

/// True when a term of a reference sequence accepts a term of a candidate:
/// the wildcard accepts every term, another term only itself.
pub open spec fn term_matches(reference: int, candidate: int, wildcard: int) -> bool {
    reference == wildcard || reference == candidate
}

/// True when both sequences have `count` terms and each of the first `count`
/// terms of the reference accepts the candidate's.
pub open spec fn terms_match(reference: Seq<int>, candidate: Seq<int>, count: nat, wildcard: int) -> bool {
    &&& reference.len() >= count
    &&& candidate.len() >= count
    &&& forall|k: int|
        0 <= k < count ==> term_matches(#[trigger] reference[k], candidate[k], wildcard)
}

/// How far the candidate gets with one reference sequence.
pub open spec fn pair_state(
    reference: Seq<int>,
    candidate: Seq<int>,
    minimum_term_count: nat,
    term_count: nat,
    wildcard: int,
) -> FunnelState {
    if !terms_match(reference, candidate, minimum_term_count, wildcard) {
        FunnelState::Rejected
    } else if terms_match(reference, candidate, term_count, wildcard) {
        FunnelState::Confirmed
    } else {
        FunnelState::Discarded
    }
}

/// True when some reference sequence agrees with the candidate's leading
/// terms.
pub open spec fn any_promoted(
    entries: Seq<TermsEntryView>,
    candidate: Seq<int>,
    minimum_term_count: nat,
    wildcard: int,
) -> bool {
    exists|i: int|
        0 <= i < entries.len() && terms_match(
            (#[trigger] entries[i]).terms,
            candidate,
            minimum_term_count,
            wildcard,
        )
}

/// True when some reference sequence agrees with the candidate on all terms.
pub open spec fn any_confirmed(
    entries: Seq<TermsEntryView>,
    candidate: Seq<int>,
    minimum_term_count: nat,
    term_count: nat,
    wildcard: int,
) -> bool {
    exists|i: int|
        0 <= i < entries.len() && pair_state(
            (#[trigger] entries[i]).terms,
            candidate,
            minimum_term_count,
            term_count,
            wildcard,
        ) == FunnelState::Confirmed
}

/// The program ids of every reference sequence that the candidate is
/// confirmed against, in the order of the index.
pub open spec fn confirmed_ids(
    entries: Seq<TermsEntryView>,
    candidate: Seq<int>,
    minimum_term_count: nat,
    term_count: nat,
    wildcard: int,
) -> Seq<u32>
    decreases entries.len(),
{
    if entries.len() == 0 {
        Seq::empty()
    } else if pair_state(entries.last().terms, candidate, minimum_term_count, term_count, wildcard)
        == FunnelState::Confirmed {
        confirmed_ids(entries.drop_last(), candidate, minimum_term_count, term_count, wildcard)
            + entries.last().program_ids
    } else {
        confirmed_ids(entries.drop_last(), candidate, minimum_term_count, term_count, wildcard)
    }
}

/// How far the candidate gets against the whole index.
pub open spec fn candidate_state(
    entries: Seq<TermsEntryView>,
    candidate: Seq<int>,
    minimum_term_count: nat,
    term_count: nat,
    wildcard: int,
) -> FunnelState {
    if !any_promoted(entries, candidate, minimum_term_count, wildcard) {
        FunnelState::Rejected
    } else if any_confirmed(entries, candidate, minimum_term_count, term_count, wildcard) {
        FunnelState::Confirmed
    } else {
        FunnelState::Discarded
    }
}

/// What the funnel reports of a candidate, as the contracts see it.
pub ghost struct FunnelResultView {
    pub state: FunnelState,
    pub program_ids: Seq<u32>,
    pub term_count: nat,
}

/// What the funnel reports of a candidate: how far it got, the programs of
/// every reference sequence it was confirmed against, and the term count that
/// the confirmation used.
#[derive(Clone, Debug, PartialEq, Eq)]
pub struct FunnelResult {
    pub state: FunnelState,
    pub program_ids: Vec<u32>,
    pub term_count: usize,
}

impl View for FunnelResult {
    type V = FunnelResultView;

    open spec fn view(&self) -> FunnelResultView {
        FunnelResultView {
            state: self.state,
            program_ids: self.program_ids@,
            term_count: self.term_count as nat,
        }
    }
}

/// What the funnel reports of the candidate terms.
pub open spec fn terms_outcome(
    entries: Seq<TermsEntryView>,
    candidate: Seq<int>,
    minimum_term_count: nat,
    term_count: nat,
    wildcard: int,
) -> FunnelResultView {
    FunnelResultView {
        state: candidate_state(entries, candidate, minimum_term_count, term_count, wildcard),
        program_ids: confirmed_ids(entries, candidate, minimum_term_count, term_count, wildcard),
        term_count,
    }
}

/// What the funnel reports of a candidate program.
///
/// The program is run for its leading terms only. A fault among them fails
/// the candidate. When no reference sequence agrees with them the candidate
/// is rejected, whatever its later terms would be. Otherwise the remaining
/// terms are computed, a fault among them fails the candidate, and the
/// candidate is judged on all terms.
pub open spec fn program_outcome(
    entries: Seq<TermsEntryView>,
    program: Seq<crate::node::NodeView>,
    step_limit: u64,
    minimum_term_count: nat,
    term_count: nat,
    wildcard: int,
) -> Result<FunnelResultView, EvalError> {
    let leading = terms_between(program, 0, minimum_term_count as int, step_limit);
    let remaining = terms_between(
        program,
        minimum_term_count as int,
        term_count as int,
        step_limit,
    );
    if let Some(e) = terms_fault(program, 0, minimum_term_count as int, step_limit) {
        Err(e)
    } else if !any_promoted(entries, leading, minimum_term_count, wildcard) {
        Ok(
            FunnelResultView {
                state: FunnelState::Rejected,
                program_ids: Seq::empty(),
                term_count,
            },
        )
    } else if let Some(e) = terms_fault(
        program,
        minimum_term_count as int,
        term_count as int,
        step_limit,
    ) {
        Err(e)
    } else {
        Ok(terms_outcome(entries, leading + remaining, minimum_term_count, term_count, wildcard))
    }
}

/// A wildcard in a reference sequence accepts whatever the candidate has at
/// its position: two candidates that differ only where the reference holds
/// the wildcard match it alike.
pub proof fn lemma_wildcard_matches_any_term(
    reference: Seq<int>,
    first: Seq<int>,
    second: Seq<int>,
    count: nat,
    wildcard: int,
)
    requires
        first.len() == second.len(),
        forall|k: int|
            0 <= k < first.len() && k < reference.len() && reference[k] != wildcard ==> first[k]
                == second[k],
    ensures
        terms_match(reference, first, count, wildcard) == terms_match(
            reference,
            second,
            count,
            wildcard,
        ),
{
    if terms_match(reference, first, count, wildcard) {
        assert forall|k: int| 0 <= k < count implies term_matches(
            #[trigger] reference[k],
            second[k],
            wildcard,
        ) by {}
    }
    if terms_match(reference, second, count, wildcard) {
        assert forall|k: int| 0 <= k < count implies term_matches(
            #[trigger] reference[k],
            first[k],
            wildcard,
        ) by {}
    }
}

/// A reference sequence made of wildcards alone accepts every candidate that
/// is long enough.
pub proof fn lemma_all_wildcards_match(
    reference: Seq<int>,
    candidate: Seq<int>,
    count: nat,
    wildcard: int,
)
    requires
        reference.len() >= count,
        candidate.len() >= count,
        forall|k: int| 0 <= k < count ==> reference[k] == wildcard,
    ensures
        terms_match(reference, candidate, count, wildcard),
{
}

/// Every id of a confirmed reference sequence is reported, and every reported
/// id belongs to a confirmed reference sequence.
pub proof fn lemma_confirmed_ids(
    entries: Seq<TermsEntryView>,
    candidate: Seq<int>,
    minimum_term_count: nat,
    term_count: nat,
    wildcard: int,
    program_id: u32,
)
    ensures
        confirmed_ids(entries, candidate, minimum_term_count, term_count, wildcard).contains(
            program_id,
        ) <==> exists|i: int|
            0 <= i < entries.len() && pair_state(
                (#[trigger] entries[i]).terms,
                candidate,
                minimum_term_count,
                term_count,
                wildcard,
            ) == FunnelState::Confirmed && entries[i].program_ids.contains(program_id),
    decreases entries.len(),
{
    let ids = confirmed_ids(entries, candidate, minimum_term_count, term_count, wildcard);
    if entries.len() > 0 {
        let rest = entries.drop_last();
        let fewer = confirmed_ids(rest, candidate, minimum_term_count, term_count, wildcard);
        let last = entries.last();
        let last_confirmed = pair_state(
            last.terms,
            candidate,
            minimum_term_count,
            term_count,
            wildcard,
        ) == FunnelState::Confirmed;
        lemma_confirmed_ids(rest, candidate, minimum_term_count, term_count, wildcard, program_id);
        if ids.contains(program_id) {
            let k = choose|k: int| 0 <= k < ids.len() && ids[k] == program_id;
            if k < fewer.len() {
                assert(fewer[k] == program_id);
                let i = choose|i: int|
                    0 <= i < rest.len() && pair_state(
                        (#[trigger] rest[i]).terms,
                        candidate,
                        minimum_term_count,
                        term_count,
                        wildcard,
                    ) == FunnelState::Confirmed && rest[i].program_ids.contains(program_id);
                assert(entries[i] == rest[i]);
            } else {
                assert(last_confirmed);
                assert(last.program_ids[k - fewer.len()] == program_id);
                assert(entries[entries.len() - 1] == last);
            }
        }
        if exists|i: int|
            0 <= i < entries.len() && pair_state(
                (#[trigger] entries[i]).terms,
                candidate,
                minimum_term_count,
                term_count,
                wildcard,
            ) == FunnelState::Confirmed && entries[i].program_ids.contains(program_id) {
            let i = choose|i: int|
                0 <= i < entries.len() && pair_state(
                    (#[trigger] entries[i]).terms,
                    candidate,
                    minimum_term_count,
                    term_count,
                    wildcard,
                ) == FunnelState::Confirmed && entries[i].program_ids.contains(program_id);
            if i < entries.len() - 1 {
                assert(rest[i] == entries[i]);
                assert(fewer.contains(program_id));
                let k = choose|k: int| 0 <= k < fewer.len() && fewer[k] == program_id;
                assert(ids[k] == program_id);
            } else {
                let k = choose|k: int|
                    0 <= k < last.program_ids.len() && last.program_ids[k] == program_id;
                assert(ids[fewer.len() + k] == program_id);
            }
        }
    }
}

/// No false negative: a candidate whose terms equal the first `term_count`
/// terms of a reference sequence is not pruned on its leading terms, is
/// confirmed against that sequence, and is reported with every program id of
/// that sequence.
pub proof fn lemma_equal_terms_are_confirmed(
    entries: Seq<TermsEntryView>,
    at: int,
    candidate: Seq<int>,
    minimum_term_count: nat,
    term_count: nat,
    wildcard: int,
)
    requires
        0 <= at < entries.len(),
        minimum_term_count <= term_count,
        candidate.len() == term_count,
        entries[at].terms.len() >= term_count,
        entries[at].terms.take(term_count as int) == candidate,
    ensures
        any_promoted(
            entries,
            candidate.take(minimum_term_count as int),
            minimum_term_count,
            wildcard,
        ),
        pair_state(entries[at].terms, candidate, minimum_term_count, term_count, wildcard)
            == FunnelState::Confirmed,
        candidate_state(entries, candidate, minimum_term_count, term_count, wildcard)
            == FunnelState::Confirmed,
        forall|k: int|
            0 <= k < entries[at].program_ids.len() ==> confirmed_ids(
                entries,
                candidate,
                minimum_term_count,
                term_count,
                wildcard,
            ).contains(#[trigger] entries[at].program_ids[k]),
{
    let reference = entries[at].terms;
    assert forall|k: int| 0 <= k < term_count implies term_matches(
        #[trigger] reference[k],
        candidate[k],
        wildcard,
    ) by {
        assert(reference.take(term_count as int)[k] == candidate[k]);
    }
    assert(terms_match(reference, candidate, term_count, wildcard));
    assert(terms_match(reference, candidate, minimum_term_count, wildcard));
    let leading = candidate.take(minimum_term_count as int);
    assert forall|k: int| 0 <= k < minimum_term_count implies term_matches(
        #[trigger] reference[k],
        leading[k],
        wildcard,
    ) by {
        assert(reference.take(term_count as int)[k] == candidate[k]);
    }
    assert(terms_match(entries[at].terms, leading, minimum_term_count, wildcard));
    assert(terms_match(entries[at].terms, candidate, minimum_term_count, wildcard));
    assert forall|k: int| 0 <= k < entries[at].program_ids.len() implies confirmed_ids(
        entries,
        candidate,
        minimum_term_count,
        term_count,
        wildcard,
    ).contains(#[trigger] entries[at].program_ids[k]) by {
        lemma_confirmed_ids(
            entries,
            candidate,
            minimum_term_count,
            term_count,
            wildcard,
            entries[at].program_ids[k],
        );
    }
}

/// The fast reject prunes only what cannot match: when no reference sequence
/// agrees with the candidate's leading terms, none is confirmed against the
/// candidate, whatever its later terms are.
pub proof fn lemma_rejected_cannot_match(
    entries: Seq<TermsEntryView>,
    candidate: Seq<int>,
    minimum_term_count: nat,
    term_count: nat,
    wildcard: int,
)
    requires
        candidate.len() >= minimum_term_count,
        !any_promoted(
            entries,
            candidate.take(minimum_term_count as int),
            minimum_term_count,
            wildcard,
        ),
    ensures
        forall|i: int|
            0 <= i < entries.len() ==> pair_state(
                (#[trigger] entries[i]).terms,
                candidate,
                minimum_term_count,
                term_count,
                wildcard,
            ) == FunnelState::Rejected,
        terms_outcome(entries, candidate, minimum_term_count, term_count, wildcard)
            == (FunnelResultView {
            state: FunnelState::Rejected,
            program_ids: Seq::empty(),
            term_count,
        }),
{
    let leading = candidate.take(minimum_term_count as int);
    assert forall|i: int| 0 <= i < entries.len() implies !terms_match(
        (#[trigger] entries[i]).terms,
        candidate,
        minimum_term_count,
        wildcard,
    ) by {
        if terms_match(entries[i].terms, candidate, minimum_term_count, wildcard) {
            assert forall|k: int| 0 <= k < minimum_term_count implies term_matches(
                #[trigger] entries[i].terms[k],
                leading[k],
                wildcard,
            ) by {}
            assert(terms_match(entries[i].terms, leading, minimum_term_count, wildcard));
        }
    }
    lemma_nothing_confirmed(entries, candidate, minimum_term_count, term_count, wildcard);
}

/// Where no reference sequence is confirmed, no id is reported.
proof fn lemma_nothing_confirmed(
    entries: Seq<TermsEntryView>,
    candidate: Seq<int>,
    minimum_term_count: nat,
    term_count: nat,
    wildcard: int,
)
    requires
        forall|i: int|
            0 <= i < entries.len() ==> pair_state(
                (#[trigger] entries[i]).terms,
                candidate,
                minimum_term_count,
                term_count,
                wildcard,
            ) != FunnelState::Confirmed,
    ensures
        confirmed_ids(entries, candidate, minimum_term_count, term_count, wildcard) == Seq::<
            u32,
        >::empty(),
    decreases entries.len(),
{
    if entries.len() > 0 {
        assert(entries[entries.len() - 1] == entries.last());
        assert forall|i: int| 0 <= i < entries.drop_last().len() implies pair_state(
            (#[trigger] entries.drop_last()[i]).terms,
            candidate,
            minimum_term_count,
            term_count,
            wildcard,
        ) != FunnelState::Confirmed by {
            assert(entries.drop_last()[i] == entries[i]);
        }
        lemma_nothing_confirmed(
            entries.drop_last(),
            candidate,
            minimum_term_count,
            term_count,
            wildcard,
        );
    }
}

/// Tells whether the first `count` terms of `reference` accept those of
/// `candidate`.
pub fn terms_match_up_to(
    reference: &Vec<RegisterValue>,
    candidate: &Vec<RegisterValue>,
    count: usize,
    wildcard: &RegisterValue,
) -> (r: bool)
    ensures
        r == terms_match(
            term_values(reference@),
            term_values(candidate@),
            count as nat,
            wildcard@,
        ),
{
    if reference.len() < count || candidate.len() < count {
        return false;
    }
    let mut k: usize = 0;
    while k < count
        invariant
            k <= count,
            reference@.len() >= count,
            candidate@.len() >= count,
            forall|j: int|
                0 <= j < k ==> term_matches(
                    #[trigger] term_values(reference@)[j],
                    term_values(candidate@)[j],
                    wildcard@,
                ),
        decreases count - k,
    {
        if !reference[k].equals(wildcard) && !reference[k].equals(&candidate[k]) {
            assert(!term_matches(
                term_values(reference@)[k as int],
                term_values(candidate@)[k as int],
                wildcard@,
            ));
            return false;
        }
        k += 1;
    }
    true
}

/// Appends `source` to `target`.
fn append_ids(target: &mut Vec<u32>, source: &Vec<u32>)
    ensures
        final(target)@ == old(target)@ + source@,
{
    let mut k: usize = 0;
    assert(target@ =~= old(target)@ + source@.take(0));
    while k < source.len()
        invariant
            k <= source@.len(),
            target@ == old(target)@ + source@.take(k as int),
        decreases source@.len() - k,
    {
        target.push(source[k]);
        k += 1;
        assert(target@ =~= old(target)@ + source@.take(k as int));
    }
    assert(source@.take(k as int) =~= source@);
}

/// The staged matcher of candidate terms against the reference corpus.
pub struct Funnel {
    pub minimum_term_count: usize,
    pub term_count: usize,
    pub wildcard: RegisterValue,
    pub terms_to_program_id: TermsToProgramIdSet,
}

impl Funnel {
    /// True when the leading terms are no more than all terms.
    pub open spec fn wf(&self) -> bool {
        self.minimum_term_count <= self.term_count
    }

    /// A funnel over `terms_to_program_id`.
    pub fn new(
        minimum_term_count: usize,
        term_count: usize,
        wildcard: RegisterValue,
        terms_to_program_id: TermsToProgramIdSet,
    ) -> (r: Self)
        ensures
            r.minimum_term_count == minimum_term_count,
            r.term_count == term_count,
            r.wildcard == wildcard,
            r.terms_to_program_id == terms_to_program_id,
    {
        Funnel { minimum_term_count, term_count, wildcard, terms_to_program_id }
    }

    /// A funnel over `terms_to_program_id` with the miner's constants.
    pub fn with_default_config(terms_to_program_id: TermsToProgramIdSet) -> (r: Self)
        ensures
            r.wf(),
            r.minimum_term_count == FunnelConfig::MINIMUM_NUMBER_OF_REQUIRED_TERMS,
            r.term_count == FunnelConfig::TERM_COUNT,
            r.wildcard@ == FunnelConfig::WILDCARD_MAGIC_VALUE,
            r.terms_to_program_id == terms_to_program_id,
    {
        Funnel {
            minimum_term_count: FunnelConfig::MINIMUM_NUMBER_OF_REQUIRED_TERMS,
            term_count: FunnelConfig::TERM_COUNT,
            wildcard: RegisterValue::from_i64(FunnelConfig::WILDCARD_MAGIC_VALUE),
            terms_to_program_id,
        }
    }

    /// How far the candidate gets with the reference sequence at position
    /// `at` of the index; nothing when the index has no such position.
    pub fn check_pair(&self, at: usize, candidate: &Vec<RegisterValue>) -> (r: Option<FunnelState>)
        ensures
            r is Some <==> at < self.terms_to_program_id@.len(),
            r matches Some(state) ==> state == pair_state(
                self.terms_to_program_id@[at as int].terms,
                term_values(candidate@),
                self.minimum_term_count as nat,
                self.term_count as nat,
                self.wildcard@,
            ),
    {
        if at >= self.terms_to_program_id.entries.len() {
            return None;
        }
        let reference = &self.terms_to_program_id.entries[at].terms;
        if !terms_match_up_to(reference, candidate, self.minimum_term_count, &self.wildcard) {
            Some(FunnelState::Rejected)
        } else if terms_match_up_to(reference, candidate, self.term_count, &self.wildcard) {
            Some(FunnelState::Confirmed)
        } else {
            Some(FunnelState::Discarded)
        }
    }

    /// The fast reject: looks the leading terms up.
    ///
    /// `Promoted` when some reference sequence agrees with them, else
    /// `Rejected`.
    pub fn check_minimum(&self, leading: &Vec<RegisterValue>) -> (r: FunnelState)
        ensures
            r == if any_promoted(
                self.terms_to_program_id@,
                term_values(leading@),
                self.minimum_term_count as nat,
                self.wildcard@,
            ) {
                FunnelState::Promoted
            } else {
                FunnelState::Rejected
            },
    {
        let ghost entries = self.terms_to_program_id@;
        let mut i: usize = 0;
        while i < self.terms_to_program_id.entries.len()
            invariant
                entries == self.terms_to_program_id@,
                i <= entries.len(),
                forall|k: int|
                    0 <= k < i ==> !terms_match(
                        (#[trigger] entries[k]).terms,
                        term_values(leading@),
                        self.minimum_term_count as nat,
                        self.wildcard@,
                    ),
            decreases entries.len() - i,
        {
            if terms_match_up_to(
                &self.terms_to_program_id.entries[i].terms,
                leading,
                self.minimum_term_count,
                &self.wildcard,
            ) {
                assert(terms_match(
                    entries[i as int].terms,
                    term_values(leading@),
                    self.minimum_term_count as nat,
                    self.wildcard@,
                ));
                return FunnelState::Promoted;
            }
            i += 1;
        }
        FunnelState::Rejected
    }

    /// Judges the candidate on all its terms.
    pub fn check_terms(&self, candidate: &Vec<RegisterValue>) -> (r: FunnelResult)
        ensures
            r@ == terms_outcome(
                self.terms_to_program_id@,
                term_values(candidate@),
                self.minimum_term_count as nat,
                self.term_count as nat,
                self.wildcard@,
            ),
    {
        let ghost entries = self.terms_to_program_id@;
        let ghost terms = term_values(candidate@);
        let ghost min = self.minimum_term_count as nat;
        let ghost count = self.term_count as nat;
        let ghost wildcard = self.wildcard@;
        let mut program_ids: Vec<u32> = Vec::new();
        let mut promoted: bool = false;
        let mut confirmed: bool = false;
        let mut i: usize = 0;
        while i < self.terms_to_program_id.entries.len()
            invariant
                entries == self.terms_to_program_id@,
                terms == term_values(candidate@),
                min == self.minimum_term_count,
                count == self.term_count,
                wildcard == self.wildcard@,
                i <= entries.len(),
                promoted == any_promoted(entries.take(i as int), terms, min, wildcard),
                confirmed == any_confirmed(entries.take(i as int), terms, min, count, wildcard),
                program_ids@ == confirmed_ids(entries.take(i as int), terms, min, count, wildcard),
            decreases entries.len() - i,
        {
            let ghost before = entries.take(i as int);
            let ghost after = entries.take(i + 1);
            let state = self.check_pair(i, candidate);
            proof {
                assert(after.drop_last() =~= before);
                assert(after.last() == entries[i as int]);
                assert(after[i as int] == entries[i as int]);
                if any_promoted(before, terms, min, wildcard) {
                    let k = choose|k: int|
                        0 <= k < before.len() && terms_match(
                            (#[trigger] before[k]).terms,
                            terms,
                            min,
                            wildcard,
                        );
                    assert(after[k] == before[k]);
                }
                if any_confirmed(before, terms, min, count, wildcard) {
                    let k = choose|k: int|
                        0 <= k < before.len() && pair_state(
                            (#[trigger] before[k]).terms,
                            terms,
                            min,
                            count,
                            wildcard,
                        ) == FunnelState::Confirmed;
                    assert(after[k] == before[k]);
                }
                if any_promoted(after, terms, min, wildcard) {
                    let k = choose|k: int|
                        0 <= k < after.len() && terms_match(
                            (#[trigger] after[k]).terms,
                            terms,
                            min,
                            wildcard,
                        );
                    if k < i {
                        assert(before[k] == after[k]);
                    }
                }
                if any_confirmed(after, terms, min, count, wildcard) {
                    let k = choose|k: int|
                        0 <= k < after.len() && pair_state(
                            (#[trigger] after[k]).terms,
                            terms,
                            min,
                            count,
                            wildcard,
                        ) == FunnelState::Confirmed;
                    if k < i {
                        assert(before[k] == after[k]);
                    }
                }
            }
            match state {
                Some(FunnelState::Rejected) => {},
                Some(FunnelState::Confirmed) => {
                    promoted = true;
                    confirmed = true;
                    append_ids(&mut program_ids, &self.terms_to_program_id.entries[i].program_ids);
                },
                _ => {
                    promoted = true;
                },
            }
            i += 1;
        }
        assert(entries.take(i as int) =~= entries);
        let state = if !promoted {
            FunnelState::Rejected
        } else if confirmed {
            FunnelState::Confirmed
        } else {
            FunnelState::Discarded
        };
        FunnelResult { state, program_ids, term_count: self.term_count }
    }

    /// Runs the candidate program through the funnel.
    ///
    /// Term `n` of the candidate is what the program gives for the input `n`.
    /// Only the leading terms are computed unless some reference sequence
    /// agrees with them.
    pub fn check_program(&self, program: &Program, step_limit: u64) -> (r: Result<
        FunnelResult,
        EvalError,
    >)
        ensures
            match r {
                Ok(result) => program_outcome(
                    self.terms_to_program_id@,
                    program@,
                    step_limit,
                    self.minimum_term_count as nat,
                    self.term_count as nat,
                    self.wildcard@,
                ) == Ok::<FunnelResultView, EvalError>(result@),
                Err(e) => program_outcome(
                    self.terms_to_program_id@,
                    program@,
                    step_limit,
                    self.minimum_term_count as nat,
                    self.term_count as nat,
                    self.wildcard@,
                ) == Err::<FunnelResultView, EvalError>(e),
            },
    {
        match self.check_program_with_terms(program, step_limit) {
            Ok(checked) => Ok(checked.0),
            Err(e) => Err(e),
        }
    }

    /// Runs the candidate program through the funnel and hands out, besides
    /// the result, the leading terms that the candidate was looked up on.
    pub fn check_program_with_terms(&self, program: &Program, step_limit: u64) -> (r: Result<
        (FunnelResult, Vec<RegisterValue>),
        EvalError,
    >)
        ensures
            match r {
                Ok(checked) => program_outcome(
                    self.terms_to_program_id@,
                    program@,
                    step_limit,
                    self.minimum_term_count as nat,
                    self.term_count as nat,
                    self.wildcard@,
                ) == Ok::<FunnelResultView, EvalError>(checked.0@) && term_values(checked.1@)
                    == terms_between(program@, 0, self.minimum_term_count as int, step_limit),
                Err(e) => program_outcome(
                    self.terms_to_program_id@,
                    program@,
                    step_limit,
                    self.minimum_term_count as nat,
                    self.term_count as nat,
                    self.wildcard@,
                ) == Err::<FunnelResultView, EvalError>(e),
            },
    {
        let leading_terms = match program.compute_terms(0, self.minimum_term_count, step_limit) {
            Ok(terms) => terms,
            Err(e) => {
                return Err(e);
            },
        };
        match self.check_minimum(&leading_terms) {
            FunnelState::Promoted => {},
            _ => {
                return Ok(
                    (
                        FunnelResult {
                            state: FunnelState::Rejected,
                            program_ids: Vec::new(),
                            term_count: self.term_count,
                        },
                        leading_terms,
                    ),
                );
            },
        }
        let mut terms = clone_values(&leading_terms);
        let ghost leading = term_values(terms@);
        let mut remaining = match program.compute_terms(
            self.minimum_term_count,
            self.term_count,
            step_limit,
        ) {
            Ok(terms) => terms,
            Err(e) => {
                return Err(e);
            },
        };
        let ghost rest = term_values(remaining@);
        terms.append(&mut remaining);
        assert(term_values(terms@) =~= leading + rest);
        Ok((self.check_terms(&terms), leading_terms))
    }
}

} // verus!
