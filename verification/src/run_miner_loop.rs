//! One round of a mining worker: mutate the genome, run the candidate
//! through the funnel, and decide whether it is to be saved.

use crate::funnel::{program_outcome, Funnel, FunnelState};
use crate::genome::{
    items_valid, may_be_drawn, mutated, program_of, Genome, GenomeItem, Mutation,
};
use crate::genome_mutate_context::GenomeMutateContext;
use crate::prevent_flooding::{accepts, after_submission, PreventFlooding, PreventFloodingView};
use crate::node::program_text;
use crate::program::terms_between;
use crate::program_state::EvalError;
use crate::terms_to_program_id::TermsEntryView;
use rand::Rng;
use vstd::prelude::*;

verus! {

/// What became of a candidate.
#[derive(Clone, Debug, PartialEq, Eq)]
pub enum RoundOutcome {
    /// No mutation was accepted this round.
    NotMutated,
    /// The genome names a register that no program has.
    Invalid,
    /// The candidate failed while it was evaluated.
    Failed(EvalError),
    /// The candidate reproduces no reference sequence; the state tells
    /// whether it was rejected on its leading terms or discarded later.
    NoMatch(FunnelState),
    /// The candidate is confirmed, but its fingerprint was submitted within
    /// the expiry window.
    Suppressed { program_ids: Vec<u32> },
    /// The candidate is confirmed and is to be saved: the program text, the
    /// matched reference ids and the term count of the confirmation.
    Persist { program: String, program_ids: Vec<u32>, term_count: usize },
}

/// An outcome as the contracts see it.
pub ghost enum RoundOutcomeView {
    NotMutated,
    Invalid,
    Failed(EvalError),
    NoMatch(FunnelState),
    Suppressed { program_ids: Seq<u32> },
    Persist { program: Seq<char>, program_ids: Seq<u32>, term_count: nat },
}

impl View for RoundOutcome {
    type V = RoundOutcomeView;

    open spec fn view(&self) -> RoundOutcomeView {
        match self {
            RoundOutcome::NotMutated => RoundOutcomeView::NotMutated,
            RoundOutcome::Invalid => RoundOutcomeView::Invalid,
            RoundOutcome::Failed(e) => RoundOutcomeView::Failed(*e),
            RoundOutcome::NoMatch(state) => RoundOutcomeView::NoMatch(*state),
            RoundOutcome::Suppressed { program_ids } => RoundOutcomeView::Suppressed {
                program_ids: program_ids@,
            },
            RoundOutcome::Persist { program, program_ids, term_count } => RoundOutcomeView::Persist {
                program: program@,
                program_ids: program_ids@,
                term_count: *term_count as nat,
            },
        }
    }
}

/// What becomes of the candidate with the genes `items`, and the tracker
/// afterwards.
///
/// A confirmed candidate is submitted to the tracker under its leading terms
/// as fingerprint. It is saved when the tracker lets the submission through,
/// and suppressed when it does not. Nothing else touches the tracker.
pub open spec fn candidate_outcome(
    items: Seq<GenomeItem>,
    entries: Seq<TermsEntryView>,
    minimum_term_count: nat,
    term_count: nat,
    wildcard: int,
    tracker: PreventFloodingView,
    now: nat,
    step_limit: u64,
) -> (RoundOutcomeView, PreventFloodingView) {
    let program = program_of(items);
    let fingerprint = terms_between(program, 0, minimum_term_count as int, step_limit);
    if !items_valid(items, 256) {
        (RoundOutcomeView::Invalid, tracker)
    } else {
        match program_outcome(
            entries,
            program,
            step_limit,
            minimum_term_count,
            term_count,
            wildcard,
        ) {
            Err(e) => (RoundOutcomeView::Failed(e), tracker),
            Ok(result) => if result.state != FunnelState::Confirmed {
                (RoundOutcomeView::NoMatch(result.state), tracker)
            } else if accepts(tracker, fingerprint, now) {
                (
                    RoundOutcomeView::Persist {
                        program: program_text(program, program.len() as int),
                        program_ids: result.program_ids,
                        term_count: result.term_count,
                    },
                    after_submission(tracker, fingerprint, now),
                )
            } else {
                (RoundOutcomeView::Suppressed { program_ids: result.program_ids }, tracker)
            },
        }
    }
}

/// A candidate is saved only when the funnel confirms it and the tracker lets
/// it through, and then the tracker refuses the same candidate until the
/// window has elapsed.
pub proof fn lemma_saved_once(
    items: Seq<GenomeItem>,
    entries: Seq<TermsEntryView>,
    minimum_term_count: nat,
    term_count: nat,
    wildcard: int,
    tracker: PreventFloodingView,
    now: nat,
    later: nat,
    step_limit: u64,
)
    requires
        candidate_outcome(
            items,
            entries,
            minimum_term_count,
            term_count,
            wildcard,
            tracker,
            now,
            step_limit,
        ).0 is Persist,
        later < now + tracker.expiry_window,
    ensures
        candidate_outcome(
            items,
            entries,
            minimum_term_count,
            term_count,
            wildcard,
            candidate_outcome(
                items,
                entries,
                minimum_term_count,
                term_count,
                wildcard,
                tracker,
                now,
                step_limit,
            ).1,
            later,
            step_limit,
        ).0 is Suppressed,
{
}

/// Runs the candidate of `genome` through the funnel and, if it is confirmed,
/// submits it to the tracker at time `now`.
pub fn evaluate_candidate(
    genome: &Genome,
    funnel: &Funnel,
    prevent_flooding: &mut PreventFlooding,
    now: u64,
    step_limit: u64,
) -> (r: RoundOutcome)
    ensures
        (r@, final(prevent_flooding)@) == candidate_outcome(
            genome.items@,
            funnel.terms_to_program_id@,
            funnel.minimum_term_count as nat,
            funnel.term_count as nat,
            funnel.wildcard@,
            old(prevent_flooding)@,
            now as nat,
            step_limit,
        ),
{
    let program = match genome.to_program() {
        Some(program) => program,
        None => {
            return RoundOutcome::Invalid;
        },
    };
    let (result, fingerprint) = match funnel.check_program_with_terms(&program, step_limit) {
        Ok(checked) => checked,
        Err(e) => {
            return RoundOutcome::Failed(e);
        },
    };
    match result.state {
        FunnelState::Confirmed => {},
        state => {
            return RoundOutcome::NoMatch(state);
        },
    }
    match prevent_flooding.try_register(&fingerprint, now) {
        Ok(()) => RoundOutcome::Persist {
            program: program.to_string(),
            program_ids: result.program_ids,
            term_count: result.term_count,
        },
        Err(_) => RoundOutcome::Suppressed { program_ids: result.program_ids },
    }
}

/// One round: mutates `genome`, then evaluates the candidate.
///
/// Without an accepted mutation the genome and the tracker stay as they are.
/// Otherwise the genome is the result of one drawn and accepted mutation, and
/// the outcome and the tracker are those of its candidate. A genome without
/// genes is always mutated when registers are declared, and never without.
pub fn mine_round<R: Rng + ?Sized>(
    genome: &mut Genome,
    rng: &mut R,
    context: &GenomeMutateContext,
    funnel: &Funnel,
    prevent_flooding: &mut PreventFlooding,
    now: u64,
    step_limit: u64,
) -> (r: RoundOutcome)
    ensures
        r is NotMutated ==> final(genome)@ == old(genome)@ && final(prevent_flooding)@ == old(
            prevent_flooding,
        )@,
        old(genome)@.items.len() == 0 ==> (r is NotMutated) == (old(genome).register_count == 0),
        !(r is NotMutated) ==> (exists|mutation: Mutation|
            may_be_drawn(old(genome)@, mutation) && #[trigger] mutated(old(genome)@, mutation)
                == Some(final(genome)@)) && (
            r@,
            final(prevent_flooding)@,
        ) == candidate_outcome(
            final(genome).items@,
            funnel.terms_to_program_id@,
            funnel.minimum_term_count as nat,
            funnel.term_count as nat,
            funnel.wildcard@,
            old(prevent_flooding)@,
            now as nat,
            step_limit,
        ),
{
    if !genome.mutate(rng, context) {
        return RoundOutcome::NotMutated;
    }
    evaluate_candidate(genome, funnel, prevent_flooding, now, step_limit)
}

} // verus!
