//! Short-term memory of the discoveries that were submitted, so that the same
//! discovery is not submitted again within the expiry window.

use crate::register_value::{clone_values, same_values, term_values, RegisterValue};
use vstd::prelude::*;
use vstd::string::StringExecFns;

verus! {

/// Why a submission was refused.
#[derive(Clone, Copy, Debug, PartialEq, Eq, Structural)]
pub enum PreventFloodingError {
    /// The same fingerprint was submitted within the expiry window.
    AlreadyRegistered,
}

impl PreventFloodingError {
    /// The fault in words.
    pub fn to_string(&self) -> (r: String)
        ensures
            r@ == "Already registered"@,
    {
        match self {
            PreventFloodingError::AlreadyRegistered => String::from_str("Already registered"),
        }
    }
}

/// A fingerprint and the time of its last accepted submission.
pub struct FloodEntry {
    pub fingerprint: Vec<RegisterValue>,
    pub last_submission: u64,
}

/// The tracker as the contracts see it: the expiry window and, for every
/// fingerprint that was accepted, the time of its last accepted submission.
pub ghost struct PreventFloodingView {
    pub expiry_window: nat,
    pub last_submission: Map<Seq<int>, nat>,
}

/// Remembers the time at which each fingerprint was last submitted.
pub struct PreventFlooding {
    expiry_window: u64,
    entries: Vec<FloodEntry>,
}

/// The time remembered for a fingerprint, the entry stored last winning.
pub open spec fn flood_lookup(entries: Seq<FloodEntry>, fingerprint: Seq<int>) -> Option<nat>
    decreases entries.len(),
{
    if entries.len() == 0 {
        None
    } else if term_values(entries.last().fingerprint@) == fingerprint {
        Some(entries.last().last_submission as nat)
    } else {
        flood_lookup(entries.drop_last(), fingerprint)
    }
}

/// True when a submission of `fingerprint` at time `now` is let through: the
/// fingerprint was never accepted, or its window has elapsed.
pub open spec fn accepts(state: PreventFloodingView, fingerprint: Seq<int>, now: nat) -> bool {
    !state.last_submission.dom().contains(fingerprint) || now
        >= state.last_submission[fingerprint] + state.expiry_window
}

/// The tracker after a submission of `fingerprint` at time `now`: an accepted
/// submission is remembered, a refused one changes nothing.
pub open spec fn after_submission(state: PreventFloodingView, fingerprint: Seq<int>, now: nat) -> PreventFloodingView {
    if accepts(state, fingerprint, now) {
        PreventFloodingView {
            expiry_window: state.expiry_window,
            last_submission: state.last_submission.insert(fingerprint, now),
        }
    } else {
        state
    }
}

/// How many of the submissions of `fingerprint` at the given times, made in
/// this order, are let through.
pub open spec fn accepted_count(state: PreventFloodingView, fingerprint: Seq<int>, times: Seq<nat>) -> nat
    decreases times.len(),
{
    if times.len() == 0 {
        0
    } else {
        let rest = accepted_count(
            after_submission(state, fingerprint, times.first()),
            fingerprint,
            times.drop_first(),
        );
        if accepts(state, fingerprint, times.first()) {
            rest + 1
        } else {
            rest
        }
    }
}

/// Of two submissions of one fingerprint, the first accepted, the second is
/// refused while the window runs and accepted once it has elapsed. So two
/// submissions within the window give exactly one accepted submission.
pub proof fn lemma_second_submission(
    state: PreventFloodingView,
    fingerprint: Seq<int>,
    first: nat,
    second: nat,
)
    requires
        accepts(state, fingerprint, first),
    ensures
        second < first + state.expiry_window ==> !accepts(
            after_submission(state, fingerprint, first),
            fingerprint,
            second,
        ) && accepted_count(state, fingerprint, seq![first, second]) == 1,
        second >= first + state.expiry_window ==> accepts(
            after_submission(state, fingerprint, first),
            fingerprint,
            second,
        ) && accepted_count(state, fingerprint, seq![first, second]) == 2,
{
    let times = seq![first, second];
    let mid = after_submission(state, fingerprint, first);
    assert(times.first() == first);
    assert(times.drop_first() =~= seq![second]);
    assert(seq![second].first() == second);
    assert(seq![second].drop_first() =~= Seq::<nat>::empty());
    assert(accepted_count(
        after_submission(mid, fingerprint, second),
        fingerprint,
        Seq::<nat>::empty(),
    ) == 0);
    assert(accepted_count(mid, fingerprint, seq![second]) == if accepts(mid, fingerprint, second) {
        1nat
    } else {
        0nat
    });
}

/// A submission of one fingerprint changes nothing for another.
pub proof fn lemma_other_fingerprint(
    state: PreventFloodingView,
    fingerprint: Seq<int>,
    other: Seq<int>,
    now: nat,
    later: nat,
)
    requires
        fingerprint != other,
    ensures
        accepts(after_submission(state, fingerprint, now), other, later) == accepts(
            state,
            other,
            later,
        ),
{
}

impl View for PreventFlooding {
    type V = PreventFloodingView;

    closed spec fn view(&self) -> PreventFloodingView {
        PreventFloodingView {
            expiry_window: self.expiry_window as nat,
            last_submission: Map::new(
                |fingerprint: Seq<int>| flood_lookup(self.entries@, fingerprint) is Some,
                |fingerprint: Seq<int>| flood_lookup(self.entries@, fingerprint)->0,
            ),
        }
    }
}

impl PreventFlooding {
    /// A tracker that remembers nothing, with the given expiry window.
    pub fn new(expiry_window: u64) -> (r: Self)
        ensures
            r@.expiry_window == expiry_window,
            r@.last_submission == Map::<Seq<int>, nat>::empty(),
    {
        let r = PreventFlooding { expiry_window, entries: Vec::new() };
        assert(r@.last_submission =~= Map::<Seq<int>, nat>::empty());
        r
    }

    /// The expiry window.
    pub fn expiry_window(&self) -> (r: u64)
        ensures
            r == self@.expiry_window,
    {
        self.expiry_window
    }

    /// Position of the entry that holds the time of `fingerprint`.
    fn find(&self, fingerprint: &Vec<RegisterValue>) -> (r: Option<usize>)
        ensures
            match r {
                Some(at) => at < self.entries@.len() && term_values(
                    self.entries@[at as int].fingerprint@,
                ) == term_values(fingerprint@) && flood_lookup(
                    self.entries@,
                    term_values(fingerprint@),
                ) == Some(self.entries@[at as int].last_submission as nat) && forall|k: int|
                    at < k < self.entries@.len() ==> term_values(
                        (#[trigger] self.entries@[k]).fingerprint@,
                    ) != term_values(fingerprint@),
                None => flood_lookup(self.entries@, term_values(fingerprint@)) is None,
            },
    {
        let ghost key = term_values(fingerprint@);
        let mut i: usize = self.entries.len();
        assert(self.entries@.subrange(0, i as int) =~= self.entries@);
        while i > 0
            invariant
                i <= self.entries@.len(),
                key == term_values(fingerprint@),
                flood_lookup(self.entries@, key) == flood_lookup(
                    self.entries@.subrange(0, i as int),
                    key,
                ),
                forall|k: int|
                    i <= k < self.entries@.len() ==> term_values(
                        (#[trigger] self.entries@[k]).fingerprint@,
                    ) != key,
            decreases i,
        {
            let ghost prefix = self.entries@.subrange(0, i as int);
            i -= 1;
            assert(prefix.drop_last() =~= self.entries@.subrange(0, i as int));
            assert(prefix.last() == self.entries@[i as int]);
            if same_values(&self.entries[i].fingerprint, fingerprint) {
                return Some(i);
            }
        }
        assert(self.entries@.subrange(0, 0).len() == 0);
        None
    }

    /// Tells whether a submission of `fingerprint` at time `now` would be let
    /// through, without recording it.
    pub fn is_accepted(&self, fingerprint: &Vec<RegisterValue>, now: u64) -> (r: bool)
        ensures
            r == accepts(self@, term_values(fingerprint@), now as nat),
    {
        match self.find(fingerprint) {
            Some(at) => {
                let last = self.entries[at].last_submission;
                now >= last && now - last >= self.expiry_window
            },
            None => true,
        }
    }

    /// Submits `fingerprint` at time `now`.
    ///
    /// The submission is let through and remembered when the fingerprint was
    /// never accepted or its window has elapsed; otherwise it is refused and
    /// nothing changes.
    pub fn try_register(&mut self, fingerprint: &Vec<RegisterValue>, now: u64) -> (r: Result<
        (),
        PreventFloodingError,
    >)
        ensures
            final(self)@ == after_submission(old(self)@, term_values(fingerprint@), now as nat),
            r is Ok <==> accepts(old(self)@, term_values(fingerprint@), now as nat),
    {
        let ghost key = term_values(fingerprint@);
        let ghost before = self.entries@;
        match self.find(fingerprint) {
            Some(at) => {
                let last = self.entries[at].last_submission;
                if now >= last && now - last >= self.expiry_window {
                    self.entries[at].last_submission = now;
                    proof {
                        assert forall|other: Seq<int>|
                            #[trigger] flood_lookup(self.entries@, other) == if other == key {
                                Some(now as nat)
                            } else {
                                flood_lookup(before, other)
                            } by {
                            lemma_flood_lookup_update(
                                before,
                                self.entries@,
                                at as int,
                                now,
                                other,
                            );
                        }
                        assert(self@.last_submission =~= old(self)@.last_submission.insert(
                            key,
                            now as nat,
                        ));
                    }
                    Ok(())
                } else {
                    Err(PreventFloodingError::AlreadyRegistered)
                }
            },
            None => {
                self.entries.push(
                    FloodEntry { fingerprint: clone_values(fingerprint), last_submission: now },
                );
                proof {
                    assert(self.entries@.drop_last() =~= before);
                    assert(self@.last_submission =~= old(self)@.last_submission.insert(
                        key,
                        now as nat,
                    ));
                }
                Ok(())
            },
        }
    }
}

/// Writing a new time into the entry that holds a fingerprint's time changes
/// that fingerprint's time and no other.
proof fn lemma_flood_lookup_update(
    before: Seq<FloodEntry>,
    after: Seq<FloodEntry>,
    at: int,
    now: u64,
    key: Seq<int>,
)
    requires
        0 <= at < before.len(),
        after.len() == before.len(),
        forall|k: int| 0 <= k < before.len() && k != at ==> after[k] == before[k],
        after[at].fingerprint == before[at].fingerprint,
        after[at].last_submission == now,
        forall|k: int|
            at < k < before.len() ==> term_values((#[trigger] before[k]).fingerprint@)
                != term_values(before[at].fingerprint@),
    ensures
        flood_lookup(after, key) == if key == term_values(before[at].fingerprint@) {
            Some(now as nat)
        } else {
            flood_lookup(before, key)
        },
    decreases before.len(),
{
    let last = before.len() - 1;
    if at == last {
        assert(after.drop_last() =~= before.drop_last());
        assert(after.last() == after[at]);
        assert(before.last() == before[at]);
    } else {
        assert(after.last() == after[last]);
        assert(before.last() == before[last]);
        assert(after[last] == before[last]);
        assert(term_values(before[last].fingerprint@) != term_values(before[at].fingerprint@));
        assert forall|k: int| at < k < before.drop_last().len() implies term_values(
            (#[trigger] before.drop_last()[k]).fingerprint@,
        ) != term_values(before.drop_last()[at].fingerprint@) by {
            assert(before.drop_last()[k] == before[k]);
        }
        lemma_flood_lookup_update(before.drop_last(), after.drop_last(), at, now, key);
    }
}

} // verus!
