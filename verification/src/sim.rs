use vstd::prelude::*;

use crate::body::{
    spec_earth, spec_jupiter, spec_mars, spec_mercury, spec_moon, spec_neptun, spec_saturn,
    spec_sun, spec_uranus, spec_venus, Body,
};
use crate::errors::ProtocolError;
use crate::events::InputEvent;
use crate::meta::{SimMetaData, NEWTON_G_BITS};

verus! {

/// The ordered seed scenario: one central star, four inner planets, one
/// moon and four outer planets.
pub open spec fn seed_bodies() -> Seq<Body> {
    seq![
        spec_sun(),
        spec_mercury(),
        spec_venus(),
        spec_earth(),
        spec_moon(),
        spec_mars(),
        spec_jupiter(),
        spec_saturn(),
        spec_uranus(),
        spec_neptun(),
    ]
}

/// What the numerical integrator decided for one body in one step: either
/// the body advanced (with its new velocity and position, and a zeroed
/// acceleration accumulator), or its accumulated acceleration exceeded the
/// stability threshold and the body must be removed.
#[derive(Clone, Copy, PartialEq, Eq, Structural, Debug)]
pub enum StepOutcome {
    Advanced(Body),
    Unstable,
}

/// The bodies that advanced, in their original order.
pub open spec fn advanced_seq(s: Seq<StepOutcome>) -> Seq<Body>
    decreases s.len(),
{
    if s.len() == 0 {
        Seq::empty()
    } else {
        let front = advanced_seq(s.drop_last());
        match s.last() {
            StepOutcome::Advanced(b) => front.push(b),
            StepOutcome::Unstable => front,
        }
    }
}

/// The indices of the unstable outcomes, in ascending order.
pub open spec fn unstable_indices(s: Seq<StepOutcome>) -> Seq<usize>
    decreases s.len(),
{
    if s.len() == 0 {
        Seq::empty()
    } else {
        let front = unstable_indices(s.drop_last());
        match s.last() {
            StepOutcome::Unstable => front.push((s.len() - 1) as usize),
            StepOutcome::Advanced(_) => front,
        }
    }
}

/// The whole simulation: an ordered sequence of bodies (position in the
/// sequence is the only identifier a client can use to target a body), the
/// global constants, and the minimum wall-clock interval, in nanoseconds,
/// between two published snapshots.
///
/// Exactly one owner thread ever mutates a value of this type; every
/// external mutation request reaches it as a serialized message.
pub struct SimState {
    pub bodies: Vec<Body>,
    pub metadata: SimMetaData,
    pub target_time_per_step_ns: u64,
}

impl SimState {
    /// The standard simulation: the seed scenario under the Newtonian
    /// gravitational constant and the given time scaling.
    pub fn new(target_time_per_step_ns: u64, time_scaling: u64) -> (s: SimState)
        ensures
            s.bodies@ == seed_bodies(),
            s.metadata == (SimMetaData { interaction_constant: NEWTON_G_BITS, time_scaling }),
            s.target_time_per_step_ns == target_time_per_step_ns,
    {
        let mut bodies: Vec<Body> = Vec::new();
        bodies.push(Body::sun());
        bodies.push(Body::mercury());
        bodies.push(Body::venus());
        bodies.push(Body::earth());
        bodies.push(Body::moon());
        bodies.push(Body::mars());
        bodies.push(Body::jupiter());
        bodies.push(Body::saturn());
        bodies.push(Body::uranus());
        bodies.push(Body::neptun());
        proof {
            assert(bodies@ =~= seed_bodies());
        }
        SimState {
            bodies,
            metadata: SimMetaData { interaction_constant: NEWTON_G_BITS, time_scaling },
            target_time_per_step_ns,
        }
    }

    /// Applies one mutation command to the body sequence.
    ///
    /// `Add` appends the payload (the new body gets index `old_length`);
    /// `Remove(i)` removes the element at `i`, shifting every later index
    /// down by one, and returns `Some(i)` as the removal notice the
    /// distribution pipeline must publish; `Update(i)` replaces the element
    /// at `i` wholesale; `Meta` leaves the bodies alone. `Add`/`Update`
    /// without a payload is a protocol-contract violation: the state is left
    /// unchanged and the error is fatal only to this one command.
    pub fn handle_input(&mut self, event_type: InputEvent, new_body: Option<Body>) -> (r: Result<
        Option<usize>,
        ProtocolError,
    >)
        requires
            match event_type {
                InputEvent::Remove(i) => i < old(self).bodies@.len(),
                InputEvent::Update(i) => i < old(self).bodies@.len(),
                _ => true,
            },
        ensures
            final(self).metadata == old(self).metadata,
            final(self).target_time_per_step_ns == old(self).target_time_per_step_ns,
            match event_type {
                InputEvent::Add => match new_body {
                    Some(b) => r == Ok::<Option<usize>, ProtocolError>(None)
                        && final(self).bodies@ == old(self).bodies@.push(b),
                    None => r == Err::<Option<usize>, ProtocolError>(ProtocolError::MissingPayload)
                        && final(self).bodies@ == old(self).bodies@,
                },
                InputEvent::Remove(i) => r == Ok::<Option<usize>, ProtocolError>(Some(i))
                    && final(self).bodies@ == old(self).bodies@.remove(i as int),
                InputEvent::Update(i) => match new_body {
                    Some(b) => r == Ok::<Option<usize>, ProtocolError>(None)
                        && final(self).bodies@ == old(self).bodies@.update(i as int, b),
                    None => r == Err::<Option<usize>, ProtocolError>(ProtocolError::MissingPayload)
                        && final(self).bodies@ == old(self).bodies@,
                },
                InputEvent::Meta => r == Ok::<Option<usize>, ProtocolError>(None)
                    && final(self).bodies@ == old(self).bodies@,
            },
    {
        match event_type {
            InputEvent::Add => match new_body {
                Some(b) => {
                    self.bodies.push(b);
                    Ok(None)
                },
                None => Err(ProtocolError::MissingPayload),
            },
            InputEvent::Remove(target) => {
                self.bodies.remove(target);
                Ok(Some(target))
            },
            InputEvent::Update(target) => match new_body {
                Some(b) => {
                    self.bodies[target] = b;
                    Ok(None)
                },
                None => Err(ProtocolError::MissingPayload),
            },
            InputEvent::Meta => Ok(None),
        }
    }

    /// Replaces the simulation constants wholesale.
    pub fn handle_meta_input(&mut self, meta_state: SimMetaData)
        ensures
            final(self).metadata == meta_state,
            final(self).bodies@ == old(self).bodies@,
            final(self).target_time_per_step_ns == old(self).target_time_per_step_ns,
    {
        self.metadata = meta_state;
    }

    /// Applies the per-body outcomes of one integration step: bodies that
    /// advanced are kept, in order, with their new state; unstable bodies
    /// are removed. The returned removal notices carry the pre-shift index
    /// of each removed body, highest first — the order in which removing
    /// them one by one keeps the earlier recorded indices valid.
    pub fn apply_step(&mut self, outcomes: &Vec<StepOutcome>) -> (removed: Vec<usize>)
        requires
            outcomes@.len() == old(self).bodies@.len(),
        ensures
            final(self).bodies@ == advanced_seq(outcomes@),
            final(self).metadata == old(self).metadata,
            final(self).target_time_per_step_ns == old(self).target_time_per_step_ns,
            removed@ == unstable_indices(outcomes@).reverse(),
    {
        let ghost all = outcomes@;
        let n = outcomes.len();
        let mut kept: Vec<Body> = Vec::new();
        let mut failed: Vec<usize> = Vec::new();
        let mut i: usize = 0;
        while i < n
            invariant
                i <= n,
                n == all.len(),
                all == outcomes@,
                kept@ == advanced_seq(all.take(i as int)),
                failed@ == unstable_indices(all.take(i as int)),
            decreases n - i,
        {
            proof {
                assert(all.take(i + 1).drop_last() =~= all.take(i as int));
                assert(all.take(i + 1).last() == all[i as int]);
            }
            match outcomes[i] {
                StepOutcome::Advanced(b) => kept.push(b),
                StepOutcome::Unstable => failed.push(i),
            }
            i += 1;
        }
        proof {
            assert(all.take(n as int) =~= all);
        }
        self.bodies = kept;
        let mut removed: Vec<usize> = Vec::new();
        let mut j: usize = failed.len();
        while j > 0
            invariant
                j <= failed@.len(),
                failed@ == unstable_indices(all),
                removed@.len() == failed@.len() - j,
                forall|k: int|
                    0 <= k < removed@.len() ==> removed@[k] == failed@[failed@.len() - 1 - k],
            decreases j,
        {
            j -= 1;
            let idx = failed[j];
            removed.push(idx);
        }
        proof {
            assert(removed@ =~= unstable_indices(all).reverse());
        }
        removed
    }

    /// The snapshot throttle: a snapshot is published only when more
    /// wall-clock nanoseconds than the configured minimum interval have
    /// passed since the last publication.
    pub fn publish_due(&self, elapsed_ns: u64) -> (r: bool)
        ensures
            r == (elapsed_ns > self.target_time_per_step_ns),
    {
        elapsed_ns > self.target_time_per_step_ns
    }
}

/// Law: `Add` always places the new body at index `old_length`, leaving
/// every existing index unchanged — the sequence law behind
/// [`SimState::handle_input`]'s `Add` case.
pub proof fn lemma_add_appends_at_end(bodies: Seq<Body>, b: Body)
    ensures
        bodies.push(b).len() == bodies.len() + 1,
        bodies.push(b)[bodies.len() as int] == b,
        forall|j: int| 0 <= j < bodies.len() ==> bodies.push(b)[j] == bodies[j],
{
}

/// Law: `Remove(i)` shifts every index above `i` down by exactly one and
/// leaves every index below `i` unchanged — the sequence law behind
/// [`SimState::handle_input`]'s `Remove` case.
pub proof fn lemma_remove_shifts_indices(bodies: Seq<Body>, i: int)
    requires
        0 <= i < bodies.len(),
    ensures
        bodies.remove(i).len() == bodies.len() - 1,
        forall|j: int| 0 <= j < i ==> #[trigger] bodies.remove(i)[j] == bodies[j],
        forall|j: int| i <= j < bodies.len() - 1 ==> #[trigger] bodies.remove(i)[j] == bodies[j
            + 1],
{
    bodies.remove_ensures(i);
}

/// Every outcome advanced: nothing is removed and every body keeps its
/// place.
proof fn lemma_all_advanced(outcomes: Seq<StepOutcome>)
    requires
        forall|k: int| 0 <= k < outcomes.len() ==> #[trigger] outcomes[k] is Advanced,
    ensures
        unstable_indices(outcomes) =~= Seq::<usize>::empty(),
        advanced_seq(outcomes).len() == outcomes.len(),
        forall|k: int| 0 <= k < outcomes.len() ==> #[trigger] advanced_seq(outcomes)[k]
            == outcomes[k]->Advanced_0,
    decreases outcomes.len(),
{
    if outcomes.len() > 0 {
        let front = outcomes.drop_last();
        assert(forall|k: int| 0 <= k < front.len() ==> #[trigger] front[k] == outcomes[k]);
        lemma_all_advanced(front);
    }
}

/// Law: when exactly one outcome of a step is unstable, the step removes
/// exactly that body — the removal list is that single pre-shift index —
/// and every other body stands in the new sequence, in order, with the
/// state its own integration produced.
pub proof fn lemma_single_unstable(outcomes: Seq<StepOutcome>, j: int)
    requires
        0 <= j < outcomes.len(),
        outcomes[j] is Unstable,
        forall|k: int| 0 <= k < outcomes.len() && k != j ==> #[trigger] outcomes[k] is Advanced,
    ensures
        unstable_indices(outcomes) =~= seq![j as usize],
        advanced_seq(outcomes).len() == outcomes.len() - 1,
        forall|k: int| 0 <= k < j ==> #[trigger] advanced_seq(outcomes)[k]
            == outcomes[k]->Advanced_0,
        forall|k: int| j <= k < outcomes.len() - 1 ==> #[trigger] advanced_seq(outcomes)[k]
            == outcomes[k + 1]->Advanced_0,
    decreases outcomes.len(),
{
    let front = outcomes.drop_last();
    assert(forall|k: int| 0 <= k < front.len() ==> #[trigger] front[k] == outcomes[k]);
    if j == outcomes.len() - 1 {
        assert(forall|k: int| 0 <= k < front.len() ==> #[trigger] front[k] is Advanced);
        lemma_all_advanced(front);
        assert(advanced_seq(outcomes) == advanced_seq(front));
    } else {
        assert(outcomes.last() is Advanced);
        lemma_single_unstable(front, j);
        assert(advanced_seq(outcomes) == advanced_seq(front).push(outcomes.last()->Advanced_0));
        assert(unstable_indices(outcomes) == unstable_indices(front));
        assert forall|k: int| j <= k < outcomes.len() - 1 implies #[trigger] advanced_seq(
            outcomes,
        )[k] == outcomes[k + 1]->Advanced_0 by {
            if k < outcomes.len() - 2 {
                assert(advanced_seq(outcomes)[k] == advanced_seq(front)[k]);
            } else {
                assert(advanced_seq(outcomes)[k] == outcomes.last()->Advanced_0);
            }
        }
    }
}

/// Law: a step's recorded removal indices are strictly ascending and all
/// in range, and together the kept and the removed bodies account for every
/// outcome: reversing the record therefore yields the strictly descending
/// order in which the removals stay valid as they are applied.
pub proof fn lemma_unstable_indices_ascending(outcomes: Seq<StepOutcome>)
    requires
        outcomes.len() <= usize::MAX,
    ensures
        advanced_seq(outcomes).len() + unstable_indices(outcomes).len() == outcomes.len(),
        forall|k: int| 0 <= k < unstable_indices(outcomes).len()
            ==> #[trigger] unstable_indices(outcomes)[k] < outcomes.len(),
        forall|k: int, l: int|
            #![trigger unstable_indices(outcomes)[k], unstable_indices(outcomes)[l]]
            0 <= k < l < unstable_indices(outcomes).len() ==> unstable_indices(outcomes)[k]
                < unstable_indices(outcomes)[l],
    decreases outcomes.len(),
{
    if outcomes.len() > 0 {
        let front = outcomes.drop_last();
        lemma_unstable_indices_ascending(front);
        let u = unstable_indices(outcomes);
        let fu = unstable_indices(front);
        if outcomes.last() is Unstable {
            assert(u == fu.push((outcomes.len() - 1) as usize));
            assert forall|k: int, l: int|
                #![trigger u[k], u[l]]
                0 <= k < l < u.len() implies u[k] < u[l] by {
                if l < fu.len() {
                    assert(u[k] == fu[k] && u[l] == fu[l]);
                } else {
                    assert(u[l] == (outcomes.len() - 1) as usize);
                    assert(u[k] == fu[k]);
                    assert(fu[k] < front.len());
                }
            }
        }
    }
}

} // verus!
