//! The participation gate: the probabilistic decision, based on current view
//! size versus the shared target degree, of whether a node is active in a
//! given protocol round. Production uses the probabilistic gate; callers that
//! need deterministic rounds inject an always-true or always-false gate.

use vstd::prelude::*;

use crate::rng::random_ratio;

verus! {

/// The numerator of the participation probability
/// `min(view_size, target_degree) / target_degree`, clamped so that the
/// probability never exceeds one.
pub open spec fn clamped_share(view_size: nat, target_degree: nat) -> nat {
    if view_size >= target_degree {
        target_degree
    } else {
        view_size
    }
}

/// Law: the participation probability stays within [0, 1]. For every view
/// size and every positive target degree, the numerator handed to the random
/// draw lies between zero and the denominator, so a view many multiples of
/// the target degree still yields a valid probability.
pub proof fn lemma_participation_probability_clamped(view_size: nat, target_degree: nat)
    requires
        0 < target_degree,
    ensures
        clamped_share(view_size, target_degree) <= target_degree,
{
}

/// Clamps the view size to the target degree, yielding the numerator that
/// the probabilistic gate hands to the random draw.
pub fn clamp_share(view_size: usize, target_degree: usize) -> (numerator: usize)
    ensures
        numerator == clamped_share(view_size as nat, target_degree as nat),
        numerator <= target_degree,
{
    if view_size >= target_degree {
        target_degree
    } else {
        view_size
    }
}

/// Decides whether a node is active in a given exchange, from its current
/// view size and the shared target degree. The same gate serves both the
/// decision to initiate an exchange and the decision to respond to one.
/// The bound on the degree is a machine limit: the probabilistic gate feeds
/// it to a 32-bit random draw.
pub trait ParticipationPolicy {
    /// Which decisions this gate can reach at a given view size and target
    /// degree; every result of `participate` satisfies this predicate.
    spec fn admits(&self, view_size: nat, target_degree: nat, decision: bool) -> bool;

    fn participate(&self, view_size: usize, target_degree: usize) -> (active: bool)
        requires
            0 < target_degree <= 0xffff_ffff,
        ensures
            self.admits(view_size as nat, target_degree as nat, active),
    ;
}

/// The production gate: active with probability
/// `min(view_size, target_degree) / target_degree`.
pub struct RandomParticipation;

impl ParticipationPolicy for RandomParticipation {
    /// The extremes of the clamped probability are certain: an empty view
    /// never takes part (probability zero) and a view at or above the
    /// target degree always does (probability clamped to one). In between,
    /// either decision can fall.
    open spec fn admits(&self, view_size: nat, target_degree: nat, decision: bool) -> bool {
        if view_size == 0 {
            !decision
        } else if view_size >= target_degree {
            decision
        } else {
            true
        }
    }

    fn participate(&self, view_size: usize, target_degree: usize) -> (active: bool) {
        let numerator: usize = clamp_share(view_size, target_degree);
        random_ratio(numerator as u32, target_degree as u32)
    }
}

/// A gate that always takes part; lets a caller drive a full exchange
/// deterministically.
pub struct AlwaysParticipate;

impl ParticipationPolicy for AlwaysParticipate {
    open spec fn admits(&self, _view_size: nat, _target_degree: nat, decision: bool) -> bool {
        decision
    }

    fn participate(&self, _view_size: usize, _target_degree: usize) -> (active: bool) {
        true
    }
}

/// A gate that always declines, leaving every view untouched.
pub struct NeverParticipate;

impl ParticipationPolicy for NeverParticipate {
    open spec fn admits(&self, _view_size: nat, _target_degree: nat, decision: bool) -> bool {
        !decision
    }

    fn participate(&self, _view_size: usize, _target_degree: usize) -> (active: bool) {
        false
    }
}

} // verus!
