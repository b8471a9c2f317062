//! The step and termination state machine of one trajectory through the flow.
//!
//! A [`Flow`] evaluates the model and advances the couplings; after each step
//! it reports what it saw, and the [`Integrator`] decides whether the
//! trajectory goes on and how it ended.

use vstd::prelude::*;
use crate::util::scalar::Scalar;
use crate::util::stability::{FinalStabilityResult, StabilityError};

verus! {

/// The fixed parameters of an integration: the logarithmic scale it starts
/// from, the one it runs to, and the number of equal steps between them.
#[derive(Clone, Copy, Debug, PartialEq, Eq)]
pub struct IntegrationParameters {
    pub initial_scale: Scalar,
    pub final_scale: Scalar,
    pub num_steps: usize,
}

/// What one step of a trajectory showed.
#[derive(Clone, Copy, Debug, PartialEq, Eq)]
pub enum IntegrationStepResult {
    /// Stable and perturbative: the trajectory goes on.
    Continue,
    /// The vacuum is not stable after the step.
    Stability(FinalStabilityResult),
    /// The loop expansion stopped converging.
    Perturbativity,
    /// The step could not be judged; the sample is to be discarded.
    Invalid,
}

/// How a trajectory ended. A scale is given as the number of steps taken
/// from the initial scale when the trajectory stopped.
#[derive(Clone, Copy, Debug, PartialEq, Eq)]
pub enum IntegrationResult {
    /// Every step was stable and perturbative.
    Unbroken,
    /// The very first step already failed the stability test.
    InitiallyUnstable,
    /// The loop expansion stopped converging after this many steps.
    PerturbativityViolated(usize),
    /// The vacuum became unstable after this many steps, at least two.
    Broken(usize, FinalStabilityResult),
    /// The sample is to be discarded and not counted.
    Invalid,
}

/// The perturbativity bound on the aggregate two-loop term against the
/// aggregate one-loop term, scaled by the threshold: the two-loop term is
/// smaller, or both vanish (where nothing flows, nothing is violated).
pub open spec fn perturbative(two_loop: Scalar, bound: Scalar) -> bool {
    two_loop.less(bound) || (two_loop.magnitude() == 0 && bound.magnitude() == 0)
}

/// Decides the perturbativity bound.
///
/// `two_loop` is the sum of the magnitudes of the two-loop terms over
/// `(4 pi)^4`; `bound` is the threshold times the sum of the magnitudes of
/// the one-loop terms over `(4 pi)^2`. Both are worked out by the caller.
pub fn check_perturbativity(two_loop: Scalar, bound: Scalar) -> (ok: bool)
    ensures
        ok == perturbative(two_loop, bound),
{
    two_loop.lt(bound) || (two_loop.abs().to_bits() == 0 && bound.abs().to_bits() == 0)
}

/// What a step showed, from the model's stability condition after the step
/// and the perturbativity bound: stability is tested first, and a stability
/// test that failed to decide makes the step invalid.
pub open spec fn step_verdict(
    stability: Result<FinalStabilityResult, StabilityError>,
    perturbative: bool,
) -> IntegrationStepResult {
    match stability {
        Err(_) => IntegrationStepResult::Invalid,
        Ok(FinalStabilityResult::Stable) => if perturbative {
            IntegrationStepResult::Continue
        } else {
            IntegrationStepResult::Perturbativity
        },
        Ok(unstable) => IntegrationStepResult::Stability(unstable),
    }
}

/// Computes [`step_verdict`].
pub fn step_result(
    stability: Result<FinalStabilityResult, StabilityError>,
    perturbative: bool,
) -> (step: IntegrationStepResult)
    ensures
        step == step_verdict(stability, perturbative),
{
    match stability {
        Err(_) => IntegrationStepResult::Invalid,
        Ok(FinalStabilityResult::Stable) => if perturbative {
            IntegrationStepResult::Continue
        } else {
            IntegrationStepResult::Perturbativity
        },
        Ok(unstable) => IntegrationStepResult::Stability(unstable),
    }
}

/// How the trajectory ends with the step of index `index` (counted from 0)
/// out of `num_steps`, or `None` where it goes on.
pub open spec fn classify(index: int, num_steps: int, step: IntegrationStepResult) -> Option<
    IntegrationResult,
> {
    match step {
        IntegrationStepResult::Stability(result) => if index == 0 {
            Some(IntegrationResult::InitiallyUnstable)
        } else {
            Some(IntegrationResult::Broken((index + 1) as usize, result))
        },
        IntegrationStepResult::Perturbativity => Some(
            IntegrationResult::PerturbativityViolated((index + 1) as usize),
        ),
        IntegrationStepResult::Invalid => Some(IntegrationResult::Invalid),
        IntegrationStepResult::Continue => if index + 1 >= num_steps {
            Some(IntegrationResult::Unbroken)
        } else {
            None
        },
    }
}

/// The state of a trajectory: the steps taken so far and, once it has
/// ended, how.
pub struct Trajectory {
    pub steps: int,
    pub outcome: Option<IntegrationResult>,
}

/// The state before the first step. Without steps to take, the trajectory
/// has ended unbroken.
pub open spec fn start(num_steps: int) -> Trajectory {
    Trajectory {
        steps: 0,
        outcome: if num_steps <= 0 {
            Some(IntegrationResult::Unbroken)
        } else {
            None
        },
    }
}

/// The state is one that a trajectory of `num_steps` steps can be in: it has
/// taken none to all of its steps, and it has ended once it has taken all.
pub open spec fn within(state: Trajectory, num_steps: int) -> bool {
    &&& 0 <= state.steps <= num_steps
    &&& state.outcome is None ==> state.steps < num_steps
}

/// The state after a reset: the start, whatever `state` was.
pub open spec fn restarted(state: Trajectory, num_steps: int) -> Trajectory {
    start(num_steps)
}

/// The state after one more step was reported. A trajectory that has ended
/// stays as it is.
pub open spec fn after_step(state: Trajectory, num_steps: int, step: IntegrationStepResult)
    -> Trajectory {
    if state.outcome is Some {
        state
    } else {
        Trajectory { steps: state.steps + 1, outcome: classify(state.steps, num_steps, step) }
    }
}

/// The state that `state` becomes after the steps of `trace` were reported
/// in turn.
pub open spec fn continued(state: Trajectory, num_steps: int, trace: Seq<IntegrationStepResult>)
    -> Trajectory
    decreases trace.len(),
{
    if trace.len() == 0 {
        state
    } else {
        after_step(continued(state, num_steps, trace.drop_last()), num_steps, trace.last())
    }
}

/// Some reports of steps lead from the state `from` to the state `to`.
pub open spec fn reachable(from: Trajectory, to: Trajectory, num_steps: int) -> bool {
    exists|trace: Seq<IntegrationStepResult>| #[trigger]
        continued(from, num_steps, trace) == to && trace.len() == to.steps - from.steps
}

/// The state of a trajectory after the steps of `trace` were reported in
/// turn, from the start.
pub open spec fn after_steps(num_steps: int, trace: Seq<IntegrationStepResult>) -> Trajectory {
    continued(start(num_steps), num_steps, trace)
}

/// A trajectory through the flow that can be advanced step by step: the
/// couplings at the current scale, with the model that moves and judges them.
pub trait Flow {
    /// Advances the couplings by one step and says what the step showed.
    fn step(&mut self) -> IntegrationStepResult;
}

/// Drives one trajectory: counts its steps and classifies its end.
pub struct Integrator {
    params: IntegrationParameters,
    steps_taken: usize,
    outcome: Option<IntegrationResult>,
}

impl Integrator {
    #[verifier::type_invariant]
    spec fn consistent(self) -> bool {
        &&& self.steps_taken <= self.params.num_steps
        &&& self.outcome is None ==> self.steps_taken < self.params.num_steps
    }

    pub closed spec fn parameters(self) -> IntegrationParameters {
        self.params
    }

    pub closed spec fn view(self) -> Trajectory {
        Trajectory { steps: self.steps_taken as int, outcome: self.outcome }
    }

    /// An integrator at the start of a trajectory.
    pub fn new(params: IntegrationParameters) -> (integrator: Self)
        ensures
            integrator.parameters() == params,
            integrator@ == start(params.num_steps as int),
            within(integrator@, params.num_steps as int),
    {
        let outcome = if params.num_steps == 0 {
            Some(IntegrationResult::Unbroken)
        } else {
            None
        };
        Integrator { params, steps_taken: 0, outcome }
    }

    /// Goes back to the start of a trajectory, whatever the state was.
    pub fn reset(&mut self)
        ensures
            final(self).parameters() == old(self).parameters(),
            final(self)@ == restarted(old(self)@, old(self).parameters().num_steps as int),
            within(final(self)@, old(self).parameters().num_steps as int),
    {
        proof {
            use_type_invariant(&*self);
        }
        let params = self.params;
        *self = Integrator::new(params);
    }

    pub fn params(&self) -> (params: IntegrationParameters)
        ensures
            params == self.parameters(),
    {
        self.params
    }

    /// The number of steps reported since the start.
    pub fn steps_taken(&self) -> (steps: usize)
        ensures
            steps == self@.steps,
            within(self@, self.parameters().num_steps as int),
    {
        proof {
            use_type_invariant(self);
        }
        self.steps_taken
    }

    /// How the trajectory ended, or `None` while it runs.
    pub fn outcome(&self) -> (outcome: Option<IntegrationResult>)
        ensures
            outcome == self@.outcome,
            within(self@, self.parameters().num_steps as int),
    {
        proof {
            use_type_invariant(self);
        }
        self.outcome
    }

    /// Takes the report of one more step and says how the trajectory ended
    /// with it, or `None` where it goes on. Once the trajectory has ended,
    /// further reports change nothing and the same end comes back.
    pub fn perform_integration_step(&mut self, step: IntegrationStepResult) -> (outcome: Option<
        IntegrationResult,
    >)
        ensures
            final(self).parameters() == old(self).parameters(),
            final(self)@ == after_step(old(self)@, old(self).parameters().num_steps as int, step),
            outcome == final(self)@.outcome,
            within(old(self)@, old(self).parameters().num_steps as int),
            within(final(self)@, old(self).parameters().num_steps as int),
    {
        proof {
            use_type_invariant(&*self);
        }
        if self.outcome.is_some() {
            return self.outcome;
        }
        let index = self.steps_taken;
        let num_steps = self.params.num_steps;
        let outcome = match step {
            IntegrationStepResult::Stability(result) => if index == 0 {
                Some(IntegrationResult::InitiallyUnstable)
            } else {
                Some(IntegrationResult::Broken(index + 1, result))
            },
            IntegrationStepResult::Perturbativity => Some(
                IntegrationResult::PerturbativityViolated(index + 1),
            ),
            IntegrationStepResult::Invalid => Some(IntegrationResult::Invalid),
            IntegrationStepResult::Continue => if index + 1 >= num_steps {
                Some(IntegrationResult::Unbroken)
            } else {
                None
            },
        };
        *self = Integrator { params: self.params, steps_taken: index + 1, outcome };
        outcome
    }

    /// Runs the trajectory to its end: advances `flow` step by step until
    /// the trajectory has ended, and says how it ended. The flow is not
    /// advanced once the trajectory has ended, and never more often than
    /// there are steps left.
    pub fn perform_full_integration<F: Flow>(&mut self, flow: &mut F) -> (result: IntegrationResult)
        ensures
            final(self).parameters() == old(self).parameters(),
            final(self)@.outcome == Some(result),
            reachable(old(self)@, final(self)@, old(self).parameters().num_steps as int),
            within(old(self)@, old(self).parameters().num_steps as int),
            within(final(self)@, old(self).parameters().num_steps as int),
    {
        proof {
            use_type_invariant(&*self);
        }
        let ghost mut trace: Seq<IntegrationStepResult> = Seq::empty();
        loop
            invariant
                self.parameters() == old(self).parameters(),
                self@ == continued(old(self)@, old(self).parameters().num_steps as int, trace),
                trace.len() == self@.steps - old(self)@.steps,
            decreases self.parameters().num_steps - self@.steps,
        {
            proof {
                use_type_invariant(&*self);
            }
            match self.outcome {
                Some(result) => {
                    assert(continued(old(self)@, old(self).parameters().num_steps as int, trace)
                        == self@);
                    return result;
                },
                None => {},
            }
            let report = flow.step();
            proof {
                assert(trace.push(report).drop_last() =~= trace);
                trace = trace.push(report);
            }
            self.perform_integration_step(report);
        }
    }
}

/// Resetting twice and then taking a step gives the state that resetting
/// once and taking the same step gives, whatever the state was before.
pub proof fn reset_is_idempotent(state: Trajectory, num_steps: int, step: IntegrationStepResult)
    ensures
        restarted(restarted(state, num_steps), num_steps) == restarted(state, num_steps),
        after_step(restarted(restarted(state, num_steps), num_steps), num_steps, step)
            == after_step(restarted(state, num_steps), num_steps, step),
{
}

/// A trajectory never takes more steps than were reported, nor more than
/// `num_steps` where that is positive; it runs exactly as long as it has no
/// outcome.
pub proof fn steps_are_counted(num_steps: int, trace: Seq<IntegrationStepResult>)
    ensures
        0 <= after_steps(num_steps, trace).steps <= trace.len(),
        num_steps > 0 ==> after_steps(num_steps, trace).steps <= num_steps,
        after_steps(num_steps, trace).outcome is None ==> after_steps(num_steps, trace).steps
            == trace.len() && trace.len() < num_steps,
    decreases trace.len(),
{
    if trace.len() > 0 {
        steps_are_counted(num_steps, trace.drop_last());
    }
}

/// How a trajectory ended tells the number of steps it took: one where it
/// was unstable from the start, at least two where it broke, and all of them
/// where it is unbroken.
pub proof fn outcome_tells_the_steps(num_steps: int, trace: Seq<IntegrationStepResult>)
    requires
        num_steps <= usize::MAX,
    ensures
        match after_steps(num_steps, trace).outcome {
            None => true,
            Some(IntegrationResult::Unbroken) => after_steps(num_steps, trace).steps == if num_steps
                > 0 {
                num_steps
            } else {
                0
            },
            Some(IntegrationResult::InitiallyUnstable) => after_steps(num_steps, trace).steps == 1,
            Some(IntegrationResult::Broken(steps, _)) => steps == after_steps(
                num_steps,
                trace,
            ).steps && steps >= 2,
            Some(IntegrationResult::PerturbativityViolated(steps)) => steps == after_steps(
                num_steps,
                trace,
            ).steps && steps >= 1,
            Some(IntegrationResult::Invalid) => after_steps(num_steps, trace).steps >= 1,
        },
    decreases trace.len(),
{
    if trace.len() > 0 {
        outcome_tells_the_steps(num_steps, trace.drop_last());
        steps_are_counted(num_steps, trace.drop_last());
    }
}

/// A trajectory on which every step is stable and perturbative runs through
/// all its steps and ends unbroken.
pub proof fn steady_flow_is_unbroken(num_steps: int, trace: Seq<IntegrationStepResult>)
    requires
        forall|k: int| 0 <= k < trace.len() ==> trace[k] is Continue,
    ensures
        trace.len() < num_steps ==> after_steps(num_steps, trace) == (Trajectory {
            steps: trace.len() as int,
            outcome: None,
        }),
        trace.len() >= num_steps ==> after_steps(num_steps, trace).outcome == Some(
            IntegrationResult::Unbroken,
        ),
    decreases trace.len(),
{
    if trace.len() > 0 {
        let earlier = trace.drop_last();
        assert forall|k: int| 0 <= k < earlier.len() implies earlier[k] is Continue by {
            assert(earlier[k] == trace[k]);
        }
        steady_flow_is_unbroken(num_steps, earlier);
        assert(trace.last() is Continue);
    }
}

/// The first step that is not stable and perturbative ends the trajectory:
/// as initially unstable on the first step, as broken or as a violation of
/// perturbativity later, with the number of steps taken.
pub proof fn first_failure_ends_the_flow(
    num_steps: int,
    trace: Seq<IntegrationStepResult>,
    step: IntegrationStepResult,
)
    requires
        forall|k: int| 0 <= k < trace.len() ==> trace[k] is Continue,
        trace.len() < num_steps,
        !(step is Continue),
    ensures
        after_steps(num_steps, trace.push(step)).outcome == classify(
            trace.len() as int,
            num_steps,
            step,
        ),
        after_steps(num_steps, trace.push(step)).outcome is Some,
{
    steady_flow_is_unbroken(num_steps, trace);
    assert(trace.push(step).drop_last() =~= trace);
    assert(trace.push(step).last() == step);
}

} // verus!
