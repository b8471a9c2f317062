use rgscan::simulation::IntegrationStepResult::{Continue, Invalid, Perturbativity, Stability};
use rgscan::simulation::{
    check_perturbativity, step_result, Flow, IntegrationParameters, IntegrationResult,
    IntegrationStepResult, Integrator,
};
use rgscan::util::scalar::Scalar;
use rgscan::util::stability::{
    FinalStabilityResult, StabilityError, StabilityResult, ThreeFieldForm, Witness,
};

fn s(x: f64) -> Scalar {
    Scalar::from_bits(x.to_bits())
}

fn params(num_steps: usize) -> IntegrationParameters {
    IntegrationParameters {
        initial_scale: s(1.22e19f64.ln()),
        final_scale: s(1.0e11f64.ln()),
        num_steps,
    }
}

fn unstable() -> FinalStabilityResult {
    FinalStabilityResult::UnstableAllowed(StabilityResult::Violated1(Witness {
        direction: [s(1.0), s(0.0), s(0.0)],
        gap: s(0.0),
    }))
}

fn run(num_steps: usize, trace: &[IntegrationStepResult]) -> Option<IntegrationResult> {
    let mut integrator = Integrator::new(params(num_steps));
    for step in trace {
        integrator.perform_integration_step(*step);
    }
    integrator.outcome()
}

#[test]
fn steady_flow_ends_unbroken_after_all_steps() {
    let mut integrator = Integrator::new(params(3));
    assert_eq!(integrator.outcome(), None);
    assert_eq!(integrator.perform_integration_step(IntegrationStepResult::Continue), None);
    assert_eq!(integrator.perform_integration_step(IntegrationStepResult::Continue), None);
    assert_eq!(integrator.steps_taken(), 2);
    assert_eq!(
        integrator.perform_integration_step(IntegrationStepResult::Continue),
        Some(IntegrationResult::Unbroken)
    );
    assert_eq!(integrator.steps_taken(), 3);
}

#[test]
fn no_steps_to_take_is_unbroken_at_once() {
    let integrator = Integrator::new(params(0));
    assert_eq!(integrator.outcome(), Some(IntegrationResult::Unbroken));
    assert_eq!(integrator.steps_taken(), 0);
}

#[test]
fn instability_on_the_first_step_is_initial() {
    assert_eq!(
        run(5, &[IntegrationStepResult::Stability(unstable())]),
        Some(IntegrationResult::InitiallyUnstable)
    );
}

#[test]
fn later_instability_is_broken_at_the_steps_taken() {
    assert_eq!(
        run(5, &[Continue, Stability(unstable())]),
        Some(IntegrationResult::Broken(2, unstable()))
    );
    assert_eq!(
        run(5, &[Continue, Continue, Continue, Continue, Stability(unstable())]),
        Some(IntegrationResult::Broken(5, unstable()))
    );
}

#[test]
fn perturbativity_violation_reports_the_steps_taken() {
    assert_eq!(run(5, &[Perturbativity]), Some(IntegrationResult::PerturbativityViolated(1)));
    assert_eq!(
        run(5, &[Continue, Continue, Perturbativity]),
        Some(IntegrationResult::PerturbativityViolated(3))
    );
}

#[test]
fn invalid_step_discards_the_sample() {
    assert_eq!(run(5, &[Continue, Invalid]), Some(IntegrationResult::Invalid));
}

#[test]
fn ended_trajectory_stays_as_it_is() {
    let mut integrator = Integrator::new(params(4));
    integrator.perform_integration_step(Continue);
    integrator.perform_integration_step(Perturbativity);
    assert_eq!(
        integrator.perform_integration_step(Stability(unstable())),
        Some(IntegrationResult::PerturbativityViolated(2))
    );
    assert_eq!(
        integrator.perform_integration_step(Continue),
        Some(IntegrationResult::PerturbativityViolated(2))
    );
    assert_eq!(integrator.steps_taken(), 2);
}

#[test]
fn resetting_twice_is_resetting_once() {
    let mut once = Integrator::new(params(4));
    let mut twice = Integrator::new(params(4));
    for integrator in [&mut once, &mut twice] {
        integrator.perform_integration_step(Continue);
        integrator.perform_integration_step(Stability(unstable()));
    }
    once.reset();
    twice.reset();
    twice.reset();
    assert_eq!(once.outcome(), None);
    assert_eq!(once.steps_taken(), 0);
    assert_eq!(
        once.perform_integration_step(Stability(unstable())),
        twice.perform_integration_step(Stability(unstable()))
    );
    assert_eq!(once.outcome(), Some(IntegrationResult::InitiallyUnstable));
    assert_eq!(once.steps_taken(), twice.steps_taken());
    assert_eq!(once.params(), params(4));
}

#[test]
fn step_tests_stability_before_perturbativity() {
    assert_eq!(
        step_result(Ok(FinalStabilityResult::Stable), true),
        IntegrationStepResult::Continue
    );
    assert_eq!(
        step_result(Ok(FinalStabilityResult::Stable), false),
        IntegrationStepResult::Perturbativity
    );
    assert_eq!(step_result(Ok(unstable()), false), IntegrationStepResult::Stability(unstable()));
    assert_eq!(step_result(Ok(unstable()), true), IntegrationStepResult::Stability(unstable()));
    let nan = s(f64::NAN);
    let failed = Err(StabilityError::NoRepeatedRoot(ThreeFieldForm {
        alpha: s(1.0),
        b0: s(1.0),
        b1: s(0.0),
        b2: s(1.0),
        c0: s(1.0),
        c1: s(0.0),
        c2: s(1.0),
        mixed: s(2.0),
        end0: s(3.0),
        end2: s(3.0),
        a0: s(3.0),
        a4: s(3.0),
        quartic_roots: [s(0.0), s(1.0), s(2.0), s(3.0)],
        quadratic_roots: [nan, nan],
        root_alpha: s(1.0),
        root_c0: s(1.0),
        root_c2: s(1.0),
        gaps: [s(1.0), s(1.0), s(1.0)],
        midpoints: [s(0.5), s(1.5), s(2.5)],
        heights: [nan, nan, nan],
        midpoint_gaps: [s(0.5), s(0.5), s(1.5)],
        root_gap: s(0.0),
        root_sum: s(2.0),
    }));
    assert_eq!(step_result(failed, true), IntegrationStepResult::Invalid);
}

fn perturbative(sum_b1: f64, sum_b2: f64) -> bool {
    let four_pi_2 = (4.0 * std::f64::consts::PI).powi(2);
    let four_pi_4 = (4.0 * std::f64::consts::PI).powi(4);
    check_perturbativity(s(sum_b2 / four_pi_4), s(0.1 * sum_b1 / four_pi_2))
}

#[test]
fn perturbativity_bound() {
    assert!(perturbative(10.0, 1.0));
    assert!(!perturbative(1.0, 1.0e3));
    assert!(!perturbative(0.0, 1.0));
    // 0.1 * 1 / (4 pi)^2 against x / (4 pi)^4: the bound is x < 0.1 (4 pi)^2.
    assert!(perturbative(1.0, 15.7));
    assert!(!perturbative(1.0, 15.8));
    assert!(!perturbative(f64::NAN, 1.0));
}

#[test]
fn vanishing_beta_functions_are_perturbative() {
    assert!(perturbative(0.0, 0.0));
    assert!(check_perturbativity(s(-0.0), s(0.0)));
    // So a stable model without flow runs to the end, whatever the step count.
    for num_steps in [1usize, 2, 10] {
        let mut integrator = Integrator::new(params(num_steps));
        let mut outcome = None;
        for _ in 0..num_steps {
            let step = step_result(Ok(FinalStabilityResult::Stable), perturbative(0.0, 0.0));
            outcome = integrator.perform_integration_step(step);
        }
        assert_eq!(outcome, Some(IntegrationResult::Unbroken));
    }
}

/// One coupling `l` with the flow `dl/dt = -rate l`, stable while
/// `l > 0.2`; its two-loop term is `strength` times its one-loop term.
struct Decay {
    l: f64,
    rate: f64,
    strength: f64,
    step_size: f64,
    steps: usize,
}

impl Flow for Decay {
    fn step(&mut self) -> IntegrationStepResult {
        let b1 = -self.rate * self.l;
        let b2 = self.strength * b1;
        self.l += b1 * self.step_size;
        self.steps += 1;
        let stability = if self.l > 0.2 {
            FinalStabilityResult::Stable
        } else {
            unstable()
        };
        step_result(Ok(stability), check_perturbativity(s(b2.abs()), s(0.1 * b1.abs())))
    }
}

/// A flow that reports what it was told to.
struct Script {
    reports: Vec<IntegrationStepResult>,
    asked: usize,
}

impl Flow for Script {
    fn step(&mut self) -> IntegrationStepResult {
        self.asked += 1;
        self.reports[self.asked - 1]
    }
}

fn flow(start: f64, rate: f64, strength: f64, num_steps: usize) -> (IntegrationResult, f64) {
    let mut integrator = Integrator::new(params(num_steps));
    let step_size = (1.0e11f64.ln() - 1.22e19f64.ln()) / num_steps as f64;
    let mut decay = Decay { l: start, rate, strength, step_size, steps: 0 };
    let result = integrator.perform_full_integration(&mut decay);
    assert_eq!(integrator.outcome(), Some(result));
    assert_eq!(integrator.steps_taken(), decay.steps);
    (result, decay.l)
}

#[test]
fn full_integration_runs_until_the_trajectory_ends() {
    // l grows along the flow to lower scales: stable to the end.
    assert_eq!(flow(1.0, 0.01, 0.05, 100).0, IntegrationResult::Unbroken);
    // Unstable from the first step.
    assert_eq!(flow(0.1, 0.01, 0.05, 100).0, IntegrationResult::InitiallyUnstable);
    // l shrinks by the factor 1 - 0.1 * 18.62 / 100 in each step and falls
    // below 0.2 in step 86.
    let (result, l) = flow(1.0, -0.1, 0.05, 100);
    assert_eq!(result, IntegrationResult::Broken(86, unstable()));
    assert!(l <= 0.2 && l > 0.19);
    // The two-loop term is too large: stopped in the first step.
    assert_eq!(flow(1.0, 0.01, 0.5, 100).0, IntegrationResult::PerturbativityViolated(1));
}

#[test]
fn full_integration_asks_for_no_step_after_the_end() {
    let mut integrator = Integrator::new(params(5));
    let mut script = Script {
        reports: vec![Continue, Continue, Perturbativity, Continue, Continue],
        asked: 0,
    };
    let result = integrator.perform_full_integration(&mut script);
    assert_eq!(result, IntegrationResult::PerturbativityViolated(3));
    assert_eq!(script.asked, 3);
    // An ended trajectory asks for nothing.
    let again = integrator.perform_full_integration(&mut script);
    assert_eq!(again, result);
    assert_eq!(script.asked, 3);
    let mut none = Integrator::new(params(0));
    assert_eq!(none.perform_full_integration(&mut script), IntegrationResult::Unbroken);
    assert_eq!(script.asked, 3);
}

#[test]
fn a_point_classifies_the_same_every_time() {
    for start in [0.1, 0.5, 1.0, 3.0] {
        let first = flow(start, -0.1, 0.05, 1000);
        let second = flow(start, -0.1, 0.05, 1000);
        assert_eq!(first.0, second.0);
        assert_eq!(first.1.to_bits(), second.1.to_bits());
    }
}

#[test]
fn a_model_without_flow_is_unbroken() {
    for start in [0.3, 1.0, 100.0] {
        for num_steps in [1, 10, 1000] {
            assert_eq!(flow(start, 0.0, 0.0, num_steps).0, IntegrationResult::Unbroken);
            assert_eq!(flow(start, 0.0, 7.0, num_steps).0, IntegrationResult::Unbroken);
        }
    }
}
