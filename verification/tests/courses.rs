use clairo::{
    begin_case, complete_phase, maximum_iterations_per_sample, predict_iteration_count, CalibrationRound,
    CaseError, CaseEvent, CaseFailure, CasePhase, CaseRun, DeviceErrors, PassId, RecordingError, Repeatability,
    SampleError, SamplePhase, ValidationStage, WarmUpPhase, WarmUpRun,
    DEFAULT_SAMPLE_SIZE, MAX_RECORDED_PASSES_PER_SAMPLE, PRECONDITIONING_NS, TARGET_SAMPLE_NS,
};

fn observed(ticks: u64, ratio: u32, preconditioning_ns: u128) -> CaseEvent {
    CaseEvent::Observed { ticks, ratio, preconditioning_ns }
}

fn named_passes(names: &[&str]) -> Vec<PassId> {
    names.iter().map(|name| PassId::Compute(name.to_string())).collect()
}

/// A case of `passes` passes that has been warmed up and has its timestamp resources.
fn warmed_up(repeatability: Repeatability, sample_size: u32, passes: usize) -> CaseRun {
    let mut run = CaseRun::new(repeatability, sample_size);
    assert!(run.passes().is_empty());
    let passes = named_passes(&vec!["pass"; passes]);
    for (phase, event) in [
        (CasePhase::Setup, CaseEvent::SetUp),
        (CasePhase::WarmUp, CaseEvent::WarmedUp { passes }),
        (CasePhase::Validation(ValidationStage::WarmUp), CaseEvent::Validated),
        (CasePhase::TimestampResources, CaseEvent::TimestampResourcesReady),
    ] {
        assert_eq!(run.phase(), phase);
        run = run.advance(event).unwrap();
    }
    run
}

#[test]
fn constants_have_their_documented_values() {
    assert_eq!(DEFAULT_SAMPLE_SIZE, 100);
    assert_eq!(MAX_RECORDED_PASSES_PER_SAMPLE, 2_047);
    assert_eq!(TARGET_SAMPLE_NS, 5_000_000);
    assert_eq!(PRECONDITIONING_NS, 1_000_000_000);
}

#[test]
fn the_pass_budget_bounds_the_iterations() {
    for (passes, maximum) in [(1, 2_047), (2, 1_023), (14, 146), (1_023, 2), (1_024, 1), (2_047, 1), (5_000, 1)] {
        assert_eq!(maximum_iterations_per_sample(passes), maximum);
    }
    for passes in 1..=2_047 {
        let maximum = maximum_iterations_per_sample(passes) as usize;
        assert!(maximum * passes <= 2_047);
        assert!((maximum + 1) * passes > 2_047);
    }
}

#[test]
fn predictions_stay_within_bounds() {
    assert_eq!(predict_iteration_count(0, 0, 50), 50);
    assert_eq!(predict_iteration_count(7, 0, 50), 1);
    assert_eq!(predict_iteration_count(7, 1, 50), 1);
    assert_eq!(predict_iteration_count(7, 49, 50), 49);
    assert_eq!(predict_iteration_count(7, 50, 50), 50);
    assert_eq!(predict_iteration_count(7, u32::MAX, 50), 50);
}

#[test]
fn single_iteration_cases_skip_calibration() {
    let mut run = warmed_up(Repeatability::SingleIteration, 2, 3);
    assert_eq!(run.phase(), CasePhase::Preconditioning);
    assert_eq!(run.iterations(), 1);
    run = run.advance(observed(9, 400, PRECONDITIONING_NS - 1)).unwrap();
    assert_eq!(run.phase(), CasePhase::Preconditioning);
    run = run.advance(observed(9, 400, PRECONDITIONING_NS)).unwrap();
    assert_eq!(run.phase(), CasePhase::Validation(ValidationStage::Preconditioning));
    run = run.advance(CaseEvent::Validated).unwrap();
    assert_eq!(run.phase(), CasePhase::Measurement);
    run = run.advance(observed(11, 400, 0)).unwrap();
    assert_eq!(run.phase(), CasePhase::Measurement);
    run = run.advance(observed(12, 400, 0)).unwrap();
    assert_eq!(run.phase(), CasePhase::Validation(ValidationStage::Final));
    run = run.advance(CaseEvent::Validated).unwrap();
    assert_eq!(run.phase(), CasePhase::Finished);
    assert_eq!(run.samples(), &vec![11, 12]);
    assert_eq!(run.iterations(), 1);
}

#[test]
fn a_confirmed_candidate_settles_the_calibration() {
    let mut run = warmed_up(Repeatability::Repeatable, 1, 1);
    assert_eq!(run.phase(), CasePhase::Calibration(CalibrationRound::Pilot));
    assert_eq!(run.iterations(), 1);
    run = run.advance(observed(10, 500, 0)).unwrap();
    assert_eq!(run.phase(), CasePhase::Calibration(CalibrationRound::Candidate));
    assert_eq!(run.iterations(), 500);
    run = run.advance(observed(5_000, 500, 0)).unwrap();
    assert_eq!(run.phase(), CasePhase::Validation(ValidationStage::Calibration));
    run = run.advance(CaseEvent::Validated).unwrap();
    assert_eq!(run.phase(), CasePhase::Preconditioning);
    assert_eq!(run.iterations(), 500);
}

#[test]
fn a_corrected_candidate_is_observed_once_more() {
    let mut run = warmed_up(Repeatability::Repeatable, 1, 1);
    run = run.advance(observed(0, 0, 0)).unwrap();
    assert_eq!(run.phase(), CasePhase::Calibration(CalibrationRound::Candidate));
    assert_eq!(run.iterations(), 2_047);
    run = run.advance(observed(5_000, 700, 0)).unwrap();
    assert_eq!(run.phase(), CasePhase::Calibration(CalibrationRound::Corrected));
    assert_eq!(run.iterations(), 700);
    run = run.advance(observed(5_000, 3, 0)).unwrap();
    assert_eq!(run.phase(), CasePhase::Validation(ValidationStage::Calibration));
    assert_eq!(run.iterations(), 700);
}

#[test]
fn a_slow_pilot_needs_no_candidate() {
    let mut run = warmed_up(Repeatability::Repeatable, 1, 1);
    run = run.advance(observed(1_000_000, 0, 0)).unwrap();
    assert_eq!(run.phase(), CasePhase::Validation(ValidationStage::Calibration));
    assert_eq!(run.iterations(), 1);

    let run = warmed_up(Repeatability::Repeatable, 1, 1_500).advance(observed(0, 0, 0)).unwrap();
    assert_eq!(run.phase(), CasePhase::Validation(ValidationStage::Calibration));
    assert_eq!(run.iterations(), 1);
}

#[test]
fn unmeasurable_samples_end_a_case() {
    let run = CaseRun::new(Repeatability::Repeatable, 1).advance(CaseEvent::SetUp).unwrap();
    let error = run.advance(CaseEvent::WarmedUp { passes: Vec::new() }).unwrap_err();
    assert_eq!(error, CaseError::NoPasses);

    let run = warmed_up(Repeatability::Repeatable, 1, 1).advance(observed(1, 5, 0)).unwrap();
    let error = run.advance(observed(0, 5, 0)).unwrap_err();
    assert_eq!(error, CaseError::CandidateBelowResolution);

    let run = warmed_up(Repeatability::Repeatable, 1, 1).advance(observed(1, 5, 0)).unwrap();
    let run = run.advance(observed(1, 6, 0)).unwrap();
    let error = run.advance(observed(0, 6, 0)).unwrap_err();
    assert_eq!(error, CaseError::CorrectedBelowResolution);

    let run = warmed_up(Repeatability::SingleIteration, 1, 1);
    let error = run.advance(observed(0, 5, 0)).unwrap_err();
    assert_eq!(error, CaseError::PreconditioningBelowResolution);

    let mut run = warmed_up(Repeatability::SingleIteration, 3, 1);
    run = run.advance(observed(1, 5, PRECONDITIONING_NS)).unwrap();
    run = run.advance(CaseEvent::Validated).unwrap();
    run = run.advance(observed(1, 5, 0)).unwrap();
    let error = run.advance(observed(0, 5, 0)).unwrap_err();
    assert_eq!(error, CaseError::SampleBelowResolution(1));
}

#[test]
fn device_errors_end_a_case_at_the_stage_they_show_in() {
    let mut errors = DeviceErrors::default();
    let run = begin_case(Repeatability::Repeatable, 1, &errors).unwrap();
    let run = complete_phase(run, CaseEvent::SetUp, &errors).unwrap();
    errors.push("lost".to_owned());
    match complete_phase(run, CaseEvent::WarmedUp { passes: Vec::new() }, &errors) {
        Err(CaseFailure::Device(failure)) => {
            assert_eq!(failure.stage, "warmup");
            assert_eq!(failure.index, None);
            assert_eq!(failure.messages, vec!["lost".to_owned()]);
        }
        other => panic!("{other:?}"),
    }
    match begin_case(Repeatability::Repeatable, 1, &errors) {
        Err(CaseFailure::Device(failure)) => assert_eq!(failure.stage, "before_setup"),
        other => panic!("{other:?}"),
    }

    let run = warmed_up(Repeatability::SingleIteration, 1, 1);
    let run = complete_phase(run, observed(1, 1, PRECONDITIONING_NS), &errors).unwrap();
    match complete_phase(run, CaseEvent::Validated, &errors) {
        Err(CaseFailure::Device(failure)) => assert_eq!(failure.stage, "preconditioning_validation"),
        other => panic!("{other:?}"),
    }

    let healthy = DeviceErrors::default();
    let run = CaseRun::new(Repeatability::Repeatable, 1).advance(CaseEvent::SetUp).unwrap();
    match complete_phase(run, CaseEvent::WarmedUp { passes: Vec::new() }, &healthy) {
        Err(CaseFailure::Case(error)) => assert_eq!(error, CaseError::NoPasses),
        other => panic!("{other:?}"),
    }
}

#[test]
fn stages_are_named_after_their_phase() {
    for (phase, stage) in [
        (CasePhase::Setup, Some("setup")),
        (CasePhase::WarmUp, Some("warmup")),
        (CasePhase::Validation(ValidationStage::WarmUp), Some("warmup_validation")),
        (CasePhase::TimestampResources, Some("timestamp_resources")),
        (CasePhase::Validation(ValidationStage::Calibration), Some("calibration_validation")),
        (CasePhase::Validation(ValidationStage::Preconditioning), Some("preconditioning_validation")),
        (CasePhase::Validation(ValidationStage::Final), Some("final_validation")),
        (CasePhase::Calibration(CalibrationRound::Pilot), None),
        (CasePhase::Preconditioning, None),
        (CasePhase::Measurement, None),
        (CasePhase::Finished, None),
    ] {
        assert_eq!(phase.stage(), stage);
    }
}

#[test]
fn predictions_grow_with_the_maximum_and_shrink_with_the_duration() {
    for ticks in [0, 1] {
        for ratio in 0..40 {
            for maximum in 1..30 {
                let count = predict_iteration_count(ticks, ratio, maximum);
                assert!(count <= predict_iteration_count(ticks, ratio, maximum + 1));
                assert!(count <= predict_iteration_count(ticks, ratio + 1, maximum));
                assert!(count <= predict_iteration_count(0, ratio, maximum));
            }
        }
    }
}

#[test]
fn samples_run_with_the_iterations_and_passes_of_their_case() {
    let errors = DeviceErrors::default();
    let warm_up = WarmUpRun::new().prepared(&errors).unwrap();
    let mut recorder = warm_up.recorder();
    assert_eq!(recorder.compute_pass("a"), Ok(None));
    assert_eq!(recorder.compute_pass("b"), Ok(None));
    let event = warm_up.recorded(recorder).executed();

    let mut run = CaseRun::new(Repeatability::Repeatable, 1);
    for event in [
        CaseEvent::SetUp,
        event,
        CaseEvent::Validated,
        CaseEvent::TimestampResourcesReady,
        observed(7, 3, 0),
    ] {
        run = run.advance(event).unwrap();
    }
    assert_eq!(run.passes(), &named_passes(&["a", "b"]));
    assert_eq!(run.iterations(), 3);
    let mut sample = run.begin_sample();
    assert_eq!(sample.phase(), SamplePhase::Preparation);
    sample = sample.prepared(&errors).unwrap();
    for iteration in 0..3 {
        assert_eq!(sample.phase(), SamplePhase::Recording(iteration));
        assert_eq!(sample.timing().expected_pass_count, 2);
        let mut recorder = sample.recorder();
        assert!(recorder.compute_pass("a").is_ok());
        assert!(recorder.compute_pass("b").is_ok());
        sample = sample.recorded(recorder, &errors).unwrap();
    }
    assert_eq!(sample.phase(), SamplePhase::Execution);

    let sample = run.begin_sample().prepared(&errors).unwrap();
    let mut recorder = sample.recorder();
    assert!(recorder.compute_pass("b").is_ok());
    assert!(recorder.compute_pass("a").is_ok());
    assert!(matches!(
        sample.recorded(recorder, &errors),
        Err(SampleError::Recording(RecordingError::PassSequenceChanged(0)))
    ));
}

#[test]
fn a_warm_up_is_prepared_recorded_untimed_and_executed() {
    let mut errors = DeviceErrors::default();
    let run = WarmUpRun::new();
    assert_eq!(run.phase(), WarmUpPhase::Preparation);
    let run = run.prepared(&errors).unwrap();
    assert_eq!(run.phase(), WarmUpPhase::Recording);
    let mut recorder = run.recorder();
    assert_eq!(recorder.timing(), None);
    assert_eq!(recorder.compute_pass("only"), Ok(None));
    let run = run.recorded(recorder);
    assert_eq!(run.phase(), WarmUpPhase::Execution);
    assert_eq!(run.executed(), CaseEvent::WarmedUp { passes: named_passes(&["only"]) });

    let run = WarmUpRun::new().prepared(&errors).unwrap();
    let recorder = run.recorder();
    assert_eq!(run.recorded(recorder).executed(), CaseEvent::WarmedUp { passes: Vec::new() });

    errors.push("lost".to_owned());
    let failure = WarmUpRun::new().prepared(&errors).unwrap_err();
    assert_eq!(failure.stage, "warmup_preparation");
    assert_eq!(failure.index, None);
    assert_eq!(failure.messages, vec!["lost".to_owned()]);
}

#[test]
fn failed_samples_are_named_after_their_phase() {
    let run = warmed_up(Repeatability::Repeatable, 12, 1);
    assert_eq!(run.sample_failure().unwrap(), "calibration pilot failed");
    let run = run.advance(observed(1, 5, 0)).unwrap();
    assert_eq!(run.sample_failure().unwrap(), "calibration candidate failed");
    let run = run.advance(observed(1, 6, 0)).unwrap();
    assert_eq!(run.sample_failure().unwrap(), "corrected calibration candidate failed");
    let run = run.advance(observed(1, 6, 0)).unwrap();
    assert_eq!(run.sample_failure(), None);
    let run = run.advance(CaseEvent::Validated).unwrap();
    assert_eq!(run.sample_failure().unwrap(), "preconditioning failed");
    let run = run.advance(observed(1, 6, PRECONDITIONING_NS)).unwrap();
    let mut run = run.advance(CaseEvent::Validated).unwrap();
    for index in 0..12 {
        assert_eq!(run.sample_failure().unwrap(), format!("measurement sample {index} failed"));
        run = run.advance(observed(1, 6, 0)).unwrap();
    }
    assert_eq!(run.sample_failure(), None);
}

#[test]
fn case_errors_say_what_went_wrong() {
    for (error, message) in [
        (CaseError::NoPasses, "passes must be nonzero"),
        (CaseError::CandidateBelowResolution, "calibration candidate is below timestamp resolution"),
        (CaseError::CorrectedBelowResolution, "corrected candidate is below timestamp resolution"),
        (CaseError::PreconditioningBelowResolution, "sample is below timestamp resolution"),
        (CaseError::SampleBelowResolution(0), "measurement sample 0 is below timestamp resolution"),
        (CaseError::SampleBelowResolution(1_090), "measurement sample 1090 is below timestamp resolution"),
    ] {
        assert_eq!(error.message(), message);
        assert_eq!(CaseFailure::Case(error).message(), message);
    }

    let mut errors = DeviceErrors::default();
    errors.push("lost".to_owned());
    let failure = begin_case(Repeatability::Repeatable, 1, &errors).unwrap_err();
    assert_eq!(
        failure.message(),
        "case failed at stage before_setup, observation None\nmessage: [\"lost\"]"
    );
}
