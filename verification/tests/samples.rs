use clairo::{
    check_readback, describe_failure, elapsed_ticks, fail_on_device_error, iteration_timing, read_ticks, remaining_sample_time,
    remaining_warmup_time, DeviceErrors, DeviceFailure, IterationRecorder, IterationTiming, ObservationError, PassId,
    PassTimestamps, ReadbackError, RecordingError, SampleError, SamplePhase, SampleRun,
    MAX_RECORDED_PASSES_PER_SAMPLE, SUBMISSION_TIMEOUT_NS,
};

fn passes(names: &[&str]) -> Vec<PassId> {
    names.iter().map(|name| PassId::Compute(name.to_string())).collect()
}

fn timestamps(begin: u64, end: u64) -> Vec<u8> {
    let mut bytes = begin.to_ne_bytes().to_vec();
    bytes.extend(end.to_ne_bytes());
    bytes
}

#[test]
fn untimed_passes_take_no_timestamps() {
    let mut recorder = IterationRecorder::new(None);
    assert_eq!(recorder.compute_pass("a"), Ok(None));
    assert_eq!(recorder.compute_pass("b"), Ok(None));
    assert_eq!(recorder.finish(), Ok(passes(&["a", "b"])));
}

#[test]
fn a_sample_takes_one_timestamp_at_each_end() {
    for (iterations, count) in [(1, 1), (1, 3), (3, 1), (4, 2)] {
        let mut taken = Vec::new();
        for iteration in 0..iterations {
            let mut recorder = IterationRecorder::new(Some(iteration_timing(iteration, iterations, count)));
            for pass in 0..count {
                let timestamps = recorder.compute_pass("pass").unwrap();
                if let Some(PassTimestamps { beginning, end }) = timestamps {
                    assert!(beginning.is_some() || end.is_some());
                    taken.extend(beginning.map(|query| (query, iteration, pass)));
                    taken.extend(end.map(|query| (query, iteration, pass)));
                }
            }
            assert_eq!(recorder.finish().unwrap().len(), count);
        }
        assert_eq!(taken, vec![(0, 0, 0), (1, iterations - 1, count - 1)]);
    }
}

#[test]
fn timings_name_the_ends_of_the_sample() {
    assert_eq!(
        iteration_timing(0, 3, 2),
        IterationTiming { expected_pass_count: 2, start_query: Some(0), end_query: None }
    );
    assert_eq!(
        iteration_timing(1, 3, 2),
        IterationTiming { expected_pass_count: 2, start_query: None, end_query: None }
    );
    assert_eq!(
        iteration_timing(2, 3, 2),
        IterationTiming { expected_pass_count: 2, start_query: None, end_query: Some(1) }
    );
}

#[test]
fn one_iteration_cannot_exceed_the_pass_budget() {
    let mut recorder = IterationRecorder::new(None);
    for _ in 0..MAX_RECORDED_PASSES_PER_SAMPLE {
        assert!(recorder.compute_pass("pass").is_ok());
    }
    assert_eq!(recorder.compute_pass("pass"), Err(RecordingError::PassBudgetExceeded));
    assert_eq!(recorder.finish().unwrap().len(), 2_047);
}

#[test]
fn timed_iterations_repeat_the_passes_of_the_warm_up() {
    let expected = passes(&["a", "b"]);
    let record = |names: &[&str]| {
        let mut recorder = IterationRecorder::new(Some(iteration_timing(1, 3, 2)));
        for name in names {
            assert_eq!(recorder.compute_pass(name), Ok(None));
        }
        recorder
    };
    assert_eq!(record(&["a", "b"]).finish_expecting(&expected, 1), Ok(()));
    assert_eq!(
        record(&["b", "a"]).finish_expecting(&expected, 1),
        Err(RecordingError::PassSequenceChanged(1))
    );
    assert_eq!(
        record(&["a"]).finish_expecting(&expected, 1),
        Err(RecordingError::PassCountChanged { recorded: 1, expected: 2 })
    );
    assert_eq!(
        record(&["a", "b", "b"]).finish(),
        Err(RecordingError::PassCountChanged { recorded: 3, expected: 2 })
    );
}

#[test]
fn timestamps_give_the_elapsed_ticks() {
    assert_eq!(elapsed_ticks(5, 12), Ok(7));
    assert_eq!(elapsed_ticks(5, 5), Ok(0));
    assert_eq!(elapsed_ticks(0, u64::MAX - 1), Ok(u64::MAX - 1));
    assert_eq!(elapsed_ticks(6, 5), Err(ObservationError::ReversedTimestamps));
    assert_eq!(elapsed_ticks(u64::MAX, 5), Err(ObservationError::InvalidTimestamp));
    assert_eq!(elapsed_ticks(5, u64::MAX), Err(ObservationError::InvalidTimestamp));

    assert_eq!(read_ticks(&timestamps(0x0102_0304_0506_0708, 0x0102_0304_0506_0807)), Ok(0xff));
    assert_eq!(read_ticks(&timestamps(1, 0)), Err(ObservationError::ReversedTimestamps));
    assert_eq!(read_ticks(&vec![0xff; 16]), Err(ObservationError::InvalidTimestamp));
}

#[test]
fn deadlines_leave_the_rest_of_the_timeout() {
    assert_eq!(SUBMISSION_TIMEOUT_NS, 15_000_000_000);
    assert_eq!(remaining_sample_time(0), Some(15_000_000_000));
    assert_eq!(remaining_sample_time(14_999_999_999), Some(1));
    assert_eq!(remaining_sample_time(15_000_000_000), None);
    assert_eq!(remaining_warmup_time(20, 15), Some(5));
    assert_eq!(remaining_warmup_time(20, 20), Some(0));
    assert_eq!(remaining_warmup_time(20, 21), None);
}

fn recorded_iteration(run: &SampleRun) -> IterationRecorder {
    let mut recorder = run.recorder();
    assert_eq!(recorder.timing(), Some(run.timing()));
    assert!(recorder.compute_pass("a").is_ok());
    assert!(recorder.compute_pass("b").is_ok());
    recorder
}

#[test]
fn a_sample_is_prepared_recorded_executed_and_read() {
    let errors = DeviceErrors::default();
    let expected = passes(&["a", "b"]);
    let mut run = SampleRun::new(&expected, 3).unwrap();
    assert_eq!(run.phase(), SamplePhase::Preparation);
    run = run.prepared(&errors).unwrap();
    for iteration in 0..3 {
        assert_eq!(run.phase(), SamplePhase::Recording(iteration));
        let recorder = recorded_iteration(&run);
        run = run.recorded(recorder, &errors).unwrap();
    }
    assert_eq!(run.phase(), SamplePhase::Execution);
    run = run.executed(&errors).unwrap();
    assert_eq!(run.phase(), SamplePhase::Readback);
    run = run.read_back(&timestamps(10, 250), &errors).unwrap();
    assert_eq!(run.phase(), SamplePhase::Finished(240));
}

#[test]
fn device_errors_end_a_sample_at_the_stage_they_show_in() {
    let healthy = DeviceErrors::default();
    let mut errors = DeviceErrors::default();
    errors.push("first".to_owned());
    errors.push("second".to_owned());
    assert_eq!(errors.snapshot(), vec!["first".to_owned(), "second".to_owned()]);
    let expected = passes(&["a", "b"]);
    let stage_of = |result: Result<SampleRun, SampleError>| match result {
        Err(SampleError::Device(failure)) => {
            assert_eq!(failure.messages, vec!["first".to_owned(), "second".to_owned()]);
            failure.stage
        }
        other => panic!("{other:?}"),
    };

    assert_eq!(stage_of(SampleRun::new(&expected, 2).unwrap().prepared(&errors)), "sample_preparation");

    let run = SampleRun::new(&expected, 2).unwrap().prepared(&healthy).unwrap();
    let recorder = recorded_iteration(&run);
    let run = run.recorded(recorder, &errors).unwrap();
    assert_eq!(run.phase(), SamplePhase::Recording(1));
    let recorder = recorded_iteration(&run);
    assert_eq!(stage_of(run.recorded(recorder, &errors)), "sample_recording");

    let run = SampleRun::new(&expected, 1).unwrap().prepared(&healthy).unwrap();
    let recorder = recorded_iteration(&run);
    let run = run.recorded(recorder, &healthy).unwrap();
    assert_eq!(stage_of(run.executed(&errors)), "sample_execution");

    let run = SampleRun::new(&expected, 1).unwrap().prepared(&healthy).unwrap();
    let recorder = recorded_iteration(&run);
    let run = run.recorded(recorder, &healthy).unwrap().executed(&healthy).unwrap();
    assert_eq!(stage_of(run.read_back(&timestamps(2, 1), &errors)), "timestamp_readback");
}

#[test]
fn samples_fail_on_missing_changed_or_reversed_results() {
    let errors = DeviceErrors::default();
    let none = passes(&[]);
    assert!(matches!(SampleRun::new(&none, 1), Err(SampleError::NoPasses)));

    let expected = passes(&["a", "c"]);
    let run = SampleRun::new(&expected, 1).unwrap().prepared(&errors).unwrap();
    let recorder = recorded_iteration(&run);
    assert!(matches!(
        run.recorded(recorder, &errors),
        Err(SampleError::Recording(RecordingError::PassSequenceChanged(0)))
    ));

    let expected = passes(&["a", "b"]);
    let run = SampleRun::new(&expected, 1).unwrap().prepared(&errors).unwrap();
    let recorder = recorded_iteration(&run);
    let run = run.recorded(recorder, &errors).unwrap().executed(&errors).unwrap();
    assert!(matches!(
        run.read_back(&timestamps(2, 1), &errors),
        Err(SampleError::Observation(ObservationError::ReversedTimestamps))
    ));
}

#[test]
fn device_errors_are_reported_with_stage_and_observation() {
    let mut errors = DeviceErrors::default();
    assert!(fail_on_device_error(&errors, "setup", Some(3)).is_ok());
    errors.push("lost".to_owned());
    let failure = fail_on_device_error(&errors, "setup", Some(3)).unwrap_err();
    assert_eq!(failure.stage, "setup");
    assert_eq!(failure.index, Some(3));
    assert_eq!(failure.messages, vec!["lost".to_owned()]);
    assert_eq!(failure.message(), "case failed at stage setup, observation Some(3)\nmessage: [\"lost\"]");

    errors.push("said \"no\"".to_owned());
    let failure = fail_on_device_error(&errors, "warmup", None).unwrap_err();
    assert_eq!(
        failure.message(),
        format!(
            "case failed at stage {}, observation {:?}\nmessage: {:?}",
            failure.stage, failure.index, failure.messages
        )
    );
    assert_eq!(
        describe_failure("setup", None, &Vec::new()),
        "case failed at stage setup, observation None\nmessage: []"
    );
    assert_eq!(
        describe_failure("setup", Some(10), &vec!["a".to_owned(), "b".to_owned(), "c".to_owned()]),
        "case failed at stage setup, observation Some(10)\nmessage: [a, b, c]"
    );
}

#[test]
fn device_errors_are_kept_in_the_order_of_their_reports() {
    let mut errors = DeviceErrors::default();
    let reports = ["b", "a", "b"];
    for (count, report) in reports.iter().enumerate() {
        assert_eq!(errors.snapshot(), reports[..count]);
        errors.push(report.to_string());
    }
    assert_eq!(errors.snapshot(), reports);
    assert_eq!(errors.snapshot(), reports);
}

#[test]
fn an_executed_sample_has_two_timestamps() {
    let errors = DeviceErrors::default();
    let expected = passes(&["a", "b"]);
    let mut run = SampleRun::new(&expected, 3).unwrap().prepared(&errors).unwrap();
    let mut taken = Vec::new();
    while let SamplePhase::Recording(iteration) = run.phase() {
        let mut recorder = run.recorder();
        for name in ["a", "b"] {
            if let Some(PassTimestamps { beginning, end }) = recorder.compute_pass(name).unwrap() {
                taken.push((iteration, name, beginning, end));
            }
        }
        run = run.recorded(recorder, &errors).unwrap();
    }
    assert_eq!(run.phase(), SamplePhase::Execution);
    assert_eq!(taken, vec![(0, "a", Some(0), None), (2, "b", None, Some(1))]);
}

#[test]
fn sample_errors_say_what_went_wrong() {
    for (error, message) in [
        (SampleError::NoPasses, "sample must contain passes"),
        (
            SampleError::Recording(RecordingError::PassBudgetExceeded),
            "one iteration exceeds the sample pass budget",
        ),
        (
            SampleError::Recording(RecordingError::PassCountChanged { recorded: 0, expected: 2047 }),
            "Condition failed: `recorded_pass_count == expected_pass_count` (0 vs 2047)",
        ),
        (
            SampleError::Recording(RecordingError::PassSequenceChanged(u32::MAX)),
            "pass sequence changed at iteration 4294967295",
        ),
        (
            SampleError::Observation(ObservationError::InvalidTimestamp),
            "invalid GPU timestamp sentinel",
        ),
        (
            SampleError::Observation(ObservationError::ReversedTimestamps),
            "GPU timestamps are reversed",
        ),
        (
            SampleError::Device(DeviceFailure {
                stage: "sample_execution".to_owned(),
                index: None,
                messages: vec!["lost".to_owned()],
            }),
            "case failed at stage sample_execution, observation None\nmessage: [\"lost\"]",
        ),
    ] {
        assert_eq!(error.message(), message);
    }
}

#[test]
fn readback_is_aligned_and_within_the_buffer() {
    let usage = (wgpu::BufferUsages::STORAGE | wgpu::BufferUsages::COPY_SRC).bits();
    assert_eq!(check_readback(usage, 0, 64, 64), Ok(()));
    assert_eq!(check_readback(usage, 60, 4, 64), Ok(()));
    assert_eq!(check_readback(usage, 64, 4, 64), Err(ReadbackError::ExceedsBuffer));
    assert_eq!(check_readback(usage, u64::MAX - 3, 4, u64::MAX), Err(ReadbackError::ExceedsBuffer));
    assert_eq!(check_readback(usage, 2, 4, 64), Err(ReadbackError::UnalignedOffset));
    assert_eq!(check_readback(usage, 4, 6, 64), Err(ReadbackError::UnalignedSize));
    assert_eq!(check_readback(usage, 2, 6, 4), Err(ReadbackError::UnalignedOffset));
    let usage = wgpu::BufferUsages::all().difference(wgpu::BufferUsages::COPY_SRC).bits();
    assert_eq!(check_readback(usage, 2, 6, 4), Err(ReadbackError::MissingCopySource));
    assert_eq!(wgpu::COPY_BUFFER_ALIGNMENT, 4);

    assert_eq!(ReadbackError::MissingCopySource.message(), "validation source needs COPY_SRC usage");
    assert_eq!(ReadbackError::UnalignedOffset.message(), "source offset must be copy-aligned");
    assert_eq!(ReadbackError::UnalignedSize.message(), "readback size must be copy-aligned");
    assert_eq!(ReadbackError::ExceedsBuffer.message(), "readback exceeds source buffer");
}
