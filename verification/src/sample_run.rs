//! The course of one timed sample: preparation, recording, execution and readback.
use vstd::prelude::*;
use crate::device_errors::{fail_on_device_error, DeviceErrors, DeviceFailure};
use crate::observation::{native_value, read_ticks, ticks_between, ObservationError};
use crate::recorder::{
    iteration_timing, pass_names, pass_timestamps, recording_outcome, timing_of, IterationRecorder,
    IterationTiming, PassId, PassTimestamps, RecorderView, RecordingError, END_QUERY, START_QUERY,
};

verus! {

/// How far a sample has come: what has to be done next.
#[derive(Clone, Copy, Debug, PartialEq, Eq, Structural)]
pub enum SamplePhase {
    /// Run the untimed preparation.
    Preparation,
    /// Record the iteration with this index.
    Recording(u32),
    /// Run what was recorded.
    Execution,
    /// Read the two timestamps.
    Readback,
    /// The sample took this many ticks.
    Finished(u64),
}

/// Why a sample has no result.
#[derive(Debug)]
pub enum SampleError {
    NoPasses,
    Device(DeviceFailure),
    Recording(RecordingError),
    Observation(ObservationError),
}

impl SampleError {
    /// The text of the error.
    pub open spec fn text(self) -> Seq<char> {
        match self {
            SampleError::NoPasses => "sample must contain passes"@,
            SampleError::Device(failure) => failure.text(),
            SampleError::Recording(error) => error.text(),
            SampleError::Observation(error) => error.text(),
        }
    }

    /// Says why the sample has no result.
    pub fn message(&self) -> (message: String)
        ensures
            message@ == self.text(),
    {
        match self {
            SampleError::NoPasses => "sample must contain passes".to_owned(),
            SampleError::Device(failure) => failure.message(),
            SampleError::Recording(error) => error.message(),
            SampleError::Observation(error) => error.message().to_owned(),
        }
    }
}

/// The state of a sample, as mathematical values.
pub struct SampleRunView {
    /// The names of the passes that every iteration has to record.
    pub expected: Seq<Seq<char>>,
    pub iterations: u32,
    pub phase: SamplePhase,
}

/// The course of one sample.
#[derive(Debug)]
pub struct SampleRun<'a> {
    expected: &'a Vec<PassId>,
    iterations: u32,
    phase: SamplePhase,
}

impl<'a> View for SampleRun<'a> {
    type V = SampleRunView;

    closed spec fn view(&self) -> SampleRunView {
        SampleRunView {
            expected: pass_names(self.expected@),
            iterations: self.iterations,
            phase: self.phase,
        }
    }
}

impl SampleRunView {
    pub open spec fn at(self, phase: SamplePhase) -> SampleRunView {
        SampleRunView { phase, ..self }
    }

    /// The timestamps that the iteration to be recorded takes.
    pub open spec fn timing(self) -> IterationTiming {
        timing_of(self.phase->Recording_0, self.iterations, self.expected.len() as usize)
    }

    /// The recorder took the timestamps of the iteration to be recorded.
    pub open spec fn expects(self, recorder: RecorderView) -> bool {
        self.phase is Recording && recorder.timing == Some(self.timing())
    }

    /// The state after an iteration was recorded, or why there is none: the next iteration,
    /// or behind the last one execution.
    pub open spec fn after_recording(self, recorder: RecorderView) -> Result<SampleRunView, RecordingError> {
        let iteration = self.phase->Recording_0;
        match recording_outcome(recorder, self.expected, iteration) {
            Err(error) => Err(error),
            Ok(_) => Ok(
                self.at(
                    if iteration + 1 == self.iterations {
                        SamplePhase::Execution
                    } else {
                        SamplePhase::Recording((iteration + 1) as u32)
                    },
                ),
            ),
        }
    }

    /// What holds of every state that a sample can reach.
    pub open spec fn valid(self) -> bool {
        &&& self.expected.len() > 0
        &&& self.iterations > 0
        &&& self.phase matches SamplePhase::Recording(iteration) ==> iteration < self.iterations
    }
}

/// The device failed in the named stage of a sample.
pub open spec fn device_failed(error: SampleError, stage: Seq<char>, errors: Seq<Seq<char>>) -> bool {
    &&& errors.len() > 0
    &&& error matches SampleError::Device(failure) && failure.reports(stage, None, errors)
}

fn check_device(errors: &DeviceErrors, stage: &str) -> (result: Result<(), SampleError>)
    ensures
        match result {
            Ok(_) => errors@.len() == 0,
            Err(error) => device_failed(error, stage@, errors@),
        },
{
    match fail_on_device_error(errors, stage, None) {
        Ok(_) => Ok(()),
        Err(failure) => Err(SampleError::Device(failure)),
    }
}

impl<'a> SampleRun<'a> {
    #[verifier::type_invariant]
    spec fn invariant_holds(self) -> bool {
        self@.valid()
    }

    /// Begins a sample of `iterations` iterations, each of which has to record the
    /// expected passes.
    pub fn new(expected_passes: &'a Vec<PassId>, iterations: u32) -> (result: Result<SampleRun<'a>, SampleError>)
        requires
            iterations > 0,
        ensures
            match result {
                Ok(run) => expected_passes.len() > 0 && run@.valid() && run@ == (SampleRunView {
                    expected: pass_names(expected_passes@),
                    iterations,
                    phase: SamplePhase::Preparation,
                }),
                Err(error) => error is NoPasses && expected_passes.len() == 0,
            },
    {
        if expected_passes.len() == 0 {
            return Err(SampleError::NoPasses);
        }
        Ok(SampleRun::begin(expected_passes, iterations))
    }

    /// Begins a sample whose iterations are known to record passes.
    pub(crate) fn begin(expected_passes: &'a Vec<PassId>, iterations: u32) -> (run: SampleRun<'a>)
        requires
            iterations > 0,
            expected_passes.len() > 0,
        ensures
            run@.valid(),
            run@ == (SampleRunView {
                expected: pass_names(expected_passes@),
                iterations,
                phase: SamplePhase::Preparation,
            }),
    {
        SampleRun { expected: expected_passes, iterations, phase: SamplePhase::Preparation }
    }

    /// What has to be done next.
    pub fn phase(&self) -> (phase: SamplePhase)
        ensures
            phase == self@.phase,
    {
        self.phase
    }

    /// The timestamps that the iteration to be recorded takes.
    pub fn timing(&self) -> (timing: IterationTiming)
        requires
            self@.phase is Recording,
        ensures
            timing == self@.timing(),
    {
        proof {
            use_type_invariant(self);
        }
        match self.phase {
            SamplePhase::Recording(iteration) => iteration_timing(
                iteration,
                self.iterations,
                self.expected.len(),
            ),
            _ => iteration_timing(0, self.iterations, self.expected.len()),
        }
    }

    /// A recorder for the iteration to be recorded.
    pub fn recorder(&self) -> (recorder: IterationRecorder)
        requires
            self@.phase is Recording,
        ensures
            recorder@ == (RecorderView { passes: Seq::empty(), timing: Some(self@.timing()) }),
            self@.expects(recorder@),
    {
        IterationRecorder::new(Some(self.timing()))
    }

    /// Goes on after the preparation ran.
    pub fn prepared(self, errors: &DeviceErrors) -> (result: Result<SampleRun<'a>, SampleError>)
        requires
            self@.phase is Preparation,
        ensures
            match result {
                Ok(run) => errors@.len() == 0 && run@ == self@.at(SamplePhase::Recording(0)) && run@.valid(),
                Err(error) => device_failed(error, "sample_preparation"@, errors@),
            },
    {
        proof {
            use_type_invariant(&self);
        }
        match check_device(errors, "sample_preparation") {
            Ok(_) => Ok(SampleRun { phase: SamplePhase::Recording(0), ..self }),
            Err(error) => Err(error),
        }
    }

    /// Goes on after an iteration was recorded: to the next iteration, or behind the last
    /// one to execution.
    pub fn recorded(self, recorder: IterationRecorder, errors: &DeviceErrors) -> (result: Result<
        SampleRun<'a>,
        SampleError,
    >)
        requires
            self@.expects(recorder@),
        ensures
            match self@.after_recording(recorder@) {
                Err(expected) => result matches Err(SampleError::Recording(error)) && error == expected,
                Ok(after) => match result {
                    Ok(run) => {
                        &&& after.phase is Execution ==> errors@.len() == 0
                        &&& run@ == after
                        &&& run@.valid()
                    },
                    Err(error) => after.phase is Execution && device_failed(
                        error,
                        "sample_recording"@,
                        errors@,
                    ),
                },
            },
    {
        proof {
            use_type_invariant(&self);
        }
        let iteration: u32 = match self.phase {
            SamplePhase::Recording(iteration) => iteration,
            _ => 0,
        };
        match recorder.finish_expecting(self.expected, iteration) {
            Ok(_) => {},
            Err(error) => return Err(SampleError::Recording(error)),
        }
        if iteration < self.iterations - 1 {
            return Ok(SampleRun { phase: SamplePhase::Recording(iteration + 1), ..self });
        }
        match check_device(errors, "sample_recording") {
            Ok(_) => Ok(SampleRun { phase: SamplePhase::Execution, ..self }),
            Err(error) => Err(error),
        }
    }

    /// Goes on after what was recorded ran.
    pub fn executed(self, errors: &DeviceErrors) -> (result: Result<SampleRun<'a>, SampleError>)
        requires
            self@.phase is Execution,
        ensures
            match result {
                Ok(run) => errors@.len() == 0 && run@ == self@.at(SamplePhase::Readback) && run@.valid(),
                Err(error) => device_failed(error, "sample_execution"@, errors@),
            },
    {
        proof {
            use_type_invariant(&self);
        }
        match check_device(errors, "sample_execution") {
            Ok(_) => Ok(SampleRun { phase: SamplePhase::Readback, ..self }),
            Err(error) => Err(error),
        }
    }

    /// Ends the sample with what the two timestamp queries hold.
    pub fn read_back(self, bytes: &Vec<u8>, errors: &DeviceErrors) -> (result: Result<SampleRun<'a>, SampleError>)
        requires
            self@.phase is Readback,
            bytes.len() >= 16,
        ensures
            match (
                result,
                ticks_between(native_value(bytes@.subrange(0, 8)), native_value(bytes@.subrange(8, 16))),
            ) {
                (Ok(run), Ok(ticks)) => {
                    &&& errors@.len() == 0
                    &&& run@ == self@.at(SamplePhase::Finished(ticks as u64))
                    &&& run@.valid()
                },
                (Err(SampleError::Observation(error)), Err(expected)) => errors@.len() == 0 && error == expected,
                (Err(error), _) => device_failed(error, "timestamp_readback"@, errors@),
                _ => false,
            },
    {
        proof {
            use_type_invariant(&self);
        }
        match check_device(errors, "timestamp_readback") {
            Ok(_) => {},
            Err(error) => return Err(error),
        }
        match read_ticks(bytes) {
            Ok(ticks) => Ok(SampleRun { phase: SamplePhase::Finished(ticks), ..self }),
            Err(error) => Err(SampleError::Observation(error)),
        }
    }
}

/// The state of a sample after the iterations of `recorders` were recorded, if each of them
/// took its timestamps and could be recorded.
pub open spec fn recordings(start: SampleRunView, recorders: Seq<RecorderView>) -> Option<SampleRunView>
    decreases recorders.len(),
{
    if recorders.len() == 0 {
        Some(start)
    } else {
        match recordings(start, recorders.drop_last()) {
            Some(before) if before.expects(recorders.last()) => match before.after_recording(recorders.last()) {
                Ok(after) => Some(after),
                Err(_) => None,
            },
            _ => None,
        }
    }
}

/// A sample is executed only when all of its iterations were recorded, and each of them
/// recorded the passes of the warm-up in the same order.
pub proof fn law_executed_samples_repeat_the_same_passes(
    start: SampleRunView,
    recorders: Seq<RecorderView>,
    end: SampleRunView,
)
    requires
        start.valid(),
        start.phase == SamplePhase::Recording(0),
        recordings(start, recorders) == Some(end),
        end.phase is Execution,
    ensures
        recorders.len() == start.iterations,
        forall|i: int| 0 <= i < recorders.len() ==> (#[trigger] recorders[i]).passes == start.expected,
        end == start.at(SamplePhase::Execution),
{
    lemma_recordings(start, recorders);
}

/// An executed sample takes exactly two timestamps: one when the first pass of its first
/// iteration begins, and one when the last pass of its last iteration ends. No other pass of
/// any of its iterations takes one.
pub proof fn law_executed_samples_take_two_timestamps(
    start: SampleRunView,
    recorders: Seq<RecorderView>,
    end: SampleRunView,
    iteration: int,
    pass: int,
)
    requires
        start.valid(),
        start.expected.len() <= usize::MAX,
        start.phase == SamplePhase::Recording(0),
        recordings(start, recorders) == Some(end),
        end.phase is Execution,
        0 <= iteration < recorders.len(),
        0 <= pass < recorders[iteration].passes.len(),
    ensures
        ({
            let first = iteration == 0 && pass == 0;
            let last = iteration == recorders.len() - 1 && pass == recorders[iteration].passes.len() - 1;
            pass_timestamps(recorders[iteration].timing, pass) == if first || last {
                Some(
                    PassTimestamps {
                        beginning: if first {
                            Some(START_QUERY)
                        } else {
                            None
                        },
                        end: if last {
                            Some(END_QUERY)
                        } else {
                            None
                        },
                    },
                )
            } else {
                None
            }
        }),
{
    lemma_recordings(start, recorders);
}

/// The recorder holds the expected passes and took the timestamps of this iteration.
spec fn recorded_at(start: SampleRunView, recorder: RecorderView, iteration: int) -> bool {
    &&& recorder.passes == start.expected
    &&& recorder.timing == Some(
        timing_of(iteration as u32, start.iterations, start.expected.len() as usize),
    )
}

proof fn lemma_recordings(start: SampleRunView, recorders: Seq<RecorderView>)
    requires
        start.valid(),
        start.phase == SamplePhase::Recording(0),
    ensures
        recordings(start, recorders) matches Some(state) ==> {
            &&& state == start.at(state.phase)
            &&& forall|i: int| 0 <= i < recorders.len() ==> recorded_at(start, #[trigger] recorders[i], i)
            &&& match state.phase {
                SamplePhase::Recording(iteration) => iteration == recorders.len() && iteration < start.iterations,
                SamplePhase::Execution => recorders.len() == start.iterations,
                _ => false,
            }
        },
    decreases recorders.len(),
{
    if recorders.len() > 0 {
        let earlier = recorders.drop_last();
        lemma_recordings(start, earlier);
        if recordings(start, recorders) is Some {
            assert forall|i: int| 0 <= i < recorders.len() implies recorded_at(
                start,
                #[trigger] recorders[i],
                i,
            ) by {
                if i < earlier.len() {
                    assert(earlier[i] == recorders[i]);
                }
            }
        }
    }
}

/// A sample whose iterations all repeat the expected passes is executed: one recorder for each
/// of its iterations, with the timestamps of that iteration, leads from the preparation to
/// execution, however many there are.
pub proof fn law_unchanged_passes_lead_to_execution(start: SampleRunView, recorders: Seq<RecorderView>)
    requires
        start.valid(),
        start.expected.len() <= usize::MAX,
        start.phase == SamplePhase::Recording(0),
        recorders.len() == start.iterations,
        forall|i: int|
            0 <= i < recorders.len() ==> {
                &&& (#[trigger] recorders[i]).passes == start.expected
                &&& recorders[i].timing == Some(
                    timing_of(i as u32, start.iterations, start.expected.len() as usize),
                )
            },
    ensures
        recordings(start, recorders) == Some(start.at(SamplePhase::Execution)),
{
    lemma_unchanged_passes(start, recorders);
}

proof fn lemma_unchanged_passes(start: SampleRunView, recorders: Seq<RecorderView>)
    requires
        start.valid(),
        start.expected.len() <= usize::MAX,
        start.phase == SamplePhase::Recording(0),
        recorders.len() <= start.iterations,
        forall|i: int|
            0 <= i < recorders.len() ==> {
                &&& (#[trigger] recorders[i]).passes == start.expected
                &&& recorders[i].timing == Some(
                    timing_of(i as u32, start.iterations, start.expected.len() as usize),
                )
            },
    ensures
        recordings(start, recorders) == Some(
            start.at(
                if recorders.len() == start.iterations {
                    SamplePhase::Execution
                } else {
                    SamplePhase::Recording(recorders.len() as u32)
                },
            ),
        ),
    decreases recorders.len(),
{
    if recorders.len() > 0 {
        let earlier = recorders.drop_last();
        assert forall|i: int| 0 <= i < earlier.len() implies {
            &&& (#[trigger] earlier[i]).passes == start.expected
            &&& earlier[i].timing == Some(
                timing_of(i as u32, start.iterations, start.expected.len() as usize),
            )
        } by {
            assert(earlier[i] == recorders[i]);
        }
        lemma_unchanged_passes(start, earlier);
        let last = recorders.len() - 1;
        assert(recorders[last] == recorders.last());
    }
}

/// An iteration whose passes differ from the expected ones ends the sample: whatever was
/// recorded before it, no further state is reached.
pub proof fn law_changed_passes_end_a_sample(start: SampleRunView, recorders: Seq<RecorderView>, changed: int)
    requires
        start.valid(),
        start.phase == SamplePhase::Recording(0),
        0 <= changed < recorders.len(),
        recorders[changed].passes != start.expected,
    ensures
        recordings(start, recorders) is None,
{
    lemma_recordings(start, recorders);
}

}
