//! The passes of one iteration and the timestamps around a sample.
use vstd::prelude::*;
use crate::calibration::MAX_RECORDED_PASSES_PER_SAMPLE;
use crate::text;

verus! {

/// The query that takes the time before the first pass of a sample.
pub const START_QUERY: u32 = 0;

/// The query that takes the time after the last pass of a sample.
pub const END_QUERY: u32 = 1;

/// A pass that was recorded, by its name.
#[derive(Debug, PartialEq, Eq)]
pub enum PassId {
    Compute(String),
}

impl View for PassId {
    type V = Seq<char>;

    open spec fn view(&self) -> Seq<char> {
        match *self {
            PassId::Compute(name) => name@,
        }
    }
}

/// The names of the passes, in order.
pub open spec fn pass_names(passes: Seq<PassId>) -> Seq<Seq<char>> {
    passes.map_values(|pass: PassId| pass@)
}

/// Where an iteration stands in its sample: which timestamps its passes take.
#[derive(Clone, Copy, Debug, PartialEq, Eq, Structural)]
pub struct IterationTiming {
    pub expected_pass_count: usize,
    pub start_query: Option<u32>,
    pub end_query: Option<u32>,
}

/// The queries that a pass writes when it begins and when it ends.
#[derive(Clone, Copy, Debug, PartialEq, Eq, Structural)]
pub struct PassTimestamps {
    pub beginning: Option<u32>,
    pub end: Option<u32>,
}

/// Why an iteration could not be recorded.
#[derive(Clone, Copy, Debug, PartialEq, Eq, Structural)]
pub enum RecordingError {
    /// One iteration exceeds the passes that a sample may record.
    PassBudgetExceeded,
    /// A timed iteration recorded another number of passes than the warm-up.
    PassCountChanged { recorded: usize, expected: usize },
    /// The iteration with this index recorded other passes than the warm-up.
    PassSequenceChanged(u32),
}

impl RecordingError {
    /// The text of the error.
    pub open spec fn text(self) -> Seq<char> {
        match self {
            RecordingError::PassBudgetExceeded => "one iteration exceeds the sample pass budget"@,
            RecordingError::PassCountChanged { recorded, expected } =>
                "Condition failed: `recorded_pass_count == expected_pass_count` ("@ + text::decimal_text(
                    recorded as nat,
                ) + " vs "@ + text::decimal_text(expected as nat) + ")"@,
            RecordingError::PassSequenceChanged(iteration) => "pass sequence changed at iteration "@
                + text::decimal_text(iteration as nat),
        }
    }

    /// Says why the iteration could not be recorded.
    pub fn message(&self) -> (message: String)
        ensures
            message@ == self.text(),
    {
        match self {
            RecordingError::PassBudgetExceeded => "one iteration exceeds the sample pass budget".to_owned(),
            RecordingError::PassCountChanged { recorded, expected } => {
                let mut message: String =
                    "Condition failed: `recorded_pass_count == expected_pass_count` (".to_owned();
                message.append(text::decimal(*recorded as u64).as_str());
                message.append(" vs ");
                message.append(text::decimal(*expected as u64).as_str());
                message.append(")");
                message
            },
            RecordingError::PassSequenceChanged(iteration) => {
                let mut message: String = "pass sequence changed at iteration ".to_owned();
                message.append(text::decimal(*iteration as u64).as_str());
                message
            },
        }
    }
}

/// What has been recorded of an iteration.
pub struct RecorderView {
    pub passes: Seq<Seq<char>>,
    pub timing: Option<IterationTiming>,
}

/// Records the passes of one iteration of a case.
#[derive(Debug)]
pub struct IterationRecorder {
    // the passes recorded during this iteration
    passes: Vec<PassId>,
    // without a timing the passes are recorded without timestamps
    timing: Option<IterationTiming>,
}

impl View for IterationRecorder {
    type V = RecorderView;

    closed spec fn view(&self) -> RecorderView {
        RecorderView { passes: pass_names(self.passes@), timing: self.timing }
    }
}

/// The timestamps that the pass with this index takes: the first pass the one at the
/// start, the last pass the one at the end, as far as the iteration has them.
pub open spec fn pass_timestamps(timing: Option<IterationTiming>, index: int) -> Option<PassTimestamps> {
    match timing {
        Some(timing) => {
            let beginning = if index == 0 {
                timing.start_query
            } else {
                None
            };
            let end = if index + 1 == timing.expected_pass_count {
                timing.end_query
            } else {
                None
            };
            if beginning is None && end is None {
                None
            } else {
                Some(PassTimestamps { beginning, end })
            }
        },
        None => None,
    }
}

/// The place of an iteration in a sample: the first takes the timestamp at the start, the
/// last the one at the end.
pub open spec fn timing_of(iteration: u32, iterations: u32, expected_pass_count: usize) -> IterationTiming {
    IterationTiming {
        expected_pass_count,
        start_query: if iteration == 0 {
            Some(START_QUERY)
        } else {
            None
        },
        end_query: if iteration + 1 == iterations {
            Some(END_QUERY)
        } else {
            None
        },
    }
}

/// The place of an iteration in a sample.
pub fn iteration_timing(iteration: u32, iterations: u32, expected_pass_count: usize) -> (timing: IterationTiming)
    requires
        iteration < iterations,
        expected_pass_count > 0,
    ensures
        timing == timing_of(iteration, iterations, expected_pass_count),
{
    IterationTiming {
        expected_pass_count,
        start_query: if iteration == 0 {
            Some(START_QUERY)
        } else {
            None
        },
        end_query: if iteration == iterations - 1 {
            Some(END_QUERY)
        } else {
            None
        },
    }
}

/// Whether a timed iteration recorded the passes of the warm-up: their number is looked at
/// first, then their names.
pub open spec fn recording_outcome(recorder: RecorderView, expected: Seq<Seq<char>>, iteration: u32) -> Result<
    (),
    RecordingError,
> {
    if recorder.timing matches Some(timing) && recorder.passes.len() != timing.expected_pass_count {
        Err(
            RecordingError::PassCountChanged {
                recorded: recorder.passes.len() as usize,
                expected: recorder.timing->0.expected_pass_count,
            },
        )
    } else if recorder.passes != expected {
        Err(RecordingError::PassSequenceChanged(iteration))
    } else {
        Ok(())
    }
}

impl IterationRecorder {
    #[verifier::type_invariant]
    spec fn within_budget(self) -> bool {
        self.passes.len() <= MAX_RECORDED_PASSES_PER_SAMPLE
    }

    /// Begins an iteration, timed or not.
    pub fn new(timing: Option<IterationTiming>) -> (recorder: IterationRecorder)
        ensures
            recorder@ == (RecorderView { passes: Seq::empty(), timing }),
    {
        let recorder = IterationRecorder { passes: Vec::new(), timing };
        assert(recorder@.passes =~= Seq::empty());
        recorder
    }

    /// The timestamps that the iteration takes, if it is timed.
    pub fn timing(&self) -> (timing: Option<IterationTiming>)
        ensures
            timing == self@.timing,
    {
        self.timing
    }

    /// Records a compute pass and tells which timestamps it takes.
    pub fn compute_pass(&mut self, name: &str) -> (result: Result<Option<PassTimestamps>, RecordingError>)
        ensures
            match result {
                Ok(timestamps) => {
                    &&& old(self)@.passes.len() < MAX_RECORDED_PASSES_PER_SAMPLE
                    &&& timestamps == pass_timestamps(old(self)@.timing, old(self)@.passes.len() as int)
                    &&& final(self)@ == (RecorderView {
                        passes: old(self)@.passes.push(name@),
                        timing: old(self)@.timing,
                    })
                },
                Err(error) => {
                    &&& error == RecordingError::PassBudgetExceeded
                    &&& old(self)@.passes.len() >= MAX_RECORDED_PASSES_PER_SAMPLE
                    &&& final(self)@ == old(self)@
                },
            },
    {
        if self.passes.len() >= MAX_RECORDED_PASSES_PER_SAMPLE {
            return Err(RecordingError::PassBudgetExceeded);
        }
        let index: usize = self.passes.len();
        let timestamps = match self.timing {
            Some(timing) => {
                let beginning: Option<u32> = if index == 0 {
                    timing.start_query
                } else {
                    None
                };
                let end: Option<u32> = if index + 1 == timing.expected_pass_count {
                    timing.end_query
                } else {
                    None
                };
                if beginning.is_none() && end.is_none() {
                    None
                } else {
                    Some(PassTimestamps { beginning, end })
                }
            },
            None => None,
        };
        let mut passes: Vec<PassId> = Vec::new();
        std::mem::swap(&mut self.passes, &mut passes);
        passes.push(PassId::Compute(name.to_owned()));
        proof {
            assert(pass_names(passes@) =~= old(self)@.passes.push(name@));
        }
        self.passes = passes;
        Ok(timestamps)
    }

    /// The passes that were recorded, whatever their number.
    pub(crate) fn into_passes(self) -> (passes: Vec<PassId>)
        ensures
            pass_names(passes@) == self@.passes,
            passes.len() <= MAX_RECORDED_PASSES_PER_SAMPLE,
    {
        proof {
            use_type_invariant(&self);
        }
        self.passes
    }

    /// Ends the iteration: the passes that it recorded.
    pub fn finish(self) -> (result: Result<Vec<PassId>, RecordingError>)
        ensures
            match result {
                Ok(passes) => {
                    &&& pass_names(passes@) == self@.passes
                    &&& passes.len() <= MAX_RECORDED_PASSES_PER_SAMPLE
                    &&& self@.timing matches Some(timing) ==> self@.passes.len() == timing.expected_pass_count
                },
                Err(error) => {
                    &&& self@.timing matches Some(timing) && self@.passes.len() != timing.expected_pass_count
                    &&& error matches RecordingError::PassCountChanged { recorded, expected } && recorded
                        == self@.passes.len() && expected == self@.timing->0.expected_pass_count
                },
            },
    {
        if let Some(timing) = self.timing {
            if self.passes.len() != timing.expected_pass_count {
                return Err(
                    RecordingError::PassCountChanged {
                        recorded: self.passes.len(),
                        expected: timing.expected_pass_count,
                    },
                );
            }
        }
        Ok(self.into_passes())
    }

    /// Ends a timed iteration, which must have recorded the passes of the warm-up.
    pub fn finish_expecting(self, expected_passes: &Vec<PassId>, iteration: u32) -> (result: Result<
        (),
        RecordingError,
    >)
        ensures
            result == recording_outcome(self@, pass_names(expected_passes@), iteration),
    {
        let passes: Vec<PassId> = match self.finish() {
            Ok(passes) => passes,
            Err(error) => return Err(error),
        };
        if same_passes(&passes, expected_passes) {
            Ok(())
        } else {
            Err(RecordingError::PassSequenceChanged(iteration))
        }
    }
}

/// Whether the same passes were recorded in the same order.
fn same_passes(left: &Vec<PassId>, right: &Vec<PassId>) -> (same: bool)
    ensures
        same == (pass_names(left@) == pass_names(right@)),
{
    let ghost left_names = pass_names(left@);
    let ghost right_names = pass_names(right@);
    if left.len() != right.len() {
        assert(left_names.len() != right_names.len());
        return false;
    }
    for i in 0..left.len()
        invariant
            left.len() == right.len(),
            left_names == pass_names(left@),
            right_names == pass_names(right@),
            forall|j: int| 0 <= j < i ==> left_names[j] == right_names[j],
    {
        let PassId::Compute(left_name) = &left[i];
        let PassId::Compute(right_name) = &right[i];
        if *left_name != *right_name {
            assert(left_names[i as int] != right_names[i as int]);
            return false;
        }
    }
    assert(left_names =~= right_names);
    true
}

/// A sample takes exactly two timestamps: query 0 when the first pass of its first
/// iteration begins, and query 1 when the last pass of its last iteration ends.
pub proof fn law_sample_takes_two_timestamps(iteration: u32, iterations: u32, pass: int, passes: usize)
    requires
        iteration < iterations,
        0 <= pass < passes,
    ensures
        match pass_timestamps(Some(timing_of(iteration, iterations, passes)), pass) {
            Some(timestamps) => {
                &&& timestamps.beginning == if iteration == 0 && pass == 0 {
                    Some(START_QUERY)
                } else {
                    None
                }
                &&& timestamps.end == if iteration == iterations - 1 && pass == passes - 1 {
                    Some(END_QUERY)
                } else {
                    None
                }
                &&& timestamps.beginning is Some || timestamps.end is Some
            },
            None => {
                &&& !(iteration == 0 && pass == 0)
                &&& !(iteration == iterations - 1 && pass == passes - 1)
            },
        },
{
}

/// An untimed iteration takes no timestamp.
pub proof fn law_untimed_iterations_take_no_timestamp(pass: int)
    ensures
        pass_timestamps(None, pass) is None,
{
}

/// An iteration that repeats the expected passes is accepted, whatever its index, and no other
/// iteration is: another number of passes than its timing expects is told with both numbers,
/// other passes of that number with the index of the iteration.
pub proof fn law_unchanged_passes_are_accepted(
    recorder: RecorderView,
    timing: IterationTiming,
    expected: Seq<Seq<char>>,
    iteration: u32,
)
    requires
        recorder.timing == Some(timing),
        recorder.passes.len() <= usize::MAX,
        timing.expected_pass_count == expected.len(),
    ensures
        recording_outcome(recorder, expected, iteration) is Ok <==> recorder.passes == expected,
        recorder.passes.len() != expected.len() ==> (recording_outcome(recorder, expected, iteration) matches Err(
            RecordingError::PassCountChanged { recorded, expected: count },
        ) && recorded == recorder.passes.len() && count == expected.len()),
        recorder.passes.len() == expected.len() && recorder.passes != expected ==> (recording_outcome(
            recorder,
            expected,
            iteration,
        ) matches Err(RecordingError::PassSequenceChanged(at)) && at == iteration),
{
}

/// Of an untimed iteration only the passes count.
pub proof fn law_untimed_iterations_are_compared_by_their_passes(
    passes: Seq<Seq<char>>,
    expected: Seq<Seq<char>>,
    iteration: u32,
)
    ensures
        recording_outcome(RecorderView { passes, timing: None }, expected, iteration) is Ok <==> passes == expected,
{
}

/// A pass takes the start timestamp of its iteration exactly if nothing was recorded before it,
/// and the end timestamp exactly if with it the expected number of passes is recorded.
pub proof fn law_first_and_last_pass_take_the_timestamps(timing: IterationTiming, recorded: nat)
    ensures
        ({
            let taken = pass_timestamps(Some(timing), recorded as int);
            let beginning = match taken {
                Some(timestamps) => timestamps.beginning,
                None => None,
            };
            let end = match taken {
                Some(timestamps) => timestamps.end,
                None => None,
            };
            &&& recorded == 0 ==> beginning == timing.start_query
            &&& recorded > 0 ==> beginning is None
            &&& recorded + 1 == timing.expected_pass_count ==> end == timing.end_query
            &&& recorded + 1 != timing.expected_pass_count ==> end is None
            &&& taken is Some ==> beginning is Some || end is Some
        }),
{
}

/// Of the iterations of a sample the first alone has a start timestamp, in query 0, and the last
/// alone an end timestamp, in query 1.
pub proof fn law_ends_of_a_sample_are_timed(iteration: u32, iterations: u32, passes: usize)
    requires
        iteration < iterations,
    ensures
        timing_of(iteration, iterations, passes).expected_pass_count == passes,
        timing_of(iteration, iterations, passes).start_query is Some <==> iteration == 0,
        timing_of(iteration, iterations, passes).end_query is Some <==> iteration == iterations - 1,
        timing_of(0, iterations, passes).start_query == Some(0u32),
        timing_of((iterations - 1) as u32, iterations, passes).end_query == Some(1u32),
{
}

/// The errors name the iteration or both numbers of passes, whatever they are.
pub proof fn law_recording_errors_name_the_numbers(recorded: usize, expected: usize, iteration: u32)
    ensures
        (RecordingError::PassCountChanged { recorded, expected }).text()
            == "Condition failed: `recorded_pass_count == expected_pass_count` ("@ + text::decimal_text(
            recorded as nat,
        ) + " vs "@ + text::decimal_text(expected as nat) + ")"@,
        RecordingError::PassSequenceChanged(iteration).text() == "pass sequence changed at iteration "@
            + text::decimal_text(iteration as nat),
{
}

/// The names of recorded passes are those that they were recorded under, one for one.
pub proof fn law_passes_keep_their_names(passes: Seq<PassId>, name: String)
    ensures
        pass_names(passes.push(PassId::Compute(name))) == pass_names(passes).push(name@),
        pass_names(passes).len() == passes.len(),
{
    assert(pass_names(passes.push(PassId::Compute(name))) =~= pass_names(passes).push(name@));
}

}
