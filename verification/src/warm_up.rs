//! The course of a warm-up: preparation, one untimed iteration and its execution.
use vstd::prelude::*;
use crate::calibration::MAX_RECORDED_PASSES_PER_SAMPLE;
use crate::case_run::CaseEvent;
use crate::device_errors::{fail_on_device_error, DeviceErrors, DeviceFailure};
use crate::recorder::{pass_names, pass_timestamps, IterationRecorder, PassId, RecorderView};

verus! {

/// How far a warm-up has come: what has to be done next.
#[derive(Clone, Copy, Debug, PartialEq, Eq, Structural)]
pub enum WarmUpPhase {
    /// Run the untimed preparation.
    Preparation,
    /// Record one iteration.
    Recording,
    /// Run what was recorded.
    Execution,
}

/// The state of a warm-up, as mathematical values.
pub struct WarmUpView {
    pub phase: WarmUpPhase,
    /// The names of the passes that were recorded.
    pub passes: Seq<Seq<char>>,
}

/// The course of one warm-up.
#[derive(Debug)]
pub struct WarmUpRun {
    phase: WarmUpPhase,
    passes: Vec<PassId>,
}

impl View for WarmUpRun {
    type V = WarmUpView;

    closed spec fn view(&self) -> WarmUpView {
        WarmUpView { phase: self.phase, passes: pass_names(self.passes@) }
    }
}

impl WarmUpView {
    /// What holds of every state that a warm-up can reach.
    pub open spec fn valid(self) -> bool {
        &&& self.passes.len() <= MAX_RECORDED_PASSES_PER_SAMPLE
        &&& !(self.phase is Execution) ==> self.passes.len() == 0
    }

    /// The recorder is one for the iteration to be recorded: it takes no timestamps.
    pub open spec fn expects(self, recorder: RecorderView) -> bool {
        self.phase is Recording && recorder.timing is None
    }

    /// The state after the iteration was recorded.
    pub open spec fn after_recording(self, recorder: RecorderView) -> WarmUpView {
        WarmUpView { phase: WarmUpPhase::Execution, passes: recorder.passes }
    }
}

impl WarmUpRun {
    #[verifier::type_invariant]
    spec fn invariant_holds(self) -> bool {
        self@.valid()
    }

    /// Begins a warm-up.
    pub fn new() -> (run: WarmUpRun)
        ensures
            run@ == (WarmUpView { phase: WarmUpPhase::Preparation, passes: Seq::empty() }),
    {
        let passes: Vec<PassId> = Vec::new();
        assert(pass_names(passes@) =~= Seq::empty());
        WarmUpRun { phase: WarmUpPhase::Preparation, passes }
    }

    /// What has to be done next.
    pub fn phase(&self) -> (phase: WarmUpPhase)
        ensures
            phase == self@.phase,
    {
        self.phase
    }

    /// Goes on after the preparation ran, unless the device failed meanwhile.
    pub fn prepared(self, errors: &DeviceErrors) -> (result: Result<WarmUpRun, DeviceFailure>)
        requires
            self@.phase is Preparation,
        ensures
            match result {
                Ok(run) => errors@.len() == 0 && run@ == (WarmUpView {
                    phase: WarmUpPhase::Recording,
                    passes: Seq::empty(),
                }),
                Err(failure) => errors@.len() > 0 && failure.reports("warmup_preparation"@, None, errors@),
            },
    {
        proof {
            use_type_invariant(&self);
            assert(self@.passes =~= Seq::empty());
        }
        match fail_on_device_error(errors, "warmup_preparation", None) {
            Ok(_) => Ok(WarmUpRun { phase: WarmUpPhase::Recording, ..self }),
            Err(failure) => Err(failure),
        }
    }

    /// A recorder for the iteration to be recorded.
    pub fn recorder(&self) -> (recorder: IterationRecorder)
        requires
            self@.phase is Recording,
        ensures
            recorder@ == (RecorderView { passes: Seq::empty(), timing: None }),
            self@.expects(recorder@),
    {
        IterationRecorder::new(None)
    }

    /// Goes on after the iteration was recorded.
    pub fn recorded(self, recorder: IterationRecorder) -> (run: WarmUpRun)
        requires
            self@.expects(recorder@),
        ensures
            run@ == self@.after_recording(recorder@),
            run@.valid(),
    {
        WarmUpRun { phase: WarmUpPhase::Execution, passes: recorder.into_passes() }
    }

    /// Ends the warm-up after what was recorded ran: what is reported of it.
    pub fn executed(self) -> (event: CaseEvent)
        requires
            self@.phase is Execution,
        ensures
            event matches CaseEvent::WarmedUp { passes } && pass_names(passes@) == self@.passes
                && passes.len() <= MAX_RECORDED_PASSES_PER_SAMPLE,
    {
        proof {
            use_type_invariant(&self);
        }
        CaseEvent::WarmedUp { passes: self.passes }
    }
}

/// No pass of a warm-up takes a timestamp, and its result are the passes that its one
/// iteration recorded.
pub proof fn law_warm_ups_are_untimed(state: WarmUpView, recorder: RecorderView, pass: int)
    requires
        state.expects(recorder),
    ensures
        pass_timestamps(recorder.timing, pass) is None,
        state.after_recording(recorder).passes == recorder.passes,
        state.after_recording(recorder).phase is Execution,
{
}

}
