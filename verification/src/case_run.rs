//! The course of one case: warm-up, calibration, preconditioning and measurement.
use vstd::prelude::*;
use crate::calibration::{
    maximum_iterations_per_sample, predict_iteration_count, MAX_RECORDED_PASSES_PER_SAMPLE,
};
use crate::calibration;
use crate::device_errors::{fail_on_device_error, DeviceErrors, DeviceFailure};
use crate::recorder::{pass_names, PassId, RecorderView};
use crate::sample_run::{
    law_executed_samples_repeat_the_same_passes, recordings, SamplePhase, SampleRun, SampleRunView,
};
use crate::text;

verus! {

/// How long a case is run before its samples count, in nanoseconds.
pub const PRECONDITIONING_NS: u128 = 1_000_000_000;

/// Whether one sample may contain multiple iterations of the workload.
#[derive(Clone, Copy, Debug, PartialEq, Eq, Hash, Structural)]
pub enum Repeatability {
    Repeatable,
    SingleIteration,
}

/// When the result of a case is checked.
#[derive(Clone, Copy, Debug, PartialEq, Eq, Structural)]
pub enum ValidationStage {
    WarmUp,
    Calibration,
    Preconditioning,
    Final,
}

/// The observations that settle the number of iterations.
#[derive(Clone, Copy, Debug, PartialEq, Eq, Structural)]
pub enum CalibrationRound {
    /// One iteration, to predict a number of iterations from.
    Pilot,
    /// The predicted number, to correct the prediction.
    Candidate,
    /// The corrected number.
    Corrected,
}

/// How far the course has come: what has to be done next.
#[derive(Clone, Copy, Debug, PartialEq, Eq, Structural)]
pub enum CasePhase {
    Setup,
    WarmUp,
    Validation(ValidationStage),
    TimestampResources,
    Calibration(CalibrationRound),
    Preconditioning,
    Measurement,
    Finished,
}

/// What the driver of a case reports when it has done what the phase asks for.
#[derive(Debug, PartialEq, Eq)]
pub enum CaseEvent {
    /// The fixture exists.
    SetUp,
    /// One untimed iteration ran and recorded these passes.
    WarmedUp { passes: Vec<PassId> },
    /// The result was found correct.
    Validated,
    /// Queries and buffers for timestamps exist.
    TimestampResourcesReady,
    /// One timed sample ran.
    Observed {
        /// The clock ticks that it took.
        ticks: u64,
        /// The target duration divided by the duration of one of its iterations, rounded.
        ratio: u32,
        /// The time since preconditioning began.
        preconditioning_ns: u128,
    },
}

/// Why a case cannot go on.
#[derive(Clone, Copy, Debug, PartialEq, Eq, Structural)]
pub enum CaseError {
    /// The warm-up recorded no pass.
    NoPasses,
    /// A calibration candidate took no measurable time.
    CandidateBelowResolution,
    /// The corrected candidate took no measurable time.
    CorrectedBelowResolution,
    /// A preconditioning sample took no measurable time.
    PreconditioningBelowResolution,
    /// The measured sample with this index took no measurable time.
    SampleBelowResolution(u32),
}

impl CaseError {
    /// The text of the error.
    pub open spec fn text(self) -> Seq<char> {
        match self {
            CaseError::NoPasses => "passes must be nonzero"@,
            CaseError::CandidateBelowResolution => "calibration candidate is below timestamp resolution"@,
            CaseError::CorrectedBelowResolution => "corrected candidate is below timestamp resolution"@,
            CaseError::PreconditioningBelowResolution => "sample is below timestamp resolution"@,
            CaseError::SampleBelowResolution(index) => "measurement sample "@ + text::decimal_text(
                index as nat,
            ) + " is below timestamp resolution"@,
        }
    }

    /// Says why the case cannot go on.
    pub fn message(&self) -> (message: String)
        ensures
            message@ == self.text(),
    {
        match self {
            CaseError::NoPasses => "passes must be nonzero".to_owned(),
            CaseError::CandidateBelowResolution => {
                "calibration candidate is below timestamp resolution".to_owned()
            },
            CaseError::CorrectedBelowResolution => {
                "corrected candidate is below timestamp resolution".to_owned()
            },
            CaseError::PreconditioningBelowResolution => "sample is below timestamp resolution".to_owned(),
            CaseError::SampleBelowResolution(index) => {
                let mut message: String = "measurement sample ".to_owned();
                message.append(text::decimal(*index as u64).as_str());
                message.append(" is below timestamp resolution");
                message
            },
        }
    }
}

/// The state of a case, as mathematical values.
pub struct CaseRunView {
    pub repeatability: Repeatability,
    pub sample_size: nat,
    pub phase: CasePhase,
    /// The names of the passes of one iteration; none before the warm-up.
    pub passes: Seq<Seq<char>>,
    /// The iterations of the next sample; 0 before the first.
    pub iterations: nat,
    /// The ticks of the measured samples, in order.
    pub samples: Seq<u64>,
}

/// The course of one case.
#[derive(Debug)]
pub struct CaseRun {
    repeatability: Repeatability,
    sample_size: u32,
    phase: CasePhase,
    passes: Vec<PassId>,
    iterations: u32,
    samples: Vec<u64>,
}

impl View for CaseRun {
    type V = CaseRunView;

    closed spec fn view(&self) -> CaseRunView {
        CaseRunView {
            repeatability: self.repeatability,
            sample_size: self.sample_size as nat,
            phase: self.phase,
            passes: pass_names(self.passes@),
            iterations: self.iterations as nat,
            samples: self.samples@,
        }
    }
}

/// The state in which a case begins.
pub open spec fn started(repeatability: Repeatability, sample_size: nat) -> CaseRunView {
    CaseRunView {
        repeatability,
        sample_size,
        phase: CasePhase::Setup,
        passes: Seq::empty(),
        iterations: 0,
        samples: Seq::empty(),
    }
}

impl CaseRunView {
    /// The most iterations that one sample of this case may hold.
    pub open spec fn maximum(self) -> int {
        calibration::maximum_iterations(self.passes.len() as int)
    }

    /// The event reports what the phase asks for.
    pub open spec fn expects(self, event: CaseEvent) -> bool {
        match self.phase {
            CasePhase::Setup => event is SetUp,
            CasePhase::WarmUp => event is WarmedUp,
            CasePhase::Validation(_) => event is Validated,
            CasePhase::TimestampResources => event is TimestampResourcesReady,
            CasePhase::Calibration(_) => event is Observed,
            CasePhase::Preconditioning => event is Observed,
            CasePhase::Measurement => event is Observed,
            CasePhase::Finished => false,
        }
    }

    /// The phase asks for a timed sample.
    pub open spec fn sampling(self) -> bool {
        match self.phase {
            CasePhase::Calibration(_) | CasePhase::Preconditioning | CasePhase::Measurement => true,
            _ => false,
        }
    }

    /// The sample that the phase asks for, before it is prepared.
    pub open spec fn sample(self) -> SampleRunView {
        SampleRunView {
            expected: self.passes,
            iterations: self.iterations as u32,
            phase: SamplePhase::Preparation,
        }
    }

    /// What is said of the case where the sample that the phase asks for fails.
    pub open spec fn sample_failure(self) -> Option<Seq<char>> {
        match self.phase {
            CasePhase::Calibration(CalibrationRound::Pilot) => Some("calibration pilot failed"@),
            CasePhase::Calibration(CalibrationRound::Candidate) => Some("calibration candidate failed"@),
            CasePhase::Calibration(CalibrationRound::Corrected) => Some(
                "corrected calibration candidate failed"@,
            ),
            CasePhase::Preconditioning => Some("preconditioning failed"@),
            CasePhase::Measurement => Some(
                "measurement sample "@ + text::decimal_text(self.samples.len()) + " failed"@,
            ),
            _ => None,
        }
    }

    pub open spec fn at(self, phase: CasePhase) -> CaseRunView {
        CaseRunView { phase, ..self }
    }

    pub open spec fn with_iterations(self, iterations: int) -> CaseRunView {
        CaseRunView { iterations: iterations as nat, ..self }
    }

    /// The state after an event that the phase expects, or why there is none.
    pub open spec fn after(self, event: CaseEvent) -> Result<CaseRunView, CaseError> {
        match (self.phase, event) {
            (CasePhase::Setup, _) => Ok(self.at(CasePhase::WarmUp)),
            (CasePhase::WarmUp, CaseEvent::WarmedUp { passes }) => if passes.len() == 0 {
                Err(CaseError::NoPasses)
            } else {
                Ok(
                    CaseRunView {
                        passes: pass_names(passes@),
                        phase: CasePhase::Validation(ValidationStage::WarmUp),
                        ..self
                    },
                )
            },
            (CasePhase::Validation(stage), _) => Ok(
                self.at(
                    match stage {
                        ValidationStage::WarmUp => CasePhase::TimestampResources,
                        ValidationStage::Calibration => CasePhase::Preconditioning,
                        ValidationStage::Preconditioning => CasePhase::Measurement,
                        ValidationStage::Final => CasePhase::Finished,
                    },
                ),
            ),
            (CasePhase::TimestampResources, _) => Ok(
                self.with_iterations(1).at(
                    match self.repeatability {
                        Repeatability::SingleIteration => CasePhase::Preconditioning,
                        Repeatability::Repeatable => CasePhase::Calibration(CalibrationRound::Pilot),
                    },
                ),
            ),
            (CasePhase::Calibration(round), CaseEvent::Observed { ticks, ratio, .. }) => self.calibrated(
                round,
                ticks,
                calibration::predicted_iterations(ticks, ratio, self.maximum()),
            ),
            (CasePhase::Preconditioning, CaseEvent::Observed { ticks, preconditioning_ns, .. }) => if ticks
                == 0 {
                Err(CaseError::PreconditioningBelowResolution)
            } else if preconditioning_ns >= PRECONDITIONING_NS {
                Ok(self.at(CasePhase::Validation(ValidationStage::Preconditioning)))
            } else {
                Ok(self)
            },
            (CasePhase::Measurement, CaseEvent::Observed { ticks, .. }) => if ticks == 0 {
                Err(CaseError::SampleBelowResolution(self.samples.len() as u32))
            } else {
                let measured = CaseRunView { samples: self.samples.push(ticks), ..self };
                if measured.samples.len() == self.sample_size {
                    Ok(measured.at(CasePhase::Validation(ValidationStage::Final)))
                } else {
                    Ok(measured)
                }
            },
            _ => Ok(self),
        }
    }

    /// The state after a calibration sample that took `ticks`, where `predicted` iterations
    /// would meet the target.
    ///
    /// A pilot of one iteration suffices where more would exceed the target, a candidate
    /// where it confirms its own number; a candidate must take measurable time.
    pub open spec fn calibrated(self, round: CalibrationRound, ticks: u64, predicted: int) -> Result<
        CaseRunView,
        CaseError,
    > {
        let settled = self.with_iterations(predicted).at(
            CasePhase::Validation(ValidationStage::Calibration),
        );
        match round {
            CalibrationRound::Pilot => if predicted > 1 {
                Ok(settled.at(CasePhase::Calibration(CalibrationRound::Candidate)))
            } else {
                Ok(settled)
            },
            CalibrationRound::Candidate => if ticks == 0 {
                Err(CaseError::CandidateBelowResolution)
            } else if predicted != self.iterations {
                Ok(settled.at(CasePhase::Calibration(CalibrationRound::Corrected)))
            } else {
                Ok(settled)
            },
            CalibrationRound::Corrected => if ticks == 0 {
                Err(CaseError::CorrectedBelowResolution)
            } else {
                Ok(self.at(CasePhase::Validation(ValidationStage::Calibration)))
            },
        }
    }

    /// The number of iterations is settled within bounds.
    pub open spec fn iterations_valid(self) -> bool {
        &&& self.passes.len() > 0
        &&& 1 <= self.iterations <= self.maximum()
        &&& self.repeatability is SingleIteration ==> self.iterations == 1
    }

    /// What holds of every state that a case can reach.
    pub open spec fn valid(self) -> bool {
        &&& self.sample_size > 0
        &&& forall|i: int| 0 <= i < self.samples.len() ==> #[trigger] self.samples[i] > 0
        &&& match self.phase {
            CasePhase::Setup | CasePhase::WarmUp => {
                &&& self.passes.len() == 0
                &&& self.iterations == 0
                &&& self.samples.len() == 0
            },
            CasePhase::Validation(ValidationStage::WarmUp) | CasePhase::TimestampResources => {
                &&& self.passes.len() > 0
                &&& self.iterations == 0
                &&& self.samples.len() == 0
            },
            CasePhase::Calibration(round) => {
                &&& self.repeatability is Repeatable
                &&& self.iterations_valid()
                &&& round is Pilot ==> self.iterations == 1
                &&& round is Candidate ==> self.iterations > 1
                &&& self.samples.len() == 0
            },
            CasePhase::Validation(ValidationStage::Calibration) => {
                &&& self.repeatability is Repeatable
                &&& self.iterations_valid()
                &&& self.samples.len() == 0
            },
            CasePhase::Preconditioning | CasePhase::Validation(ValidationStage::Preconditioning) => {
                &&& self.iterations_valid()
                &&& self.samples.len() == 0
            },
            CasePhase::Measurement => {
                &&& self.iterations_valid()
                &&& self.samples.len() < self.sample_size
            },
            CasePhase::Validation(ValidationStage::Final) | CasePhase::Finished => {
                &&& self.iterations_valid()
                &&& self.samples.len() == self.sample_size
            },
        }
    }
}

impl CaseRun {
    #[verifier::type_invariant]
    spec fn invariant_holds(self) -> bool {
        self@.valid()
    }

    /// Begins the course of a case of which `sample_size` samples are measured.
    pub fn new(repeatability: Repeatability, sample_size: u32) -> (run: CaseRun)
        requires
            sample_size > 0,
        ensures
            run@ == started(repeatability, sample_size as nat),
            run@.valid(),
    {
        let passes: Vec<PassId> = Vec::new();
        assert(pass_names(passes@) =~= Seq::empty());
        CaseRun {
            repeatability,
            sample_size,
            phase: CasePhase::Setup,
            passes,
            iterations: 0,
            samples: Vec::new(),
        }
    }

    /// What has to be done next.
    pub fn phase(&self) -> (phase: CasePhase)
        ensures
            phase == self@.phase,
    {
        self.phase
    }

    /// The iterations of the next sample.
    pub fn iterations(&self) -> (iterations: u32)
        ensures
            iterations == self@.iterations,
    {
        self.iterations
    }

    /// The passes of one iteration, as the warm-up recorded them; none before.
    pub fn passes(&self) -> (passes: &Vec<PassId>)
        ensures
            pass_names(passes@) == self@.passes,
    {
        &self.passes
    }

    /// The ticks of the measured samples, in order.
    pub fn samples(&self) -> (samples: &Vec<u64>)
        ensures
            samples@ == self@.samples,
    {
        &self.samples
    }

    /// Begins the sample that the phase asks for: with the iterations that are settled, each
    /// of which has to record the passes of the warm-up.
    pub fn begin_sample(&self) -> (sample: SampleRun<'_>)
        requires
            self@.sampling(),
        ensures
            sample@ == self@.sample(),
            sample@.iterations == self@.iterations,
            sample@.valid(),
    {
        proof {
            use_type_invariant(self);
        }
        SampleRun::begin(&self.passes, self.iterations)
    }

    /// What is said of the case where the sample that the phase asks for fails.
    pub fn sample_failure(&self) -> (failure: Option<String>)
        ensures
            match (failure, self@.sample_failure()) {
                (Some(failure), Some(text)) => failure@ == text,
                (None, None) => true,
                _ => false,
            },
    {
        match self.phase {
            CasePhase::Calibration(CalibrationRound::Pilot) => Some("calibration pilot failed".to_owned()),
            CasePhase::Calibration(CalibrationRound::Candidate) => Some(
                "calibration candidate failed".to_owned(),
            ),
            CasePhase::Calibration(CalibrationRound::Corrected) => Some(
                "corrected calibration candidate failed".to_owned(),
            ),
            CasePhase::Preconditioning => Some("preconditioning failed".to_owned()),
            CasePhase::Measurement => {
                let mut failure: String = "measurement sample ".to_owned();
                failure.append(text::decimal(self.samples.len() as u64).as_str());
                failure.append(" failed");
                Some(failure)
            },
            _ => None,
        }
    }

    /// Goes on after an event that the phase asks for.
    pub fn advance(self, event: CaseEvent) -> (result: Result<CaseRun, CaseError>)
        requires
            self@.expects(event),
        ensures
            match (result, self@.after(event)) {
                (Ok(run), Ok(after)) => run@ == after && run@.valid(),
                (Err(error), Err(expected)) => error == expected,
                _ => false,
            },
    {
        proof {
            use_type_invariant(&self);
        }
        match (self.phase, event) {
            (CasePhase::Setup, _) => Ok(CaseRun { phase: CasePhase::WarmUp, ..self }),
            (CasePhase::WarmUp, CaseEvent::WarmedUp { passes }) => {
                if passes.len() == 0 {
                    return Err(CaseError::NoPasses);
                }
                Ok(CaseRun { passes, phase: CasePhase::Validation(ValidationStage::WarmUp), ..self })
            },
            (CasePhase::Validation(stage), _) => {
                let phase = match stage {
                    ValidationStage::WarmUp => CasePhase::TimestampResources,
                    ValidationStage::Calibration => CasePhase::Preconditioning,
                    ValidationStage::Preconditioning => CasePhase::Measurement,
                    ValidationStage::Final => CasePhase::Finished,
                };
                Ok(CaseRun { phase, ..self })
            },
            (CasePhase::TimestampResources, _) => {
                let phase = match self.repeatability {
                    Repeatability::SingleIteration => CasePhase::Preconditioning,
                    Repeatability::Repeatable => CasePhase::Calibration(CalibrationRound::Pilot),
                };
                Ok(CaseRun { phase, iterations: 1, ..self })
            },
            (CasePhase::Calibration(round), CaseEvent::Observed { ticks, ratio, .. }) => {
                self.calibrate(round, ticks, ratio)
            },
            (CasePhase::Preconditioning, CaseEvent::Observed { ticks, preconditioning_ns, .. }) => {
                if ticks == 0 {
                    return Err(CaseError::PreconditioningBelowResolution);
                }
                if preconditioning_ns >= PRECONDITIONING_NS {
                    let phase = CasePhase::Validation(ValidationStage::Preconditioning);
                    return Ok(CaseRun { phase, ..self });
                }
                Ok(self)
            },
            (CasePhase::Measurement, CaseEvent::Observed { ticks, .. }) => self.measure(ticks),
            _ => Ok(self),
        }
    }

    fn calibrate(self, round: CalibrationRound, ticks: u64, ratio: u32) -> (result: Result<CaseRun, CaseError>)
        requires
            self@.phase == CasePhase::Calibration(round),
        ensures
            match (
                result,
                self@.calibrated(
                    round,
                    ticks,
                    calibration::predicted_iterations(ticks, ratio, self@.maximum()),
                ),
            ) {
                (Ok(run), Ok(after)) => run@ == after && run@.valid(),
                (Err(error), Err(expected)) => error == expected,
                _ => false,
            },
    {
        proof {
            use_type_invariant(&self);
        }
        let maximum: u32 = maximum_iterations_per_sample(self.passes.len());
        let predicted: u32 = predict_iteration_count(ticks, ratio, maximum);
        let settled = CasePhase::Validation(ValidationStage::Calibration);
        match round {
            CalibrationRound::Pilot => {
                let phase = if predicted > 1 {
                    CasePhase::Calibration(CalibrationRound::Candidate)
                } else {
                    settled
                };
                Ok(CaseRun { phase, iterations: predicted, ..self })
            },
            CalibrationRound::Candidate => {
                if ticks == 0 {
                    return Err(CaseError::CandidateBelowResolution);
                }
                let phase = if predicted != self.iterations {
                    CasePhase::Calibration(CalibrationRound::Corrected)
                } else {
                    settled
                };
                Ok(CaseRun { phase, iterations: predicted, ..self })
            },
            CalibrationRound::Corrected => {
                if ticks == 0 {
                    return Err(CaseError::CorrectedBelowResolution);
                }
                Ok(CaseRun { phase: settled, ..self })
            },
        }
    }

    fn measure(self, ticks: u64) -> (result: Result<CaseRun, CaseError>)
        requires
            self@.phase == CasePhase::Measurement,
        ensures
            match (
                result,
                self@.after(CaseEvent::Observed { ticks, ratio: 0, preconditioning_ns: 0 }),
            ) {
                (Ok(run), Ok(after)) => run@ == after && run@.valid(),
                (Err(error), Err(expected)) => error == expected,
                _ => false,
            },
    {
        proof {
            use_type_invariant(&self);
        }
        if ticks == 0 {
            return Err(CaseError::SampleBelowResolution(self.samples.len() as u32));
        }
        let mut samples: Vec<u64> = self.samples;
        samples.push(ticks);
        let phase = if samples.len() == self.sample_size as usize {
            CasePhase::Validation(ValidationStage::Final)
        } else {
            CasePhase::Measurement
        };
        Ok(
            CaseRun {
                repeatability: self.repeatability,
                sample_size: self.sample_size,
                phase,
                passes: self.passes,
                iterations: self.iterations,
                samples,
            },
        )
    }
}

/// The stage under which device errors are reported when what the phase asks for is done.
/// Samples look for device errors themselves.
pub open spec fn stage_name(phase: CasePhase) -> Option<Seq<char>> {
    match phase {
        CasePhase::Setup => Some("setup"@),
        CasePhase::WarmUp => Some("warmup"@),
        CasePhase::Validation(ValidationStage::WarmUp) => Some("warmup_validation"@),
        CasePhase::Validation(ValidationStage::Calibration) => Some("calibration_validation"@),
        CasePhase::Validation(ValidationStage::Preconditioning) => Some("preconditioning_validation"@),
        CasePhase::Validation(ValidationStage::Final) => Some("final_validation"@),
        CasePhase::TimestampResources => Some("timestamp_resources"@),
        _ => None,
    }
}

impl CasePhase {
    /// The stage under which device errors are reported when this phase is done.
    pub fn stage(&self) -> (stage: Option<&'static str>)
        ensures
            match (stage, stage_name(*self)) {
                (Some(stage), Some(name)) => stage@ == name,
                (None, None) => true,
                _ => false,
            },
    {
        match *self {
            CasePhase::Setup => Some("setup"),
            CasePhase::WarmUp => Some("warmup"),
            CasePhase::Validation(ValidationStage::WarmUp) => Some("warmup_validation"),
            CasePhase::Validation(ValidationStage::Calibration) => Some("calibration_validation"),
            CasePhase::Validation(ValidationStage::Preconditioning) => Some("preconditioning_validation"),
            CasePhase::Validation(ValidationStage::Final) => Some("final_validation"),
            CasePhase::TimestampResources => Some("timestamp_resources"),
            _ => None,
        }
    }
}

/// Why a case ended early.
#[derive(Debug)]
pub enum CaseFailure {
    Device(DeviceFailure),
    Case(CaseError),
}

impl CaseFailure {
    /// The text of the failure.
    pub open spec fn text(self) -> Seq<char> {
        match self {
            CaseFailure::Device(failure) => failure.text(),
            CaseFailure::Case(error) => error.text(),
        }
    }

    /// Says why the case ended early.
    pub fn message(&self) -> (message: String)
        ensures
            message@ == self.text(),
    {
        match self {
            CaseFailure::Device(failure) => failure.message(),
            CaseFailure::Case(error) => error.message(),
        }
    }
}

/// Begins the course of a case, unless the device has already failed.
pub fn begin_case(repeatability: Repeatability, sample_size: u32, errors: &DeviceErrors) -> (result: Result<
    CaseRun,
    CaseFailure,
>)
    requires
        sample_size > 0,
    ensures
        match result {
            Ok(run) => errors@.len() == 0 && run@ == started(repeatability, sample_size as nat),
            Err(CaseFailure::Device(failure)) => errors@.len() > 0 && failure.reports(
                "before_setup"@,
                None,
                errors@,
            ),
            Err(CaseFailure::Case(_)) => false,
        },
{
    match fail_on_device_error(errors, "before_setup", None) {
        Ok(_) => Ok(CaseRun::new(repeatability, sample_size)),
        Err(failure) => Err(CaseFailure::Device(failure)),
    }
}

/// Goes on after what the phase asks for was done, unless the device failed meanwhile.
pub fn complete_phase(run: CaseRun, event: CaseEvent, errors: &DeviceErrors) -> (result: Result<CaseRun, CaseFailure>)
    requires
        run@.expects(event),
    ensures
        match result {
            Ok(next) => {
                &&& stage_name(run@.phase) is Some ==> errors@.len() == 0
                &&& run@.after(event) == Ok::<CaseRunView, CaseError>(next@)
            },
            Err(CaseFailure::Device(failure)) => {
                &&& errors@.len() > 0
                &&& stage_name(run@.phase) matches Some(stage) && failure.reports(stage, None, errors@)
            },
            Err(CaseFailure::Case(error)) => {
                &&& stage_name(run@.phase) is Some ==> errors@.len() == 0
                &&& run@.after(event) == Err::<CaseRunView, CaseError>(error)
            },
        },
{
    if let Some(stage) = run.phase().stage() {
        match fail_on_device_error(errors, stage, None) {
            Ok(_) => {},
            Err(failure) => return Err(CaseFailure::Device(failure)),
        }
    }
    match run.advance(event) {
        Ok(next) => Ok(next),
        Err(error) => Err(CaseFailure::Case(error)),
    }
}

/// The state of a case after `events`, if each of them was expected and let the case go on.
pub open spec fn course(repeatability: Repeatability, sample_size: nat, events: Seq<CaseEvent>) -> Option<
    CaseRunView,
>
    decreases events.len(),
{
    if events.len() == 0 {
        Some(started(repeatability, sample_size))
    } else {
        match course(repeatability, sample_size, events.drop_last()) {
            Some(before) if before.expects(events.last()) => match before.after(events.last()) {
                Ok(after) => Some(after),
                Err(_) => None,
            },
            _ => None,
        }
    }
}

/// How often the result was validated.
pub open spec fn validations(events: Seq<CaseEvent>) -> nat
    decreases events.len(),
{
    if events.len() == 0 {
        0
    } else {
        validations(events.drop_last()) + if events.last() is Validated {
            1nat
        } else {
            0nat
        }
    }
}

/// The event reports a sample that took `ticks`.
pub open spec fn observed(event: CaseEvent, ticks: u64) -> bool {
    event matches CaseEvent::Observed { ticks: taken, .. } && taken == ticks
}

/// The event reports a sample that ran when preconditioning had lasted long enough.
pub open spec fn preconditioned(event: CaseEvent) -> bool {
    event matches CaseEvent::Observed { preconditioning_ns, .. } && preconditioning_ns
        >= PRECONDITIONING_NS
}

/// Every event that lets a case go on leads from a valid state to a valid state of the
/// same case.
pub proof fn law_valid_states_stay_valid(state: CaseRunView, event: CaseEvent)
    requires
        state.valid(),
        state.expects(event),
    ensures
        state.after(event) matches Ok(after) ==> {
            &&& after.valid()
            &&& after.repeatability == state.repeatability
            &&& after.sample_size == state.sample_size
        },
{
    if let CaseEvent::Observed { ticks, ratio, .. } = event {
        let predicted = calibration::predicted_iterations(ticks, ratio, state.maximum());
        assert(state.passes.len() > 0 ==> 1 <= predicted <= state.maximum());
    }
}

/// Every state that a case reaches is valid.
pub proof fn law_reached_states_are_valid(
    repeatability: Repeatability,
    sample_size: nat,
    events: Seq<CaseEvent>,
)
    requires
        sample_size > 0,
    ensures
        course(repeatability, sample_size, events) matches Some(state) ==> {
            &&& state.valid()
            &&& state.repeatability == repeatability
            &&& state.sample_size == sample_size
        },
    decreases events.len(),
{
    if events.len() > 0 {
        law_reached_states_are_valid(repeatability, sample_size, events.drop_last());
        if let Some(before) = course(repeatability, sample_size, events.drop_last()) {
            if before.expects(events.last()) {
                law_valid_states_stay_valid(before, events.last());
            }
        }
    }
}

/// The last events are the validation that ended preconditioning and the samples measured
/// since, in order.
spec fn ends_with_samples(events: Seq<CaseEvent>, samples: Seq<u64>) -> bool {
    &&& events.len() > samples.len()
    &&& events[events.len() - samples.len() - 1] is Validated
    &&& forall|i: int|
        0 <= i < samples.len() ==> observed(
            events[events.len() - samples.len() + i],
            #[trigger] samples[i],
        )
}

proof fn lemma_ends_with_samples(repeatability: Repeatability, sample_size: nat, events: Seq<CaseEvent>)
    requires
        sample_size > 0,
    ensures
        course(repeatability, sample_size, events) matches Some(state) ==> {
            &&& state.phase is Measurement || state.phase == CasePhase::Validation(ValidationStage::Final)
                ==> ends_with_samples(events, state.samples)
            &&& state.phase is Finished ==> {
                &&& events.len() > 0
                &&& events.last() is Validated
                &&& ends_with_samples(events.drop_last(), state.samples)
            }
        },
    decreases events.len(),
{
    if events.len() > 0 {
        let earlier = events.drop_last();
        lemma_ends_with_samples(repeatability, sample_size, earlier);
        law_reached_states_are_valid(repeatability, sample_size, earlier);
        if let Some(before) = course(repeatability, sample_size, earlier) {
            if before.phase is Measurement && before.expects(events.last()) {
                if let Ok(after) = before.after(events.last()) {
                    assert forall|i: int| 0 <= i < after.samples.len() implies observed(
                        events[events.len() - after.samples.len() + i],
                        #[trigger] after.samples[i],
                    ) by {
                        if i < before.samples.len() {
                            assert(after.samples[i] == before.samples[i]);
                            assert(observed(
                                earlier[earlier.len() - before.samples.len() + i],
                                before.samples[i],
                            ));
                        }
                    }
                    assert(ends_with_samples(events, after.samples));
                }
            }
        }
    }
}

/// A finished case holds as many samples as were asked for, each of measurable duration.
/// They are what was observed between the validation that ended preconditioning and the
/// final validation: nothing of calibration and preconditioning is among them.
pub proof fn law_finished_case_holds_the_measured_samples(
    repeatability: Repeatability,
    sample_size: nat,
    events: Seq<CaseEvent>,
    state: CaseRunView,
)
    requires
        sample_size > 0,
        course(repeatability, sample_size, events) == Some(state),
        state.phase is Finished,
    ensures
        state.samples.len() == sample_size,
        events.len() >= sample_size + 2,
        events[events.len() - sample_size - 2] is Validated,
        forall|i: int|
            0 <= i < sample_size ==> {
                &&& observed(events[events.len() - sample_size - 1 + i], #[trigger] state.samples[i])
                &&& state.samples[i] > 0
            },
        events.last() is Validated,
{
    lemma_ends_with_samples(repeatability, sample_size, events);
    law_reached_states_are_valid(repeatability, sample_size, events);
    let earlier = events.drop_last();
    assert forall|i: int| 0 <= i < sample_size implies observed(
        events[events.len() - sample_size - 1 + i],
        #[trigger] state.samples[i],
    ) by {
        assert(observed(earlier[earlier.len() - state.samples.len() + i], state.samples[i]));
    }
}

/// The validations that lie behind a case in this phase.
spec fn validations_before(phase: CasePhase, repeatability: Repeatability) -> nat {
    let calibration: nat = if repeatability is Repeatable {
        1
    } else {
        0
    };
    match phase {
        CasePhase::Setup | CasePhase::WarmUp | CasePhase::Validation(ValidationStage::WarmUp) => 0,
        CasePhase::TimestampResources | CasePhase::Calibration(_) | CasePhase::Validation(
            ValidationStage::Calibration,
        ) => 1,
        CasePhase::Preconditioning | CasePhase::Validation(ValidationStage::Preconditioning) => 1
            + calibration,
        CasePhase::Measurement | CasePhase::Validation(ValidationStage::Final) => 2 + calibration,
        CasePhase::Finished => 3 + calibration,
    }
}

proof fn lemma_validations(repeatability: Repeatability, sample_size: nat, events: Seq<CaseEvent>)
    requires
        sample_size > 0,
    ensures
        course(repeatability, sample_size, events) matches Some(state) ==> validations(events)
            == validations_before(state.phase, repeatability),
    decreases events.len(),
{
    if events.len() > 0 {
        lemma_validations(repeatability, sample_size, events.drop_last());
        law_reached_states_are_valid(repeatability, sample_size, events.drop_last());
    }
}

/// The result of a finished case was validated after the warm-up, after calibration where
/// the case is calibrated, after preconditioning and at the end, once each.
pub proof fn law_finished_case_was_validated(
    repeatability: Repeatability,
    sample_size: nat,
    events: Seq<CaseEvent>,
    state: CaseRunView,
)
    requires
        sample_size > 0,
        course(repeatability, sample_size, events) == Some(state),
        state.phase is Finished,
    ensures
        validations(events) == if repeatability is Repeatable {
            4nat
        } else {
            3nat
        },
{
    lemma_validations(repeatability, sample_size, events);
}

/// A case is measured only when it has been run for the preconditioning time.
pub proof fn law_measured_cases_are_preconditioned(
    repeatability: Repeatability,
    sample_size: nat,
    events: Seq<CaseEvent>,
    state: CaseRunView,
)
    requires
        sample_size > 0,
        course(repeatability, sample_size, events) == Some(state),
        match state.phase {
            CasePhase::Validation(stage) => stage is Preconditioning || stage is Final,
            CasePhase::Measurement | CasePhase::Finished => true,
            _ => false,
        },
    ensures
        exists|i: int| 0 <= i < events.len() && preconditioned(#[trigger] events[i]),
    decreases events.len(),
{
    let earlier = events.drop_last();
    let before = course(repeatability, sample_size, earlier)->0;
    if before.phase is Preconditioning {
        assert(preconditioned(events[events.len() - 1]));
    } else {
        law_measured_cases_are_preconditioned(repeatability, sample_size, earlier, before);
        let i = choose|i: int| 0 <= i < earlier.len() && preconditioned(#[trigger] earlier[i]);
        assert(preconditioned(events[i]));
    }
}

/// All measured samples of a case hold the same number of iterations.
pub proof fn law_samples_hold_the_same_iterations(
    repeatability: Repeatability,
    sample_size: nat,
    events: Seq<CaseEvent>,
    state: CaseRunView,
    prefix: int,
    earlier_state: CaseRunView,
)
    requires
        sample_size > 0,
        0 <= prefix <= events.len(),
        course(repeatability, sample_size, events) == Some(state),
        course(repeatability, sample_size, events.take(prefix)) == Some(earlier_state),
        earlier_state.phase is Measurement,
    ensures
        state.iterations == earlier_state.iterations,
        match state.phase {
            CasePhase::Measurement | CasePhase::Finished => true,
            CasePhase::Validation(stage) => stage is Final,
            _ => false,
        },
    decreases events.len(),
{
    if prefix == events.len() {
        assert(events.take(prefix) == events);
    } else {
        let earlier = events.drop_last();
        assert(earlier.take(prefix) == events.take(prefix));
        law_samples_hold_the_same_iterations(
            repeatability,
            sample_size,
            earlier,
            course(repeatability, sample_size, earlier)->0,
            prefix,
            earlier_state,
        );
    }
}

/// The passes of a case are those that its warm-up recorded, in whatever state it is later.
pub proof fn law_passes_are_those_of_the_warm_up(
    repeatability: Repeatability,
    sample_size: nat,
    events: Seq<CaseEvent>,
    state: CaseRunView,
)
    requires
        sample_size > 0,
        course(repeatability, sample_size, events) == Some(state),
        !(state.phase is Setup || state.phase is WarmUp),
    ensures
        events.len() >= 2,
        events[0] is SetUp,
        events[1] matches CaseEvent::WarmedUp { passes } && state.passes == pass_names(passes@),
    decreases events.len(),
{
    let earlier = events.drop_last();
    let before = course(repeatability, sample_size, earlier)->0;
    law_reached_states_are_valid(repeatability, sample_size, earlier);
    lemma_first_events(repeatability, sample_size, earlier);
    if !(before.phase is Setup || before.phase is WarmUp) {
        law_passes_are_those_of_the_warm_up(repeatability, sample_size, earlier, before);
        assert(earlier[0] == events[0] && earlier[1] == events[1]);
    } else {
        assert(before.phase is WarmUp);
        assert(earlier[0] == events[0]);
    }
}

proof fn lemma_first_events(repeatability: Repeatability, sample_size: nat, events: Seq<CaseEvent>)
    ensures
        course(repeatability, sample_size, events) matches Some(state) ==> {
            &&& state.phase is Setup ==> events.len() == 0
            &&& state.phase is WarmUp ==> events.len() == 1 && events[0] is SetUp
        },
    decreases events.len(),
{
    if events.len() > 0 {
        lemma_first_events(repeatability, sample_size, events.drop_last());
    }
}

/// Every sample of a case that is executed holds the iterations that the case has settled,
/// and each of them repeats the passes that the warm-up recorded, in the same order.
pub proof fn law_samples_repeat_the_passes_of_the_warm_up(
    repeatability: Repeatability,
    sample_size: nat,
    events: Seq<CaseEvent>,
    state: CaseRunView,
    recorders: Seq<RecorderView>,
    end: SampleRunView,
)
    requires
        sample_size > 0,
        course(repeatability, sample_size, events) == Some(state),
        state.sampling(),
        recordings(state.sample().at(SamplePhase::Recording(0)), recorders) == Some(end),
        end.phase is Execution,
    ensures
        recorders.len() == state.iterations,
        events[1] matches CaseEvent::WarmedUp { passes } && forall|i: int|
            0 <= i < recorders.len() ==> (#[trigger] recorders[i]).passes == pass_names(passes@),
{
    law_reached_states_are_valid(repeatability, sample_size, events);
    law_passes_are_those_of_the_warm_up(repeatability, sample_size, events, state);
    lemma_maximum(state.passes.len() as int);
    law_executed_samples_repeat_the_same_passes(
        state.sample().at(SamplePhase::Recording(0)),
        recorders,
        end,
    );
}

/// No sample holds more iterations than the pass budget has passes.
proof fn lemma_maximum(passes: int)
    requires
        passes > 0,
    ensures
        calibration::maximum_iterations(passes) <= MAX_RECORDED_PASSES_PER_SAMPLE,
{
    vstd::arithmetic::div_mod::lemma_div_is_ordered_by_denominator(
        MAX_RECORDED_PASSES_PER_SAMPLE as int,
        1,
        passes,
    );
}

/// Where one iteration stays within the pass budget, every sample does.
pub proof fn law_samples_stay_within_the_pass_budget(state: CaseRunView)
    requires
        state.valid(),
        state.passes.len() <= MAX_RECORDED_PASSES_PER_SAMPLE,
    ensures
        state.iterations * state.passes.len() <= MAX_RECORDED_PASSES_PER_SAMPLE,
{
    if state.iterations > 0 {
        calibration::law_pass_budget(state.passes.len() as int);
        let iterations = state.iterations as int;
        let maximum = state.maximum();
        let passes = state.passes.len() as int;
        assert(iterations * passes <= maximum * passes) by (nonlinear_arith)
            requires
                iterations <= maximum,
                passes >= 0,
        ;
    } else {
        assert(0 * state.passes.len() == 0) by (nonlinear_arith);
    }
}

/// A case that is limited to single iterations runs every sample with one iteration and is
/// never calibrated.
pub proof fn law_single_iteration_cases(state: CaseRunView)
    requires
        state.valid(),
        state.repeatability is SingleIteration,
    ensures
        state.iterations <= 1,
        !(state.phase is Calibration),
{
}

/// Preconditioning goes on until a sample ends one second or later after it began, and the
/// first such sample ends it, however late it comes. Nothing else of the case changes.
pub proof fn law_preconditioning_ends_after_one_second(
    state: CaseRunView,
    ticks: u64,
    ratio: u32,
    preconditioning_ns: u128,
)
    requires
        state.valid(),
        state.phase is Preconditioning,
        ticks > 0,
    ensures
        state.after(CaseEvent::Observed { ticks, ratio, preconditioning_ns }) matches Ok(after) && {
            &&& after == state.at(after.phase)
            &&& preconditioning_ns >= 1_000_000_000 ==> after.phase == CasePhase::Validation(
                ValidationStage::Preconditioning,
            )
            &&& preconditioning_ns < 1_000_000_000 ==> after.phase is Preconditioning
        },
{
}

/// A pilot settles on the number of iterations that its own observation asks for, as far as the
/// passes of a sample allow: one iteration ends the calibration, more are tried as a candidate.
pub proof fn law_pilots_are_followed_by_their_prediction(
    state: CaseRunView,
    ticks: u64,
    ratio: u32,
    preconditioning_ns: u128,
)
    requires
        state.valid(),
        state.phase == CasePhase::Calibration(CalibrationRound::Pilot),
    ensures
        state.after(CaseEvent::Observed { ticks, ratio, preconditioning_ns }) matches Ok(after) && {
            let passes = state.passes.len();
            &&& after == state.with_iterations(after.iterations as int).at(after.phase)
            &&& after.iterations > 1 ==> after.phase == CasePhase::Calibration(CalibrationRound::Candidate)
            &&& after.iterations <= 1 ==> after.phase == CasePhase::Validation(ValidationStage::Calibration)
            &&& after.iterations >= 1
            &&& after.iterations > 1 ==> after.iterations * passes <= 2_047
            &&& ticks > 0 && ratio >= 1 && ratio * passes <= 2_047 ==> after.iterations == ratio
            &&& ticks > 0 && ratio == 0 ==> after.iterations == 1
            &&& ticks == 0 || ratio * passes > 2_047 ==> (after.iterations + 1) * passes > 2_047
        },
{
    calibration::law_prediction_takes_the_ratio_that_fits(ticks, ratio, state.passes.len() as int);
}

/// A candidate that took measurable time is followed by the number of iterations that its own
/// observation asks for, be it smaller or larger than the candidate's, as far as the passes of a
/// sample allow. Another number than the candidate's is observed once more; the same number ends
/// the calibration.
pub proof fn law_candidates_are_followed_by_their_prediction(
    state: CaseRunView,
    ticks: u64,
    ratio: u32,
    preconditioning_ns: u128,
)
    requires
        state.valid(),
        state.phase == CasePhase::Calibration(CalibrationRound::Candidate),
        ticks > 0,
    ensures
        state.after(CaseEvent::Observed { ticks, ratio, preconditioning_ns }) matches Ok(after) && {
            let passes = state.passes.len();
            &&& after == state.with_iterations(after.iterations as int).at(after.phase)
            &&& after.iterations != state.iterations ==> after.phase == CasePhase::Calibration(
                CalibrationRound::Corrected,
            )
            &&& after.iterations == state.iterations ==> after.phase == CasePhase::Validation(
                ValidationStage::Calibration,
            )
            &&& after.iterations >= 1
            &&& after.iterations > 1 ==> after.iterations * passes <= 2_047
            &&& ratio >= 1 && ratio * passes <= 2_047 ==> after.iterations == ratio
            &&& ratio == 0 ==> after.iterations == 1
            &&& ratio * passes > 2_047 ==> (after.iterations + 1) * passes > 2_047
        },
{
    calibration::law_prediction_takes_the_ratio_that_fits(ticks, ratio, state.passes.len() as int);
}

/// A corrected number that took measurable time is final, whatever its own observation asks for.
pub proof fn law_corrected_numbers_are_final(
    state: CaseRunView,
    ticks: u64,
    ratio: u32,
    preconditioning_ns: u128,
)
    requires
        state.valid(),
        state.phase == CasePhase::Calibration(CalibrationRound::Corrected),
        ticks > 0,
    ensures
        state.after(CaseEvent::Observed { ticks, ratio, preconditioning_ns }) == Ok::<CaseRunView, CaseError>(
            state.at(CasePhase::Validation(ValidationStage::Calibration)),
        ),
{
}

/// Calibration is over after three samples of measurable time at most, whatever they ask for.
pub proof fn law_calibration_takes_three_samples_at_most(
    state: CaseRunView,
    pilot: CaseEvent,
    candidate: CaseEvent,
    corrected: CaseEvent,
)
    requires
        state.valid(),
        state.phase == CasePhase::Calibration(CalibrationRound::Pilot),
        measurable(pilot),
        measurable(candidate),
        measurable(corrected),
    ensures
        ({
            let settled = CasePhase::Validation(ValidationStage::Calibration);
            let first = state.after(pilot);
            let second = first->Ok_0.after(candidate);
            let third = second->Ok_0.after(corrected);
            &&& first is Ok
            &&& first->Ok_0.phase != settled ==> {
                &&& second is Ok
                &&& second->Ok_0.phase != settled ==> third is Ok && third->Ok_0.phase == settled
            }
        }),
{
    law_valid_states_stay_valid(state, pilot);
}

/// The event reports a sample of measurable time.
pub open spec fn measurable(event: CaseEvent) -> bool {
    event matches CaseEvent::Observed { ticks, .. } && ticks > 0
}

/// A case ends early exactly where its warm-up recorded nothing, or where a sample other than
/// the pilot took no measurable time; and the error tells which.
pub proof fn law_cases_end_only_without_passes_or_time(state: CaseRunView, event: CaseEvent)
    requires
        state.valid(),
        state.expects(event),
    ensures
        ({
            let unmeasured = event is Observed && !measurable(event);
            let outcome = state.after(event);
            &&& outcome == Err::<CaseRunView, CaseError>(CaseError::NoPasses) <==> (event matches CaseEvent::WarmedUp {
                passes,
            } && passes@.len() == 0)
            &&& outcome == Err::<CaseRunView, CaseError>(CaseError::CandidateBelowResolution) <==> unmeasured
                && state.phase == CasePhase::Calibration(CalibrationRound::Candidate)
            &&& outcome == Err::<CaseRunView, CaseError>(CaseError::CorrectedBelowResolution) <==> unmeasured
                && state.phase == CasePhase::Calibration(CalibrationRound::Corrected)
            &&& outcome == Err::<CaseRunView, CaseError>(CaseError::PreconditioningBelowResolution) <==> unmeasured
                && state.phase is Preconditioning
            &&& (outcome matches Err(CaseError::SampleBelowResolution(_))) <==> unmeasured
                && state.phase is Measurement
            &&& state.samples.len() <= u32::MAX ==> (outcome matches Err(
                CaseError::SampleBelowResolution(index),
            ) ==> index == state.samples.len())
        }),
{
}

/// What comes before the samples: a case is set up, warmed up, validated, given its timestamp
/// resources, and then calibrated from one iteration, or preconditioned with one iteration where
/// it is limited to that.
pub proof fn law_cases_begin_in_order(repeatability: Repeatability, sample_size: nat, passes: Vec<PassId>)
    requires
        sample_size > 0,
        passes@.len() > 0,
    ensures
        course(
            repeatability,
            sample_size,
            seq![
                CaseEvent::SetUp,
                CaseEvent::WarmedUp { passes },
                CaseEvent::Validated,
                CaseEvent::TimestampResourcesReady,
            ],
        ) == Some(
            CaseRunView {
                repeatability,
                sample_size,
                phase: if repeatability is Repeatable {
                    CasePhase::Calibration(CalibrationRound::Pilot)
                } else {
                    CasePhase::Preconditioning
                },
                passes: pass_names(passes@),
                iterations: 1,
                samples: Seq::empty(),
            },
        ),
{
    let e1 = seq![CaseEvent::SetUp];
    let e2 = e1.push(CaseEvent::WarmedUp { passes });
    let e3 = e2.push(CaseEvent::Validated);
    let e4 = e3.push(CaseEvent::TimestampResourcesReady);
    assert(seq![
        CaseEvent::SetUp,
        CaseEvent::WarmedUp { passes },
        CaseEvent::Validated,
        CaseEvent::TimestampResourcesReady,
    ] =~= e4);
    assert(e4.drop_last() =~= e3);
    assert(e3.drop_last() =~= e2);
    assert(e2.drop_last() =~= e1);
    assert(e1.drop_last() =~= Seq::<CaseEvent>::empty());
    assert(course(repeatability, sample_size, Seq::<CaseEvent>::empty()) == Some(
        started(repeatability, sample_size),
    ));
    assert(course(repeatability, sample_size, e1) is Some);
    assert(course(repeatability, sample_size, e2) is Some);
    assert(course(repeatability, sample_size, e3) is Some);
}

/// A validation leads to what comes next and changes nothing else: from calibration to
/// preconditioning, from preconditioning to measurement, and from measurement to the end.
pub proof fn law_validations_lead_on(state: CaseRunView, stage: ValidationStage)
    requires
        state.valid(),
        state.phase == CasePhase::Validation(stage),
    ensures
        state.after(CaseEvent::Validated) matches Ok(after) && {
            &&& after == state.at(after.phase)
            &&& stage is WarmUp ==> after.phase is TimestampResources
            &&& stage is Calibration ==> after.phase is Preconditioning
            &&& stage is Preconditioning ==> after.phase is Measurement
            &&& stage is Final ==> after.phase is Finished
        },
{
}

/// The ticks of the samples that the events report.
pub open spec fn observed_ticks(events: Seq<CaseEvent>) -> Seq<u64> {
    events.map_values(|event: CaseEvent| event->ticks)
}

/// Every sample of measurable time that is observed in measurement is kept, in order and as it
/// was observed, until there are as many as were asked for; with the last of them the case goes
/// on to its final validation, and not before.
pub proof fn law_measured_samples_are_kept(
    repeatability: Repeatability,
    sample_size: nat,
    events: Seq<CaseEvent>,
    state: CaseRunView,
    observations: Seq<CaseEvent>,
)
    requires
        sample_size > 0,
        course(repeatability, sample_size, events) == Some(state),
        state.phase is Measurement,
        state.samples.len() + observations.len() <= sample_size,
        forall|i: int| 0 <= i < observations.len() ==> measurable(#[trigger] observations[i]),
    ensures
        course(repeatability, sample_size, events + observations) matches Some(after) && {
            &&& after.samples == state.samples + observed_ticks(observations)
            &&& after.samples.len() < sample_size ==> after.phase is Measurement
            &&& after.samples.len() == sample_size ==> after.phase == CasePhase::Validation(
                ValidationStage::Final,
            )
            &&& after.iterations == state.iterations
            &&& after.passes == state.passes
        },
    decreases observations.len(),
{
    law_reached_states_are_valid(repeatability, sample_size, events);
    if observations.len() == 0 {
        assert(events + observations =~= events);
        assert(state.samples + observed_ticks(observations) =~= state.samples);
    } else {
        let earlier = observations.drop_last();
        assert forall|i: int| 0 <= i < earlier.len() implies measurable(#[trigger] earlier[i]) by {
            assert(earlier[i] == observations[i]);
        }
        law_measured_samples_are_kept(repeatability, sample_size, events, state, earlier);
        let all = events + observations;
        assert(all.drop_last() =~= events + earlier);
        assert(all.last() == observations[observations.len() - 1]);
        let before = course(repeatability, sample_size, events + earlier)->0;
        law_reached_states_are_valid(repeatability, sample_size, events + earlier);
        let after = course(repeatability, sample_size, all)->0;
        assert(after.samples =~= state.samples + observed_ticks(observations));
    }
}

/// A case whose preconditioning has lasted one second, whose validations succeed and whose
/// samples all take measurable time finishes with exactly those samples, and with the iterations
/// that it was preconditioned with.
pub proof fn law_preconditioned_cases_finish_with_their_samples(
    repeatability: Repeatability,
    sample_size: nat,
    events: Seq<CaseEvent>,
    state: CaseRunView,
    last: CaseEvent,
    observations: Seq<CaseEvent>,
)
    requires
        sample_size > 0,
        course(repeatability, sample_size, events) == Some(state),
        state.phase is Preconditioning,
        measurable(last),
        last->preconditioning_ns >= 1_000_000_000,
        observations.len() == sample_size,
        forall|i: int| 0 <= i < observations.len() ==> measurable(#[trigger] observations[i]),
    ensures
        course(
            repeatability,
            sample_size,
            (events.push(last).push(CaseEvent::Validated) + observations).push(CaseEvent::Validated),
        ) matches Some(end) && {
            &&& end.phase is Finished
            &&& end.samples == observed_ticks(observations)
            &&& end.iterations == state.iterations
            &&& end.passes == state.passes
        },
{
    law_reached_states_are_valid(repeatability, sample_size, events);
    let e1 = events.push(last);
    let e2 = e1.push(CaseEvent::Validated);
    let e3 = e2 + observations;
    let e4 = e3.push(CaseEvent::Validated);
    assert(e1.drop_last() =~= events);
    assert(e2.drop_last() =~= e1);
    assert(e4.drop_last() =~= e3);
    let measuring = course(repeatability, sample_size, e2)->0;
    assert(course(repeatability, sample_size, e1) is Some);
    assert(course(repeatability, sample_size, e2) == Some(measuring));
    assert(measuring.samples =~= Seq::<u64>::empty());
    law_measured_samples_are_kept(repeatability, sample_size, e2, measuring, observations);
    assert(Seq::<u64>::empty() + observed_ticks(observations) =~= observed_ticks(observations));
}

/// In every phase but the last exactly one kind of event is expected, and in the last none.
pub proof fn law_each_phase_expects_one_kind_of_event(state: CaseRunView, event: CaseEvent)
    ensures
        ({
            let expected = state.expects(event);
            &&& event is SetUp ==> (expected <==> state.phase is Setup)
            &&& event is WarmedUp ==> (expected <==> state.phase is WarmUp)
            &&& event is Validated ==> (expected <==> state.phase is Validation)
            &&& event is TimestampResourcesReady ==> (expected <==> state.phase is TimestampResources)
            &&& event is Observed ==> (expected <==> state.sampling())
            &&& state.sampling() <==> state.phase is Calibration || state.phase is Preconditioning
                || state.phase is Measurement
        }),
{
}

/// The sample that a case begins asks of every iteration the passes of the case, and holds the
/// iterations of the case.
pub proof fn law_samples_are_those_of_their_case(state: CaseRunView)
    requires
        state.valid(),
        state.sampling(),
    ensures
        state.sample().expected == state.passes,
        state.sample().iterations == state.iterations,
        state.sample().phase is Preparation,
        state.sample().valid(),
{
    lemma_maximum(state.passes.len() as int);
}

/// A sample below the resolution of the clock, or one that failed, is named by its index among
/// the measured samples, whatever it is.
pub proof fn law_measured_samples_are_named_by_their_index(state: CaseRunView, index: u32)
    requires
        state.phase is Measurement,
    ensures
        CaseError::SampleBelowResolution(index).text() == "measurement sample "@ + text::decimal_text(
            index as nat,
        ) + " is below timestamp resolution"@,
        state.sample_failure() == Some(
            "measurement sample "@ + text::decimal_text(state.samples.len()) + " failed"@,
        ),
{
}

/// Device errors are looked for at the end of every phase but those that ask for a sample, which
/// looks for them itself, and the last.
pub proof fn law_device_errors_are_looked_for_in_every_phase(state: CaseRunView)
    ensures
        stage_name(state.phase) is None <==> state.sampling() || state.phase is Finished,
{
}

}
