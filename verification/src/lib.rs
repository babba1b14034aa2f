//! Repeatable measurements of GPU execution time: the verified part.
//!
//! A suite collects benchmark cases, a selection picks the cases of a run, and every
//! selected case is taken through warm-up, calibration, preconditioning and measurement.
//! This crate holds the decisions of that process, each with its contract. Whatever talks
//! to a GPU stands outside of it and asks it what to do next.
pub mod adapter;
pub mod builder;
pub mod calibration;
pub mod case_id;
pub mod case_run;
pub mod device_errors;
pub mod observation;
pub mod readback;
pub mod recorder;
pub mod requirements;
pub mod sample_run;
pub mod selection;
pub mod statistics;
pub mod suite;
pub mod text;
pub mod warm_up;

pub use adapter::{
    adapter_selection_key, is_software_adapter, select_adapter, AdapterCandidate, AdapterInfo,
    AdapterSelectionKey, Backend, DeviceType,
};
pub use builder::{CaseBuilder, ClosureCase, DefaultPrepare, DefaultValidate};
pub use calibration::{
    maximum_iterations_per_sample, predict_iteration_count, DEFAULT_SAMPLE_SIZE,
    MAX_RECORDED_PASSES_PER_SAMPLE, TARGET_SAMPLE_NS,
};
pub use case_id::{show_labels, CaseId, CaseIdError};
pub use case_run::{
    begin_case, complete_phase, CalibrationRound, CaseError, CaseEvent, CaseFailure, CasePhase,
    CaseRun, Repeatability, ValidationStage, PRECONDITIONING_NS,
};
pub use device_errors::{describe_failure, fail_on_device_error, DeviceErrors, DeviceFailure};
pub use observation::{
    elapsed_ticks, read_ticks, remaining_sample_time, remaining_warmup_time, ObservationError,
    SUBMISSION_TIMEOUT_NS,
};
pub use readback::{check_readback, ReadbackError};
pub use recorder::{
    iteration_timing, IterationRecorder, IterationTiming, PassId, PassTimestamps, RecordingError,
};
pub use requirements::{combine_requirements, GpuRequirements};
pub use sample_run::{SampleError, SamplePhase, SampleRun};
pub use selection::CaseSelection;
pub use statistics::{
    check_moments, is_valid_timestamp_period, neighbor_indices, order_samples, SummaryError,
};
pub use suite::{plan_run, BenchmarkCase, RegisteredCase, RegistrationError, RunPlan, Suite};
pub use warm_up::{WarmUpPhase, WarmUpRun};
