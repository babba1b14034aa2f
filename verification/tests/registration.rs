use std::any::Any;
use std::cell::Cell;
use std::rc::Rc;

use clairo::{
    plan_run, BenchmarkCase, CaseId, CaseSelection, ClosureCase, GpuRequirements, RegistrationError,
    Repeatability, Suite,
};

/// A case whose fixture type is forgotten, as a suite of different cases holds them.
struct ErasedCase {
    requirements: GpuRequirements,
    repeatability: Repeatability,
    setup: Box<dyn Fn(&str) -> Box<dyn Any>>,
}

impl<F, Setup, Record, Prepare, Validate> From<ClosureCase<F, Setup, Record, Prepare, Validate>> for ErasedCase
where
    F: 'static,
    Setup: Fn(&str) -> F + 'static,
{
    fn from(case: ClosureCase<F, Setup, Record, Prepare, Validate>) -> Self {
        let setup = case.setup;
        ErasedCase {
            requirements: case.requirements,
            repeatability: case.repeatability,
            setup: Box::new(move |gpu| Box::new(setup(gpu))),
        }
    }
}

impl BenchmarkCase for ErasedCase {
    fn requirements(&self) -> GpuRequirements {
        self.requirements.clone()
    }

    fn repeatability(&self) -> Repeatability {
        self.repeatability
    }
}

/// A case that asks for nothing special.
struct PlainCase;

impl BenchmarkCase for PlainCase {
    fn repeatability(&self) -> Repeatability {
        Repeatability::Repeatable
    }
}

fn register_empty(suite: &mut Suite<ErasedCase>, label: &str) -> Result<(), RegistrationError> {
    suite
        .bench(label)
        .repeatable()
        .setup::<(), _>(|_: &str| ())
        .record(|_: &()| ())
        .register()
}

#[test]
fn registration_infers_fixtures_and_defers_borrowing_callbacks() {
    struct Fixture {
        label: String,
    }

    let mut suite: Suite<ErasedCase> = Suite::new();
    let calls = Rc::new(Cell::new(0));
    let setup_calls = calls.clone();
    let label = String::from("owned configuration");
    let requirements = GpuRequirements::default()
        .with_required_features(wgpu::Features::TIMESTAMP_QUERY_INSIDE_PASSES);

    let first = suite
        .bench("first")
        .requirements(requirements.clone())
        .single_iteration()
        .setup(move |_: &str| {
            setup_calls.set(setup_calls.get() + 1);
            Fixture { label: label.clone() }
        })
        .prepare(|fixture: &mut Fixture| fixture.label.clear())
        .record(|fixture: &Fixture| assert!(fixture.label.is_empty()))
        .validate(|fixture: &mut Fixture| fixture.label.push_str("validated"))
        .register();
    assert!(first.is_ok());

    let second = suite
        .bench("second")
        .setup(|_: &str| vec![1_u32, 2, 3])
        .record(|fixture: &Vec<u32>| assert_eq!(fixture.len(), 3))
        .repeatable()
        .register();
    assert!(second.is_ok());

    let cases = suite.cases();
    assert_eq!(cases.len(), 2);
    assert_eq!(cases[0].case_id().full_id(), "first");
    assert_eq!(cases[0].case().requirements(), requirements);
    assert_eq!(cases[0].case().repeatability(), Repeatability::SingleIteration);
    assert_eq!(cases[1].case_id().full_id(), "second");
    assert_eq!(cases[1].case().requirements(), GpuRequirements::default());
    assert_eq!(cases[1].case().repeatability(), Repeatability::Repeatable);
    assert_eq!(calls.get(), 0);

    let fixture = (cases[0].case().setup)("gpu");
    assert_eq!(calls.get(), 1);
    assert_eq!(fixture.downcast_ref::<Fixture>().unwrap().label, "owned configuration");
    let fixture = (cases[1].case().setup)("gpu");
    assert_eq!(fixture.downcast_ref::<Vec<u32>>().unwrap(), &vec![1_u32, 2, 3]);
}

#[test]
fn failed_registration_leaves_the_suite_unchanged() {
    let mut suite: Suite<ErasedCase> = Suite::new();
    let error = suite
        .bench("retry")
        .setup::<(), _>(|_: &str| ())
        .record(|_: &()| ())
        .register()
        .unwrap_err();
    assert!(error.message().contains("case retry"));
    assert!(error.message().contains("repeatable"));
    assert_eq!(suite.cases().len(), 0);

    for label in ["", " leading", "trailing ", "bad/name", "bad\nname"] {
        assert!(register_empty(&mut suite, label).is_err());
    }
    assert_eq!(suite.cases().len(), 0);

    assert!(register_empty(&mut suite, "retry").is_ok());
    let error = register_empty(&mut suite, "retry").unwrap_err();
    assert!(error.message().contains("duplicate case"));
    assert_eq!(suite.cases().len(), 1);
}

#[test]
fn registration_errors_say_what_is_wrong() {
    let mut suite: Suite<ErasedCase> = Suite::default();
    let error = suite
        .bench("retry")
        .setup::<(), _>(|_: &str| ())
        .record(|_: &()| ())
        .register()
        .unwrap_err();
    assert!(matches!(&error, RegistrationError::UnknownRepeatability(label) if label == "retry"));
    assert_eq!(
        error.message(),
        "case retry: choose .repeatable() or .single_iteration() before registration"
    );

    let error = register_empty(&mut suite, "bad/name").unwrap_err();
    assert_eq!(error.message(), "invalid case label");

    assert!(register_empty(&mut suite, "twice").is_ok());
    let error = register_empty(&mut suite, "twice").unwrap_err();
    assert_eq!(error.message(), "duplicate case: \"twice\"");
}

#[test]
fn a_missing_repeatability_is_reported_before_a_bad_label() {
    let mut suite: Suite<ErasedCase> = Suite::new();
    let error = suite
        .bench("bad/name")
        .setup::<(), _>(|_: &str| ())
        .record(|_: &()| ())
        .register()
        .unwrap_err();
    assert!(matches!(error, RegistrationError::UnknownRepeatability(_)));
}

#[test]
fn the_last_choice_of_repeatability_counts() {
    let mut suite: Suite<ErasedCase> = Suite::new();
    let result = suite
        .bench("case")
        .repeatable()
        .single_iteration()
        .setup::<(), _>(|_: &str| ())
        .record(|_: &()| ())
        .register();
    assert!(result.is_ok());
    assert_eq!(suite.cases()[0].case().repeatability(), Repeatability::SingleIteration);
}

#[test]
fn cases_are_registered_once_under_function_and_parameter() {
    let mut suite: Suite<PlainCase> = Suite::new();
    let id = CaseId::from_full_id("prefix_sum/elements=16384").unwrap();
    assert!(suite.register_case(id, PlainCase).is_ok());

    let again = CaseId::try_new("prefix_sum", "elements=16384").unwrap();
    let error = suite.register_case(again, PlainCase).unwrap_err();
    assert_eq!(
        error.message(),
        "duplicate case: CaseId { function: \"prefix_sum\", parameter: \"elements=16384\" }"
    );

    let other = CaseId::try_new("prefix_sum", "elements=3").unwrap();
    assert!(suite.register_case(other, PlainCase).is_ok());
    assert_eq!(suite.cases().len(), 2);
    assert_eq!(suite.cases()[1].case_id().full_id(), "prefix_sum/elements=3");
}

#[test]
fn runs_take_the_selected_cases_in_order() {
    let mut suite: Suite<PlainCase> = Suite::new();
    for (function, parameter) in [("sum", "n=3"), ("mul", "n=3"), ("sum", "n=65")] {
        let id = CaseId::try_new(function, parameter).unwrap();
        assert!(suite.register_case(id, PlainCase).is_ok());
    }

    let plan = plan_run(&suite, &CaseSelection::all()).unwrap();
    assert_eq!(plan.cases, vec![0, 1, 2]);
    assert_eq!(plan.requirements, GpuRequirements::default());

    let plan = plan_run(&suite, &CaseSelection::containing("sum/")).unwrap();
    assert_eq!(plan.cases, vec![0, 2]);

    let plan = plan_run(&suite, &CaseSelection::exact("mul/n=3")).unwrap();
    assert_eq!(plan.cases, vec![1]);

    assert!(plan_run(&suite, &CaseSelection::exact("mul/n")).is_none());
    assert_eq!(suite.selected(&CaseSelection::containing("n=3")), vec![0, 1]);
    assert!(suite.selected(&CaseSelection::containing("N=3")).is_empty());
}

#[test]
fn runs_combine_what_their_cases_require() {
    let mut suite: Suite<ErasedCase> = Suite::new();
    let wide = wgpu::Limits {
        max_compute_workgroups_per_dimension: 70_000,
        min_storage_buffer_offset_alignment: 32,
        ..Default::default()
    };
    let narrow = wgpu::Limits {
        max_compute_workgroups_per_dimension: 100,
        max_bind_groups: 6,
        min_storage_buffer_offset_alignment: 512,
        ..Default::default()
    };
    for (label, feature, limits) in [
        ("wide", wgpu::Features::SHADER_F16, wide),
        ("narrow", wgpu::Features::TIMESTAMP_QUERY_INSIDE_PASSES, narrow),
    ] {
        let result = suite
            .bench(label)
            .repeatable()
            .requirements(GpuRequirements::new(feature, limits))
            .setup::<(), _>(|_: &str| ())
            .record(|_: &()| ())
            .register();
        assert!(result.is_ok());
    }

    let plan = plan_run(&suite, &CaseSelection::all()).unwrap();
    assert_eq!(
        plan.requirements.required_features(),
        wgpu::Features::SHADER_F16 | wgpu::Features::TIMESTAMP_QUERY_INSIDE_PASSES
    );
    let limits = plan.requirements.required_limits();
    assert_eq!(limits.max_compute_workgroups_per_dimension, 70_000);
    assert_eq!(limits.max_bind_groups, 6);
    assert_eq!(limits.min_storage_buffer_offset_alignment, 32);

    let plan = plan_run(&suite, &CaseSelection::exact("narrow")).unwrap();
    assert_eq!(
        plan.requirements.required_features(),
        wgpu::Features::TIMESTAMP_QUERY_INSIDE_PASSES
    );
    let limits = plan.requirements.required_limits();
    assert_eq!(limits.max_compute_workgroups_per_dimension, 65_535);
    assert_eq!(limits.min_storage_buffer_offset_alignment, 256);
}
