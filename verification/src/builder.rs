//! Building benchmark cases step by step.
use std::marker::PhantomData;
use vstd::prelude::*;
use crate::case_id::{valid_label, CaseId, CaseIdError, CaseIdView};
use crate::case_run::Repeatability;
use crate::requirements::GpuRequirements;
use crate::suite::{is_registered, BenchmarkCase, RegistrationError, Suite};

verus! {

/// Nothing is reset before a sample.
#[derive(Clone, Copy, Debug)]
pub struct DefaultPrepare;

/// The result is not checked.
#[derive(Clone, Copy, Debug)]
pub struct DefaultValidate;

/// A case in the making: `F` is what its setup creates, and the callbacks are held until a
/// run calls them.
#[must_use]
pub struct CaseBuilder<'suite, C, F = (), Setup = (), Record = (), Prepare = DefaultPrepare, Validate = DefaultValidate> {
    pub suite: &'suite mut Suite<C>,
    pub label: String,
    pub requirements: GpuRequirements,
    pub repeatability: Option<Repeatability>,
    pub setup: Setup,
    pub record: Record,
    pub prepare: Prepare,
    pub validate: Validate,
    pub fixture: PhantomData<F>,
}

/// A case made of callbacks.
pub struct ClosureCase<F, Setup, Record, Prepare, Validate> {
    pub requirements: GpuRequirements,
    pub repeatability: Repeatability,
    pub setup: Setup,
    pub record: Record,
    pub prepare: Prepare,
    pub validate: Validate,
    pub fixture: PhantomData<F>,
}

impl<C> Suite<C> {
    /// Starts a benchmark; `setup`, `record` and `register` add it to this suite.
    pub fn bench(&mut self, label: &str) -> (builder: CaseBuilder<'_, C>)
        ensures
            *builder.suite == *old(self),
            *final(builder.suite) == *final(self),
            builder.label@ == label@,
            builder.requirements@.is_default(),
            builder.repeatability == None::<Repeatability>,
    {
        CaseBuilder {
            suite: self,
            label: label.to_owned(),
            requirements: GpuRequirements::default(),
            repeatability: None,
            setup: (),
            record: (),
            prepare: DefaultPrepare,
            validate: DefaultValidate,
            fixture: PhantomData,
        }
    }
}

impl<'suite, C> CaseBuilder<'suite, C> {
    /// Sets what creates the resources shared by every iteration of this case.
    pub fn setup<F, Setup>(self, setup: Setup) -> (builder: CaseBuilder<'suite, C, F, Setup>)
        ensures
            *builder.suite == *old(self.suite),
            *final(builder.suite) == *final(self.suite),
            builder.label == self.label,
            builder.requirements == self.requirements,
            builder.repeatability == self.repeatability,
            builder.setup == setup,
    {
        CaseBuilder {
            suite: self.suite,
            label: self.label,
            requirements: self.requirements,
            repeatability: self.repeatability,
            setup,
            record: (),
            prepare: DefaultPrepare,
            validate: DefaultValidate,
            fixture: PhantomData,
        }
    }
}

impl<'suite, C, F, Setup, Record, Prepare, Validate> CaseBuilder<'suite, C, F, Setup, Record, Prepare, Validate> {
    /// Permits multiple iterations in a timed sample.
    pub fn repeatable(self) -> (builder: Self)
        ensures
            *builder.suite == *old(self.suite),
            *final(builder.suite) == *final(self.suite),
            builder.label == self.label,
            builder.requirements == self.requirements,
            builder.repeatability == Some(Repeatability::Repeatable),
            builder.setup == self.setup,
            builder.record == self.record,
            builder.prepare == self.prepare,
            builder.validate == self.validate,
    {
        CaseBuilder { repeatability: Some(Repeatability::Repeatable), ..self }
    }

    /// Limits each timed sample to one iteration.
    pub fn single_iteration(self) -> (builder: Self)
        ensures
            *builder.suite == *old(self.suite),
            *final(builder.suite) == *final(self.suite),
            builder.label == self.label,
            builder.requirements == self.requirements,
            builder.repeatability == Some(Repeatability::SingleIteration),
            builder.setup == self.setup,
            builder.record == self.record,
            builder.prepare == self.prepare,
            builder.validate == self.validate,
    {
        CaseBuilder { repeatability: Some(Repeatability::SingleIteration), ..self }
    }

    /// Sets the capabilities required before setup runs.
    pub fn requirements(self, requirements: GpuRequirements) -> (builder: Self)
        ensures
            *builder.suite == *old(self.suite),
            *final(builder.suite) == *final(self.suite),
            builder.label == self.label,
            builder.requirements == requirements,
            builder.repeatability == self.repeatability,
            builder.setup == self.setup,
            builder.record == self.record,
            builder.prepare == self.prepare,
            builder.validate == self.validate,
    {
        CaseBuilder { requirements, ..self }
    }

    /// Sets what records the commands for one iteration.
    pub fn record<R>(self, record: R) -> (builder: CaseBuilder<'suite, C, F, Setup, R, Prepare, Validate>)
        ensures
            *builder.suite == *old(self.suite),
            *final(builder.suite) == *final(self.suite),
            builder.label == self.label,
            builder.requirements == self.requirements,
            builder.repeatability == self.repeatability,
            builder.setup == self.setup,
            builder.record == record,
            builder.prepare == self.prepare,
            builder.validate == self.validate,
    {
        CaseBuilder {
            suite: self.suite,
            label: self.label,
            requirements: self.requirements,
            repeatability: self.repeatability,
            setup: self.setup,
            record,
            prepare: self.prepare,
            validate: self.validate,
            fixture: PhantomData,
        }
    }

    /// Sets what records untimed reset commands before each sample.
    pub fn prepare<P>(self, prepare: P) -> (builder: CaseBuilder<'suite, C, F, Setup, Record, P, Validate>)
        ensures
            *builder.suite == *old(self.suite),
            *final(builder.suite) == *final(self.suite),
            builder.label == self.label,
            builder.requirements == self.requirements,
            builder.repeatability == self.repeatability,
            builder.setup == self.setup,
            builder.record == self.record,
            builder.prepare == prepare,
            builder.validate == self.validate,
    {
        CaseBuilder {
            suite: self.suite,
            label: self.label,
            requirements: self.requirements,
            repeatability: self.repeatability,
            setup: self.setup,
            record: self.record,
            prepare,
            validate: self.validate,
            fixture: PhantomData,
        }
    }

    /// Sets what checks the recorded operation outside the timed samples.
    pub fn validate<V>(self, validate: V) -> (builder: CaseBuilder<'suite, C, F, Setup, Record, Prepare, V>)
        ensures
            *builder.suite == *old(self.suite),
            *final(builder.suite) == *final(self.suite),
            builder.label == self.label,
            builder.requirements == self.requirements,
            builder.repeatability == self.repeatability,
            builder.setup == self.setup,
            builder.record == self.record,
            builder.prepare == self.prepare,
            builder.validate == validate,
    {
        CaseBuilder {
            suite: self.suite,
            label: self.label,
            requirements: self.requirements,
            repeatability: self.repeatability,
            setup: self.setup,
            record: self.record,
            prepare: self.prepare,
            validate,
            fixture: PhantomData,
        }
    }

    /// Adds the case to the suite under its label.
    pub fn register(self) -> (result: Result<(), RegistrationError>) where
        C: From<ClosureCase<F, Setup, Record, Prepare, Validate>>,

        ensures
            match result {
                Ok(_) => {
                    let id = CaseIdView { function: self.label@, parameter: None };
                    &&& valid_label(self.label@)
                    &&& !is_registered(old(self.suite)@, id)
                    &&& self.repeatability matches Some(repeatability) && exists|case: C|
                        {
                            &&& #[trigger] call_ensures(
                                C::from,
                                (ClosureCase {
                                    requirements: self.requirements,
                                    repeatability,
                                    setup: self.setup,
                                    record: self.record,
                                    prepare: self.prepare,
                                    validate: self.validate,
                                    fixture: self.fixture,
                                },),
                                case,
                            )
                            &&& final(self.suite)@ == old(self.suite)@.push((id, case))
                        }
                },
                Err(RegistrationError::UnknownRepeatability(label)) => {
                    &&& self.repeatability is None
                    &&& label@ == self.label@
                    &&& final(self.suite)@ == old(self.suite)@
                },
                Err(RegistrationError::InvalidId(error)) => {
                    &&& self.repeatability is Some
                    &&& !valid_label(self.label@)
                    &&& error == CaseIdError::InvalidLabel
                    &&& final(self.suite)@ == old(self.suite)@
                },
                Err(RegistrationError::Duplicate(id)) => {
                    &&& self.repeatability is Some
                    &&& valid_label(self.label@)
                    &&& id@ == (CaseIdView { function: self.label@, parameter: None })
                    &&& is_registered(old(self.suite)@, id@)
                    &&& final(self.suite)@ == old(self.suite)@
                },
            },
    {
        let repeatability = match self.repeatability {
            Some(repeatability) => repeatability,
            None => return Err(RegistrationError::UnknownRepeatability(self.label)),
        };
        let case_id = match CaseId::from_label(self.label.as_str()) {
            Ok(case_id) => case_id,
            Err(error) => return Err(RegistrationError::InvalidId(error)),
        };
        let case = ClosureCase {
            requirements: self.requirements,
            repeatability,
            setup: self.setup,
            record: self.record,
            prepare: self.prepare,
            validate: self.validate,
            fixture: self.fixture,
        };
        self.suite.register_case(case_id, C::from(case))
    }
}

impl<F, Setup, Record, Prepare, Validate> BenchmarkCase for ClosureCase<F, Setup, Record, Prepare, Validate> {
    fn requirements(&self) -> (requirements: GpuRequirements)
        ensures
            requirements@ == self.requirements@,
    {
        self.requirements.clone()
    }

    fn repeatability(&self) -> (repeatability: Repeatability)
        ensures
            repeatability == self.repeatability,
    {
        self.repeatability
    }
}

}
