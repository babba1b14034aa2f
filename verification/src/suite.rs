//! Suites of benchmark cases.
//!
//! - suite: a collection of registered benchmark cases
//! - case: a benchmark with a specific configuration (e.g. prefix sum over 16,384 elements)
//! - run: one execution of the selected cases in a suite
//! - sample: one timed batch of iterations for a case
//! - iteration: one complete execution of the case's operation
//! - pass: a compute or render pass recorded within an iteration
use vstd::prelude::*;
use crate::case_id::{id_text, shown_id, valid_id, CaseId, CaseIdError, CaseIdView};
use crate::case_run::Repeatability;
use crate::requirements::{
    combine_requirements, combined_flags, combined_limits, GpuRequirements, RequirementsView,
};
use crate::selection::{CaseSelection, SelectionView};

verus! {

/// What a run has to know of a case before a GPU is chosen.
pub trait BenchmarkCase {
    /// The capabilities that the case needs in addition to timestamp queries.
    fn requirements(&self) -> (requirements: GpuRequirements)
        default_ensures
            requirements@.is_default(),
    {
        GpuRequirements::default()
    }

    /// Whether multiple iterations can be batched into one sample.
    fn repeatability(&self) -> Repeatability;
}

/// A case under its identity.
#[derive(Debug)]
pub struct RegisteredCase<C> {
    case_id: CaseId,
    case: C,
}

impl<C> RegisteredCase<C> {
    pub closed spec fn id(self) -> CaseIdView {
        self.case_id@
    }

    pub closed spec fn inner(self) -> C {
        self.case
    }

    pub fn case_id(&self) -> (case_id: &CaseId)
        ensures
            case_id@ == self.id(),
    {
        &self.case_id
    }

    pub fn case(&self) -> (case: &C)
        ensures
            *case == self.inner(),
    {
        &self.case
    }
}

/// A collection of benchmark cases, each with an identity of its own.
#[derive(Debug)]
pub struct Suite<C> {
    cases: Vec<RegisteredCase<C>>,
}

impl<C> View for Suite<C> {
    type V = Seq<(CaseIdView, C)>;

    closed spec fn view(&self) -> Seq<(CaseIdView, C)> {
        registered(self.cases@)
    }
}

/// The identities of the cases, each with its case.
pub open spec fn registered<C>(cases: Seq<RegisteredCase<C>>) -> Seq<(CaseIdView, C)> {
    cases.map_values(|case: RegisteredCase<C>| (case.id(), case.inner()))
}

/// The identities are valid, and no two cases have the same one.
pub open spec fn valid_suite<C>(cases: Seq<(CaseIdView, C)>) -> bool {
    &&& forall|i: int| 0 <= i < cases.len() ==> valid_id(#[trigger] cases[i].0)
    &&& forall|i: int, j: int| 0 <= i < j < cases.len() ==> id_text(#[trigger] cases[i].0) != id_text(#[trigger] cases[j].0)
}

/// A case with this identity is registered.
pub open spec fn is_registered<C>(cases: Seq<(CaseIdView, C)>, id: CaseIdView) -> bool {
    exists|i: int| 0 <= i < cases.len() && id_text(#[trigger] cases[i].0) == id_text(id)
}

/// Why a case was not registered.
#[derive(Debug)]
pub enum RegistrationError {
    /// Neither repeatability was chosen for the case with this label.
    UnknownRepeatability(String),
    /// The label is no identity.
    InvalidId(CaseIdError),
    /// A case with this identity is registered already.
    Duplicate(CaseId),
}

impl RegistrationError {
    /// The text of the error.
    pub open spec fn text(self) -> Seq<char> {
        match self {
            RegistrationError::UnknownRepeatability(label) => "case "@ + label@
                + ": choose .repeatable() or .single_iteration() before registration"@,
            RegistrationError::InvalidId(error) => error.text(),
            RegistrationError::Duplicate(id) => "duplicate case: "@ + shown_id(id@),
        }
    }

    /// Says why the case was not registered.
    pub fn message(&self) -> (message: String)
        ensures
            message@ == self.text(),
    {
        match self {
            RegistrationError::UnknownRepeatability(label) => {
                let mut message: String = "case ".to_owned();
                message.append(label.as_str());
                message.append(": choose .repeatable() or .single_iteration() before registration");
                message
            },
            RegistrationError::InvalidId(error) => error.message().to_owned(),
            RegistrationError::Duplicate(id) => {
                let mut message: String = "duplicate case: ".to_owned();
                message.append(id.shown().as_str());
                message
            },
        }
    }
}

impl<C> Suite<C> {
    #[verifier::type_invariant]
    spec fn is_valid(self) -> bool {
        valid_suite(self@)
    }

    /// An empty suite.
    pub fn new() -> (suite: Suite<C>)
        ensures
            suite@ == Seq::<(CaseIdView, C)>::empty(),
    {
        let cases: Vec<RegisteredCase<C>> = Vec::new();
        assert(registered(cases@) =~= Seq::<(CaseIdView, C)>::empty());
        Suite { cases }
    }

    /// The registered cases, in the order of their registration.
    pub fn cases(&self) -> (cases: &Vec<RegisteredCase<C>>)
        ensures
            registered(cases@) == self@,
            valid_suite(self@),
    {
        proof {
            use_type_invariant(self);
        }
        &self.cases
    }

    fn contains_id(&self, full_id: &String) -> (found: bool)
        ensures
            found == exists|i: int| 0 <= i < self@.len() && id_text(#[trigger] self@[i].0) == full_id@,
    {
        for i in 0..self.cases.len()
            invariant
                forall|j: int| 0 <= j < i ==> id_text(#[trigger] self@[j].0) != full_id@,
        {
            assert(self@[i as int].0 == self.cases@[i as int].case_id@);
            if self.cases[i].case_id.full_id() == *full_id {
                return true;
            }
        }
        false
    }

    /// Adds a case under an identity that no other case has.
    pub fn register_case(&mut self, case_id: CaseId, case: C) -> (result: Result<(), RegistrationError>)
        ensures
            match result {
                Ok(_) => {
                    &&& !is_registered(old(self)@, case_id@)
                    &&& final(self)@ == old(self)@.push((case_id@, case))
                },
                Err(error) => {
                    &&& is_registered(old(self)@, case_id@)
                    &&& error matches RegistrationError::Duplicate(id) && id@ == case_id@
                    &&& final(self)@ == old(self)@
                },
            },
    {
        proof {
            use_type_invariant(&*self);
        }
        if self.contains_id(&case_id.full_id()) {
            return Err(RegistrationError::Duplicate(case_id));
        }
        let ghost before = self@;
        let mut cases: Vec<RegisteredCase<C>> = Vec::new();
        proof {
            assert(registered(cases@) =~= Seq::<(CaseIdView, C)>::empty());
        }
        std::mem::swap(&mut self.cases, &mut cases);
        cases.push(RegisteredCase { case_id, case });
        proof {
            assert(registered(cases@) =~= before.push((case_id@, case)));
        }
        self.cases = cases;
        Ok(())
    }
}

/// `indices` lists the selected cases, all of them, once each and in the order of their
/// registration.
pub open spec fn lists_selected<C>(
    cases: Seq<(CaseIdView, C)>,
    selection: SelectionView,
    indices: Seq<usize>,
) -> bool {
    &&& forall|i: int, j: int| 0 <= i < j < indices.len() ==> #[trigger] indices[i] < #[trigger] indices[j]
    &&& forall|i: int|
        0 <= i < indices.len() ==> {
            &&& #[trigger] indices[i] < cases.len()
            &&& selection.selects(cases[indices[i] as int].0)
        }
    &&& forall|k: int|
        0 <= k < cases.len() && selection.selects(#[trigger] cases[k].0) ==> indices.contains(k as usize)
}

/// What the cases at `indices` answered when they were asked for their requirements.
pub open spec fn answered<C: BenchmarkCase>(
    cases: Seq<(CaseIdView, C)>,
    indices: Seq<usize>,
    answers: Seq<GpuRequirements>,
) -> bool {
    &&& answers.len() == indices.len()
    &&& forall|i: int|
        0 <= i < indices.len() ==> call_ensures(
            C::requirements,
            (&cases[indices[i] as int].1,),
            #[trigger] answers[i],
        )
}

/// The requirements, as mathematical values.
pub open spec fn requirement_views(requirements: Seq<GpuRequirements>) -> Seq<RequirementsView> {
    requirements.map_values(|r: GpuRequirements| r@)
}

/// A run: the cases that it takes, and what they ask of the GPU together.
#[derive(Debug)]
pub struct RunPlan {
    pub cases: Vec<usize>,
    pub requirements: GpuRequirements,
}

impl<C> Default for Suite<C> {
    fn default() -> (suite: Suite<C>)
        ensures
            suite@ == Seq::<(CaseIdView, C)>::empty(),
    {
        Suite::new()
    }
}

impl<C> Suite<C> {
    /// The indices of the cases that the selection takes.
    pub fn selected(&self, selection: &CaseSelection) -> (indices: Vec<usize>)
        ensures
            lists_selected(self@, selection@, indices@),
    {
        let mut indices: Vec<usize> = Vec::new();
        for k in 0..self.cases.len()
            invariant
                forall|i: int, j: int|
                    0 <= i < j < indices.len() ==> #[trigger] indices@[i] < #[trigger] indices@[j],
                forall|i: int|
                    0 <= i < indices.len() ==> {
                        &&& #[trigger] indices@[i] < k
                        &&& selection@.selects(self@[indices@[i] as int].0)
                    },
                forall|j: int|
                    0 <= j < k && selection@.selects(#[trigger] self@[j].0) ==> indices@.contains(j as usize),
        {
            let ghost before = indices@;
            assert(self@[k as int].0 == self.cases@[k as int].case_id@);
            if selection.matches(&self.cases[k].case_id) {
                indices.push(k);
                assert(indices@[before.len() as int] == k);
                assert forall|j: int| 0 <= j < k + 1 && selection@.selects(#[trigger] self@[j].0) implies indices@.contains(
                    j as usize,
                ) by {
                    if j < k {
                        let i = choose|i: int| 0 <= i < before.len() && before[i] == j as usize;
                        assert(indices@[i] == j as usize);
                    }
                }
            }
        }
        indices
    }
}

/// Plans a run over the selected cases. Without any there is nothing to run.
pub fn plan_run<C: BenchmarkCase>(suite: &Suite<C>, selection: &CaseSelection) -> (plan: Option<RunPlan>)
    ensures
        match plan {
            Some(plan) => {
                &&& plan.cases.len() > 0
                &&& lists_selected(suite@, selection@, plan.cases@)
                &&& exists|answers: Seq<GpuRequirements>| #[trigger]
                    answered(suite@, plan.cases@, answers) && {
                        &&& plan.requirements@.flags() == combined_flags(requirement_views(answers))
                        &&& plan.requirements@.limit_values() == combined_limits(requirement_views(answers))
                    }
            },
            None => forall|k: int| 0 <= k < suite@.len() ==> !selection@.selects(#[trigger] suite@[k].0),
        },
{
    let cases: Vec<usize> = suite.selected(selection);
    if cases.len() == 0 {
        return None;
    }
    let mut answers: Vec<GpuRequirements> = Vec::new();
    for i in 0..cases.len()
        invariant
            lists_selected(suite@, selection@, cases@),
            answers.len() == i,
            forall|j: int|
                0 <= j < i ==> call_ensures(
                    C::requirements,
                    (&suite@[cases@[j] as int].1,),
                    #[trigger] answers@[j],
                ),
    {
        assert(suite@[cases@[i as int] as int].1 == suite.cases@[cases@[i as int] as int].case);
        answers.push(suite.cases[cases[i]].case.requirements());
    }
    assert(answered(suite@, cases@, answers@));
    let requirements = combine_requirements(&answers);
    Some(RunPlan { cases, requirements })
}

/// A new identity keeps a suite valid.
pub proof fn law_registration_keeps_suites_valid<C>(cases: Seq<(CaseIdView, C)>, id: CaseIdView, case: C)
    requires
        valid_suite(cases),
        valid_id(id),
        !is_registered(cases, id),
    ensures
        valid_suite(cases.push((id, case))),
        is_registered(cases.push((id, case)), id),
{
    let after = cases.push((id, case));
    assert(after[cases.len() as int].0 == id);
}

/// The registered identities are different: a case is found by its identity alone.
pub proof fn law_identities_are_unique<C>(cases: Seq<(CaseIdView, C)>, left: int, right: int)
    requires
        valid_suite(cases),
        0 <= left < cases.len(),
        0 <= right < cases.len(),
        cases[left].0 == cases[right].0,
    ensures
        left == right,
{
}

/// A selection determines the cases of a run.
pub proof fn law_selected_cases_are_determined<C>(
    cases: Seq<(CaseIdView, C)>,
    selection: SelectionView,
    left: Seq<usize>,
    right: Seq<usize>,
)
    requires
        lists_selected(cases, selection, left),
        lists_selected(cases, selection, right),
        cases.len() <= usize::MAX,
    ensures
        left == right,
{
    lemma_same_members(cases, selection, left, right);
    lemma_increasing_sequences_agree(left, right);
}

/// A run that selects by identity takes the registered case with that identity and no
/// other.
pub proof fn law_exact_selection_runs_one_case<C>(
    cases: Seq<(CaseIdView, C)>,
    index: int,
    indices: Seq<usize>,
)
    requires
        valid_suite(cases),
        0 <= index < cases.len() <= usize::MAX,
        lists_selected(cases, SelectionView::Exact(id_text(cases[index].0)), indices),
    ensures
        indices == seq![index as usize],
{
    let selection = SelectionView::Exact(id_text(cases[index].0));
    assert(selection.selects(cases[index].0));
    assert forall|k: int| 0 <= k < cases.len() && selection.selects(#[trigger] cases[k].0) implies k == index by {
        assert(id_text(cases[k].0) == id_text(cases[index].0));
    }
    assert forall|k: int|
        0 <= k < cases.len() && selection.selects(#[trigger] cases[k].0) implies seq![index as usize].contains(
        k as usize,
    ) by {
        assert(seq![index as usize][0] == k as usize);
    }
    assert(lists_selected(cases, selection, seq![index as usize]));
    law_selected_cases_are_determined(cases, selection, indices, seq![index as usize]);
}

proof fn lemma_same_members<C>(
    cases: Seq<(CaseIdView, C)>,
    selection: SelectionView,
    left: Seq<usize>,
    right: Seq<usize>,
)
    requires
        lists_selected(cases, selection, left),
        lists_selected(cases, selection, right),
    ensures
        forall|k: usize| left.contains(k) <==> right.contains(k),
{
    assert forall|k: usize| left.contains(k) implies right.contains(k) by {
        let i = choose|i: int| 0 <= i < left.len() && left[i] == k;
        assert(selection.selects(cases[left[i] as int].0));
    }
    assert forall|k: usize| right.contains(k) implies left.contains(k) by {
        let i = choose|i: int| 0 <= i < right.len() && right[i] == k;
        assert(selection.selects(cases[right[i] as int].0));
    }
}

/// Two increasing sequences with the same members are equal.
proof fn lemma_increasing_sequences_agree(left: Seq<usize>, right: Seq<usize>)
    requires
        forall|i: int, j: int| 0 <= i < j < left.len() ==> #[trigger] left[i] < #[trigger] left[j],
        forall|i: int, j: int| 0 <= i < j < right.len() ==> #[trigger] right[i] < #[trigger] right[j],
        forall|k: usize| left.contains(k) <==> right.contains(k),
    ensures
        left == right,
    decreases left.len(),
{
    if left.len() == 0 {
        if right.len() > 0 {
            assert(right.contains(right[0]));
        }
        assert(left =~= right);
    } else {
        assert(left.contains(left.last()));
        let at = choose|at: int| 0 <= at < right.len() && right[at] == left.last();
        assert(right.contains(right.last()));
        let back = choose|back: int| 0 <= back < left.len() && left[back] == right.last();
        assert(left.last() == right.last());
        let shorter_left = left.drop_last();
        let shorter_right = right.drop_last();
        assert forall|k: usize| shorter_left.contains(k) <==> shorter_right.contains(k) by {
            if shorter_left.contains(k) {
                let i = choose|i: int| 0 <= i < shorter_left.len() && shorter_left[i] == k;
                assert(left[i] == k);
                assert(left.contains(k));
                let j = choose|j: int| 0 <= j < right.len() && right[j] == k;
                assert(j < right.len() - 1);
                assert(shorter_right[j] == k);
            }
            if shorter_right.contains(k) {
                let i = choose|i: int| 0 <= i < shorter_right.len() && shorter_right[i] == k;
                assert(right[i] == k);
                assert(right.contains(k));
                let j = choose|j: int| 0 <= j < left.len() && left[j] == k;
                assert(j < left.len() - 1);
                assert(shorter_left[j] == k);
            }
        }
        lemma_increasing_sequences_agree(shorter_left, shorter_right);
        assert(left =~= shorter_left.push(left.last()));
        assert(right =~= shorter_right.push(right.last()));
    }
}

/// An identity is registered exactly if a case of the suite has it.
pub proof fn law_registered_identities_have_a_case<C>(cases: Seq<(CaseIdView, C)>, id: CaseIdView)
    requires
        valid_suite(cases),
        valid_id(id),
    ensures
        is_registered(cases, id) <==> exists|i: int| 0 <= i < cases.len() && (#[trigger] cases[i]).0 == id,
{
    if is_registered(cases, id) {
        let i = choose|i: int| 0 <= i < cases.len() && id_text(#[trigger] cases[i].0) == id_text(id);
        crate::case_id::law_full_id_injective(cases[i].0, id);
        assert(cases[i].0 == id);
    }
}

/// A suite with a second case of an identity that it holds is not valid.
pub proof fn law_identities_are_not_registered_twice<C>(cases: Seq<(CaseIdView, C)>, id: CaseIdView, case: C)
    requires
        is_registered(cases, id),
    ensures
        !valid_suite(cases.push((id, case))),
{
    let after = cases.push((id, case));
    let i = choose|i: int| 0 <= i < cases.len() && id_text(#[trigger] cases[i].0) == id_text(id);
    let last = cases.len() as int;
    assert(after[i] == cases[i]);
    assert(after[last].0 == id);
    if valid_suite(after) {
        assert(id_text(after[i].0) != id_text(after[last].0));
    }
}

/// A case takes part in a run exactly if the selection takes it, and the cases of a run come in
/// the order of their registration, once each.
pub proof fn law_runs_take_exactly_the_selected_cases<C>(
    cases: Seq<(CaseIdView, C)>,
    selection: SelectionView,
    indices: Seq<usize>,
    index: usize,
)
    requires
        lists_selected(cases, selection, indices),
    ensures
        indices.contains(index) <==> index < cases.len() && selection.selects(cases[index as int].0),
        forall|i: int, j: int|
            0 <= i < indices.len() && 0 <= j < indices.len() ==> (#[trigger] indices[i] < #[trigger] indices[j]
                <==> i < j),
{
    if indices.contains(index) {
        let i = choose|i: int| 0 <= i < indices.len() && indices[i] == index;
        assert(indices[i] < cases.len());
    }
    assert forall|i: int, j: int| 0 <= i < indices.len() && 0 <= j < indices.len() implies (
    #[trigger] indices[i] < #[trigger] indices[j] <==> i < j) by {
        if j < i {
            assert(indices[j] < indices[i]);
        }
    }
}

/// A run over all cases takes all of them.
pub proof fn law_runs_over_all_cases<C>(cases: Seq<(CaseIdView, C)>, indices: Seq<usize>)
    requires
        cases.len() <= usize::MAX,
        lists_selected(cases, SelectionView::All, indices),
    ensures
        indices == Seq::new(cases.len(), |i: int| i as usize),
{
    let all = Seq::new(cases.len(), |i: int| i as usize);
    assert forall|k: int| 0 <= k < cases.len() && SelectionView::All.selects(#[trigger] cases[k].0) implies all.contains(
        k as usize,
    ) by {
        assert(all[k] == k as usize);
    }
    assert(lists_selected(cases, SelectionView::All, all));
    law_selected_cases_are_determined(cases, SelectionView::All, indices, all);
}

/// The texts of the errors name the label or the identity, whatever it is.
pub proof fn law_registration_errors_name_the_case(label: String, id: CaseId)
    ensures
        RegistrationError::UnknownRepeatability(label).text() == "case "@ + label@
            + ": choose .repeatable() or .single_iteration() before registration"@,
        RegistrationError::Duplicate(id).text() == "duplicate case: "@ + shown_id(id@),
{
}

}
