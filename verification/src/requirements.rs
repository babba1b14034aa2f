//! What a benchmark asks of a GPU, and how the demands of several benchmarks combine.
//!
//! Feature flags and limits are values of `wgpu`. A set of feature flags is seen as the
//! set of its bit positions, and limits as the sequence of their values.
use vstd::prelude::*;

verus! {

#[verifier::external_type_specification]
#[verifier::external_body]
pub struct ExFeatures(wgpu::Features);

#[verifier::external_type_specification]
#[verifier::external_body]
pub struct ExLimits(wgpu::Limits);

/// The feature flags that are set: the positions of the bits of `wgpu::Features::bits`,
/// those of the second word counted from 64.
pub uninterp spec fn feature_flags(features: wgpu::Features) -> Set<int>;

/// The values of the limits, in the order of the fields of `wgpu::Limits`.
pub uninterp spec fn limit_values(limits: wgpu::Limits) -> Seq<u64>;

/// The number of limits.
pub const LIMIT_COUNT: usize = 57;

/// The flag of `wgpu::Features::TIMESTAMP_QUERY`: bit 7 of the second word.
pub const TIMESTAMP_QUERY_FLAG: u32 = 71;

/// The limits that are minima, so that the lower value is the better one: the offset
/// alignments of uniform buffers and of storage buffers. All others are maxima.
pub open spec fn lower_is_better(limit: int) -> bool {
    limit == 24 || limit == 25
}

/// Of every limit the better value.
pub open spec fn better_limits(left: Seq<u64>, right: Seq<u64>) -> Seq<u64> {
    Seq::new(
        LIMIT_COUNT as nat,
        |i: int|
            if lower_is_better(i) {
                if left[i] <= right[i] {
                    left[i]
                } else {
                    right[i]
                }
            } else {
                if left[i] >= right[i] {
                    left[i]
                } else {
                    right[i]
                }
            },
    )
}

/// No limit is better than what `allowed` grants.
pub open spec fn limits_within(limits: Seq<u64>, allowed: Seq<u64>) -> bool {
    forall|i: int|
        0 <= i < LIMIT_COUNT ==> if lower_is_better(i) {
            #[trigger] limits[i] >= allowed[i]
        } else {
            limits[i] <= allowed[i]
        }
}

/// The limits that every modern GPU grants.
pub open spec fn default_limit_values() -> Seq<u64> {
    seq![
        8192, 8192, 2048, 256, 4, 24, 1000, 8, 4, 16, 16, 8, 4, 12, 0, 0, 0,
        65536, 134217728, 8, 268435456, 16, 2048, 16, 256, 256, 8, 32,
        16384, 256, 256, 256, 64, 65535, 0, 1000000, 0, 0, 0, 0, 0, 0, 0, 0,
        0, 0, 0, 0, 0, 0, 0, 0, 0, 28, 0, 0, 0,
    ]
}

/// `wgpu::Features::empty` sets no flag.
pub assume_specification[ wgpu::Features::empty ]() -> (features: wgpu::Features)
    ensures
        feature_flags(features) == Set::<int>::empty(),
;

/// `wgpu::Features::contains` tells whether all flags of `other` are set in `features`.
pub assume_specification[ wgpu::Features::contains ](
    features: wgpu::Features,
    other: wgpu::Features,
) -> (contained: bool)
    ensures
        contained == feature_flags(other).subset_of(feature_flags(features)),
;

/// The operator `|` on `wgpu::Features` sets the flags that are set on either side.
#[verifier::external_body]
fn union_features(left: wgpu::Features, right: wgpu::Features) -> (features: wgpu::Features)
    ensures
        feature_flags(features) == feature_flags(left).union(feature_flags(right)),
{
    left | right
}

/// `wgpu::Features::TIMESTAMP_QUERY` sets its own flag alone.
#[verifier::external_body]
fn timestamp_query() -> (features: wgpu::Features)
    ensures
        feature_flags(features) == set![TIMESTAMP_QUERY_FLAG as int],
{
    wgpu::Features::TIMESTAMP_QUERY
}

/// `wgpu::Limits::default` gives the values that its documentation lists.
pub assume_specification[ <wgpu::Limits as core::default::Default>::default ]() -> (limits: wgpu::Limits)
    ensures
        limit_values(limits) == default_limit_values(),
;

/// The derived `clone` of `wgpu::Limits` copies every field.
pub assume_specification[ <wgpu::Limits as Clone>::clone ](limits: &wgpu::Limits) -> (copy: wgpu::Limits)
    ensures
        copy == *limits,
;

/// `wgpu::Limits::or_better_values_from` takes of every limit the better of both values:
/// the lower of a minimum, the higher of a maximum.
pub assume_specification[ wgpu::Limits::or_better_values_from ](
    limits: wgpu::Limits,
    other: &wgpu::Limits,
) -> (better: wgpu::Limits)
    ensures
        limit_values(better) == better_limits(limit_values(limits), limit_values(*other)),
;

/// `wgpu::Limits::check_limits` tells whether no limit is better than the allowed one.
pub assume_specification[ wgpu::Limits::check_limits ](
    limits: &wgpu::Limits,
    allowed: &wgpu::Limits,
) -> (within: bool)
    ensures
        within == limits_within(limit_values(*limits), limit_values(*allowed)),
;

/// The features and limits of a set of requirements.
pub struct RequirementsView {
    pub features: wgpu::Features,
    pub limits: wgpu::Limits,
}

/// Capabilities a benchmark needs in addition to timestamp queries.
#[derive(Debug, PartialEq, Eq)]
pub struct GpuRequirements {
    required_features: wgpu::Features,
    required_limits: wgpu::Limits,
}

impl View for GpuRequirements {
    type V = RequirementsView;

    closed spec fn view(&self) -> RequirementsView {
        RequirementsView { features: self.required_features, limits: self.required_limits }
    }
}

impl RequirementsView {
    pub open spec fn flags(self) -> Set<int> {
        feature_flags(self.features)
    }

    pub open spec fn limit_values(self) -> Seq<u64> {
        limit_values(self.limits)
    }

    /// No feature, and the limits that every modern GPU grants.
    pub open spec fn is_default(self) -> bool {
        &&& self.flags() == Set::<int>::empty()
        &&& self.limit_values() == default_limit_values()
    }
}

/// A GPU with these features and limits meets the requirements.
pub open spec fn meets(features: wgpu::Features, limits: wgpu::Limits, requirements: RequirementsView) -> bool {
    &&& requirements.flags().subset_of(feature_flags(features))
    &&& limits_within(requirements.limit_values(), limit_values(limits))
}

/// The features that any of the requirements names.
pub open spec fn combined_flags(requirements: Seq<RequirementsView>) -> Set<int>
    decreases requirements.len(),
{
    if requirements.len() == 0 {
        Set::empty()
    } else {
        combined_flags(requirements.drop_last()).union(requirements.last().flags())
    }
}

/// Of every limit the best value that the default or any of the requirements names.
pub open spec fn combined_limits(requirements: Seq<RequirementsView>) -> Seq<u64>
    decreases requirements.len(),
{
    if requirements.len() == 0 {
        default_limit_values()
    } else {
        better_limits(combined_limits(requirements.drop_last()), requirements.last().limit_values())
    }
}

impl Default for GpuRequirements {
    fn default() -> (requirements: GpuRequirements)
        ensures
            requirements@.is_default(),
    {
        GpuRequirements {
            required_features: wgpu::Features::empty(),
            required_limits: wgpu::Limits::default(),
        }
    }
}

impl Clone for GpuRequirements {
    fn clone(&self) -> (copy: GpuRequirements)
        ensures
            copy@ == self@,
    {
        GpuRequirements {
            required_features: self.required_features,
            required_limits: self.required_limits.clone(),
        }
    }
}

impl GpuRequirements {
    pub fn new(required_features: wgpu::Features, required_limits: wgpu::Limits) -> (requirements: GpuRequirements)
        ensures
            requirements@ == (RequirementsView { features: required_features, limits: required_limits }),
    {
        GpuRequirements { required_features, required_limits }
    }

    pub fn required_features(&self) -> (features: wgpu::Features)
        ensures
            features == self@.features,
    {
        self.required_features
    }

    pub fn required_limits(&self) -> (limits: &wgpu::Limits)
        ensures
            *limits == self@.limits,
    {
        &self.required_limits
    }

    /// Requires `features` too.
    #[must_use]
    pub fn with_required_features(self, features: wgpu::Features) -> (requirements: GpuRequirements)
        ensures
            requirements@.flags() == self@.flags().union(feature_flags(features)),
            requirements@.limits == self@.limits,
    {
        GpuRequirements {
            required_features: union_features(self.required_features, features),
            required_limits: self.required_limits,
        }
    }

    /// Requires `limits` in place of the limits that were required.
    #[must_use]
    pub fn with_required_limits(self, limits: wgpu::Limits) -> (requirements: GpuRequirements)
        ensures
            requirements@ == (RequirementsView { features: self@.features, limits }),
    {
        GpuRequirements { required_features: self.required_features, required_limits: limits }
    }

    /// Requires what either of the two requires.
    pub fn combine(&self, other: &GpuRequirements) -> (requirements: GpuRequirements)
        ensures
            requirements@.flags() == self@.flags().union(other@.flags()),
            requirements@.limit_values() == better_limits(self@.limit_values(), other@.limit_values()),
    {
        GpuRequirements::new(
            union_features(self.required_features(), other.required_features()),
            self.required_limits().clone().or_better_values_from(other.required_limits()),
        )
    }

    /// What a benchmark session asks of a GPU: the requirements, and timestamp queries.
    pub fn for_session(self) -> (requirements: GpuRequirements)
        ensures
            requirements@.flags() == self@.flags().insert(TIMESTAMP_QUERY_FLAG as int),
            requirements@.limits == self@.limits,
    {
        let requirements = self.with_required_features(timestamp_query());
        proof {
            assert(requirements@.flags() =~= self@.flags().insert(TIMESTAMP_QUERY_FLAG as int));
        }
        requirements
    }

    /// Whether a GPU with these features and limits meets the requirements.
    pub fn met_by(&self, features: wgpu::Features, limits: &wgpu::Limits) -> (met: bool)
        ensures
            met == meets(features, *limits, self@),
    {
        features.contains(self.required_features) && self.required_limits.check_limits(limits)
    }
}

/// The demands of several benchmarks, combined.
pub fn combine_requirements(requirements: &Vec<GpuRequirements>) -> (combined: GpuRequirements)
    ensures
        combined@.flags() == combined_flags(requirements@.map_values(|r: GpuRequirements| r@)),
        combined@.limit_values() == combined_limits(requirements@.map_values(|r: GpuRequirements| r@)),
{
    let ghost views = requirements@.map_values(|r: GpuRequirements| r@);
    let mut combined = GpuRequirements::default();
    for i in 0..requirements.len()
        invariant
            views == requirements@.map_values(|r: GpuRequirements| r@),
            combined@.flags() == combined_flags(views.take(i as int)),
            combined@.limit_values() == combined_limits(views.take(i as int)),
    {
        combined = combined.combine(&requirements[i]);
        assert(views.take(i + 1).drop_last() =~= views.take(i as int));
    }
    assert(views.take(requirements.len() as int) =~= views);
    combined
}

/// A GPU grants the better of two limits exactly if it grants both.
pub proof fn law_better_limits_are_granted_together(left: Seq<u64>, right: Seq<u64>, allowed: Seq<u64>)
    ensures
        limits_within(better_limits(left, right), allowed) <==> limits_within(left, allowed)
            && limits_within(right, allowed),
{
    let better = better_limits(left, right);
    if limits_within(better, allowed) {
        assert forall|i: int| 0 <= i < LIMIT_COUNT implies if lower_is_better(i) {
            #[trigger] left[i] >= allowed[i]
        } else {
            left[i] <= allowed[i]
        } by {
            assert(if lower_is_better(i) { better[i] >= allowed[i] } else { better[i] <= allowed[i] });
        }
        assert forall|i: int| 0 <= i < LIMIT_COUNT implies if lower_is_better(i) {
            #[trigger] right[i] >= allowed[i]
        } else {
            right[i] <= allowed[i]
        } by {
            assert(if lower_is_better(i) { better[i] >= allowed[i] } else { better[i] <= allowed[i] });
        }
    }
    if limits_within(left, allowed) && limits_within(right, allowed) {
        assert forall|i: int| 0 <= i < LIMIT_COUNT implies if lower_is_better(i) {
            #[trigger] better[i] >= allowed[i]
        } else {
            better[i] <= allowed[i]
        } by {
            assert(if lower_is_better(i) { left[i] >= allowed[i] } else { left[i] <= allowed[i] });
            assert(if lower_is_better(i) { right[i] >= allowed[i] } else { right[i] <= allowed[i] });
        }
    }
}

/// A GPU meets the combined demands exactly if it grants the default limits and meets the
/// demands of every benchmark.
pub proof fn law_combined_requirements_are_met_together(
    features: wgpu::Features,
    limits: wgpu::Limits,
    requirements: Seq<RequirementsView>,
    combined: RequirementsView,
)
    requires
        combined.flags() == combined_flags(requirements),
        combined.limit_values() == combined_limits(requirements),
    ensures
        meets(features, limits, combined) <==> {
            &&& limits_within(default_limit_values(), limit_values(limits))
            &&& forall|i: int| 0 <= i < requirements.len() ==> meets(features, limits, #[trigger] requirements[i])
        },
{
    lemma_combined(features, limits, requirements);
}

proof fn lemma_combined(features: wgpu::Features, limits: wgpu::Limits, requirements: Seq<RequirementsView>)
    ensures
        combined_flags(requirements).subset_of(feature_flags(features)) && limits_within(
            combined_limits(requirements),
            limit_values(limits),
        ) <==> {
            &&& limits_within(default_limit_values(), limit_values(limits))
            &&& forall|i: int| 0 <= i < requirements.len() ==> meets(features, limits, #[trigger] requirements[i])
        },
    decreases requirements.len(),
{
    if requirements.len() > 0 {
        let earlier = requirements.drop_last();
        let last = requirements.last();
        lemma_combined(features, limits, earlier);
        law_better_limits_are_granted_together(
            combined_limits(earlier),
            last.limit_values(),
            limit_values(limits),
        );
        let flags = combined_flags(earlier);
        let available = feature_flags(features);
        assert(flags.union(last.flags()).subset_of(available) <==> flags.subset_of(available)
            && last.flags().subset_of(available)) by {
            if flags.union(last.flags()).subset_of(available) {
                assert forall|f: int| flags.contains(f) implies available.contains(f) by {
                    assert(flags.union(last.flags()).contains(f));
                }
                assert forall|f: int| last.flags().contains(f) implies available.contains(f) by {
                    assert(flags.union(last.flags()).contains(f));
                }
            }
        }
        assert(requirements[requirements.len() - 1] == last);
        assert(forall|i: int| 0 <= i < earlier.len() ==> earlier[i] == requirements[i]);
        if forall|i: int| 0 <= i < requirements.len() ==> meets(features, limits, #[trigger] requirements[i]) {
            assert forall|i: int| 0 <= i < earlier.len() implies meets(features, limits, #[trigger] earlier[i]) by {
                assert(meets(features, limits, requirements[i]));
            }
        }
    }
}

/// A feature is required together exactly if any of the benchmarks requires it.
pub proof fn law_combined_features_are_those_of_any(requirements: Seq<RequirementsView>, flag: int)
    ensures
        combined_flags(requirements).contains(flag) <==> exists|i: int|
            0 <= i < requirements.len() && (#[trigger] requirements[i]).flags().contains(flag),
    decreases requirements.len(),
{
    if requirements.len() > 0 {
        let earlier = requirements.drop_last();
        law_combined_features_are_those_of_any(earlier, flag);
        let last = requirements.len() - 1;
        assert(requirements[last] == requirements.last());
        assert(forall|i: int| 0 <= i < earlier.len() ==> #[trigger] earlier[i] == requirements[i]);
        if exists|i: int| 0 <= i < requirements.len() && (#[trigger] requirements[i]).flags().contains(flag) {
            let i = choose|i: int|
                0 <= i < requirements.len() && (#[trigger] requirements[i]).flags().contains(flag);
            if i < last {
                assert(earlier[i].flags().contains(flag));
            }
        }
        if combined_flags(earlier).contains(flag) {
            let i = choose|i: int| 0 <= i < earlier.len() && (#[trigger] earlier[i]).flags().contains(flag);
            assert(requirements[i].flags().contains(flag));
        }
    }
}

/// The better of two limits is one of them, and neither is better than it: of an offset
/// alignment the lower, of every other limit the higher.
pub proof fn law_better_limit_is_the_better_of_two(left: Seq<u64>, right: Seq<u64>, limit: int)
    requires
        0 <= limit < 57,
    ensures
        ({
            let better = better_limits(left, right)[limit];
            &&& better == left[limit] || better == right[limit]
            &&& limit == 24 || limit == 25 ==> better <= left[limit] && better <= right[limit]
            &&& limit != 24 && limit != 25 ==> better >= left[limit] && better >= right[limit]
        }),
        better_limits(left, right).len() == 57,
{
}

/// A limit is within what is allowed exactly if every value is: of an offset alignment no lower,
/// of every other limit no higher.
pub proof fn law_limits_are_compared_one_by_one(limits: Seq<u64>, allowed: Seq<u64>)
    ensures
        limits_within(limits, allowed) <==> {
            &&& limits[24] >= allowed[24]
            &&& limits[25] >= allowed[25]
            &&& forall|i: int| 0 <= i < 57 && i != 24 && i != 25 ==> #[trigger] limits[i] <= allowed[i]
        },
{
    if limits_within(limits, allowed) {
        assert(lower_is_better(24) && lower_is_better(25));
        assert(limits[24] >= allowed[24]);
        assert(limits[25] >= allowed[25]);
        assert forall|i: int| 0 <= i < 57 && i != 24 && i != 25 implies #[trigger] limits[i] <= allowed[i] by {
            assert(!lower_is_better(i));
        }
    }
}

/// A GPU grants its own limits, and what a GPU with lesser limits grants a better one grants
/// too.
pub proof fn law_better_gpus_grant_more(limits: Seq<u64>, lesser: Seq<u64>, better: Seq<u64>)
    requires
        limits_within(limits, lesser),
        limits_within(lesser, better),
    ensures
        limits_within(limits, better),
        limits_within(limits, limits),
{
    assert forall|i: int| 0 <= i < LIMIT_COUNT implies if lower_is_better(i) {
        #[trigger] limits[i] >= better[i]
    } else {
        limits[i] <= better[i]
    } by {
        assert(if lower_is_better(i) { limits[i] >= lesser[i] } else { limits[i] <= lesser[i] });
        assert(if lower_is_better(i) { lesser[i] >= better[i] } else { lesser[i] <= better[i] });
    }
}

}
