//! Which GPU a run is measured on.
use vstd::prelude::*;
use crate::requirements::{
    feature_flags, limit_values, limits_within, lower_is_better, meets, GpuRequirements,
};
use crate::text;

verus! {

/// The kind of a device.
#[derive(Clone, Copy, Debug, PartialEq, Eq, Structural)]
pub enum DeviceType {
    Other,
    IntegratedGpu,
    DiscreteGpu,
    VirtualGpu,
    Cpu,
}

/// The interface that a device is driven through.
#[derive(Clone, Copy, Debug, PartialEq, Eq, Structural)]
pub enum Backend {
    Noop,
    Vulkan,
    Metal,
    Dx12,
    Gl,
    BrowserWebGpu,
}

/// What a device reports of itself.
#[derive(Debug, PartialEq, Eq)]
pub struct AdapterInfo {
    pub name: String,
    pub vendor: u32,
    pub device: u32,
    pub device_type: DeviceType,
    pub device_pci_bus_id: String,
    pub driver: String,
    pub driver_info: String,
    pub backend: Backend,
}

/// A device that a run could be measured on.
#[derive(Debug)]
pub struct AdapterCandidate {
    pub info: AdapterInfo,
    pub features: wgpu::Features,
    pub limits: wgpu::Limits,
}

/// The key by which adapters are ordered: kind, backend, vendor, device, bus, name, driver
/// and driver version.
pub type AdapterSelectionKey = (u8, u8, u32, u32, String, String, String, String);

/// `text` in lower case, as `str::to_lowercase` gives it.
pub uninterp spec fn lowercase(text: Seq<char>) -> Seq<char>;

/// `str::to_lowercase` gives the lower case of a text, by the mapping of Unicode; what
/// that is of a given text is left unsaid.
#[verifier::external_body]
fn to_lowercase(text: &str) -> (lower: String)
    ensures
        lower@ == lowercase(text@),
{
    text.to_lowercase()
}

/// One of the names under which software renderers are known stands in `identity`.
pub open spec fn software_identity(identity: Seq<char>) -> bool {
    ||| text::contains_text(identity, "swiftshader"@)
    ||| text::contains_text(identity, "llvmpipe"@)
    ||| text::contains_text(identity, "lavapipe"@)
    ||| text::contains_text(identity, "software"@)
}

/// What a device calls itself: name, driver and driver version, with blanks between.
pub open spec fn identity_text(info: AdapterInfo) -> Seq<char> {
    info.name@ + seq![' '] + info.driver@ + seq![' '] + info.driver_info@
}

/// The device renders in software: by its kind, its backend or what it calls itself.
pub open spec fn software_adapter(info: AdapterInfo) -> bool {
    ||| info.device_type is Cpu
    ||| info.backend is Noop
    ||| software_identity(lowercase(identity_text(info)))
}

pub open spec fn device_rank(device_type: DeviceType) -> u8 {
    match device_type {
        DeviceType::DiscreteGpu => 0,
        DeviceType::IntegratedGpu => 1,
        DeviceType::VirtualGpu => 2,
        DeviceType::Other => 3,
        DeviceType::Cpu => 4,
    }
}

pub open spec fn rank_of_backend(backend: Backend) -> u8 {
    match backend {
        Backend::Metal => 0,
        Backend::Dx12 => 1,
        Backend::Vulkan => 2,
        Backend::BrowserWebGpu => 3,
        Backend::Gl => 4,
        Backend::Noop => 5,
    }
}

/// A selection key with its texts as sequences of characters.
pub type KeyView = (u8, u8, u32, u32, Seq<char>, Seq<char>, Seq<char>, Seq<char>);

pub open spec fn key_view(key: AdapterSelectionKey) -> KeyView {
    (key.0, key.1, key.2, key.3, key.4@, key.5@, key.6@, key.7@)
}

/// The selection key of a device.
pub open spec fn key_of(info: AdapterInfo) -> KeyView {
    (
        device_rank(info.device_type),
        rank_of_backend(info.backend),
        info.vendor,
        info.device,
        info.device_pci_bus_id@,
        info.name@,
        info.driver@,
        info.driver_info@,
    )
}

/// `left` comes before `right`: the first component in which they differ decides.
pub open spec fn key_before(left: KeyView, right: KeyView) -> bool {
    if left.0 != right.0 {
        left.0 < right.0
    } else if left.1 != right.1 {
        left.1 < right.1
    } else if left.2 != right.2 {
        left.2 < right.2
    } else if left.3 != right.3 {
        left.3 < right.3
    } else if left.4 != right.4 {
        text::text_before(left.4, right.4)
    } else if left.5 != right.5 {
        text::text_before(left.5, right.5)
    } else if left.6 != right.6 {
        text::text_before(left.6, right.6)
    } else {
        text::text_before(left.7, right.7)
    }
}

/// The device is no software renderer and meets the requirements.
pub open spec fn suitable(candidate: AdapterCandidate, requirements: GpuRequirements) -> bool {
    &&& !software_adapter(candidate.info)
    &&& meets(candidate.features, candidate.limits, requirements@)
}

/// The candidate at `index` is suitable, no suitable candidate comes before it by its key,
/// and of those with the same key it is the first.
pub open spec fn is_selected(
    candidates: Seq<AdapterCandidate>,
    requirements: GpuRequirements,
    index: int,
) -> bool {
    &&& 0 <= index < candidates.len()
    &&& suitable(candidates[index], requirements)
    &&& forall|j: int|
        0 <= j < candidates.len() && suitable(#[trigger] candidates[j], requirements) ==> {
            &&& !key_before(key_of(candidates[j].info), key_of(candidates[index].info))
            &&& j < index ==> key_before(key_of(candidates[index].info), key_of(candidates[j].info))
        }
}

/// Whether what a device calls itself, in lower case, names a software renderer.
pub fn names_software_renderer(identity: &str) -> (result: bool)
    ensures
        result == software_identity(identity@),
{
    text::contains(identity, "swiftshader") || text::contains(identity, "llvmpipe") || text::contains(
        identity,
        "lavapipe",
    ) || text::contains(identity, "software")
}

/// Whether the device renders in software.
pub fn is_software_adapter(info: &AdapterInfo) -> (result: bool)
    ensures
        result == software_adapter(*info),
{
    if info.device_type == DeviceType::Cpu || info.backend == Backend::Noop {
        return true;
    }
    let mut identity: String = info.name.clone();
    identity.append(" ");
    identity.append(info.driver.as_str());
    identity.append(" ");
    identity.append(info.driver_info.as_str());
    proof {
        reveal_strlit(" ");
        assert(" "@ =~= seq![' ']);
        assert(identity@ == identity_text(*info));
    }
    let lower: String = to_lowercase(identity.as_str());
    names_software_renderer(lower.as_str())
}

fn device_type_rank(device_type: DeviceType) -> (rank: u8)
    ensures
        rank == device_rank(device_type),
{
    match device_type {
        DeviceType::DiscreteGpu => 0,
        DeviceType::IntegratedGpu => 1,
        DeviceType::VirtualGpu => 2,
        DeviceType::Other => 3,
        DeviceType::Cpu => 4,
    }
}

fn backend_rank(backend: Backend) -> (rank: u8)
    ensures
        rank == rank_of_backend(backend),
{
    match backend {
        Backend::Metal => 0,
        Backend::Dx12 => 1,
        Backend::Vulkan => 2,
        Backend::BrowserWebGpu => 3,
        Backend::Gl => 4,
        Backend::Noop => 5,
    }
}

/// The key by which a device is ordered among others.
pub fn adapter_selection_key(info: &AdapterInfo) -> (key: AdapterSelectionKey)
    ensures
        key_view(key) == key_of(*info),
{
    (
        device_type_rank(info.device_type),
        backend_rank(info.backend),
        info.vendor,
        info.device,
        info.device_pci_bus_id.clone(),
        info.name.clone(),
        info.driver.clone(),
        info.driver_info.clone(),
    )
}

/// Whether `left` comes before `right` in the order of adapters.
pub fn comes_before(left: &AdapterSelectionKey, right: &AdapterSelectionKey) -> (result: bool)
    ensures
        result == key_before(key_view(*left), key_view(*right)),
{
    if left.0 != right.0 {
        left.0 < right.0
    } else if left.1 != right.1 {
        left.1 < right.1
    } else if left.2 != right.2 {
        left.2 < right.2
    } else if left.3 != right.3 {
        left.3 < right.3
    } else if left.4 != right.4 {
        text::before(left.4.as_str(), right.4.as_str())
    } else if left.5 != right.5 {
        text::before(left.5.as_str(), right.5.as_str())
    } else if left.6 != right.6 {
        text::before(left.6.as_str(), right.6.as_str())
    } else {
        text::before(left.7.as_str(), right.7.as_str())
    }
}

/// The device that a run with these requirements is measured on, if there is one.
pub fn select_adapter(candidates: &Vec<AdapterCandidate>, requirements: &GpuRequirements) -> (selected: Option<
    usize,
>)
    ensures
        match selected {
            Some(index) => is_selected(candidates@, *requirements, index as int),
            None => forall|j: int|
                0 <= j < candidates.len() ==> !suitable(#[trigger] candidates@[j], *requirements),
        },
{
    let mut selected: Option<(usize, AdapterSelectionKey)> = None;
    for i in 0..candidates.len()
        invariant
            match selected {
                Some((index, key)) => {
                    &&& index < i
                    &&& key_view(key) == key_of(candidates@[index as int].info)
                    &&& is_selected(candidates@.take(i as int), *requirements, index as int)
                },
                None => forall|j: int|
                    0 <= j < i ==> !suitable(#[trigger] candidates@[j], *requirements),
            },
    {
        let ghost seen = candidates@.take(i as int);
        let ghost now = candidates@.take(i + 1);
        assert(forall|j: int| 0 <= j < i ==> seen[j] == now[j] && now[j] == candidates@[j]);
        assert(now[i as int] == candidates@[i as int]);
        let candidate = &candidates[i];
        if !is_software_adapter(&candidate.info) && requirements.met_by(candidate.features, &candidate.limits) {
            let key = adapter_selection_key(&candidate.info);
            let better = match &selected {
                None => true,
                Some((_, best)) => comes_before(&key, best),
            };
            if better {
                proof {
                    if let Some((index, _)) = selected {
                        let best = key_of(candidates@[index as int].info);
                        assert forall|j: int| 0 <= j < i && suitable(#[trigger] now[j], *requirements) implies key_before(
                            key_of(now[i as int].info),
                            key_of(now[j].info),
                        ) && !key_before(key_of(now[j].info), key_of(now[i as int].info)) by {
                            assert(suitable(seen[j], *requirements));
                            law_key_order_is_total(key_of(now[j].info), best);
                            law_key_order_is_total(key_of(now[j].info), key_view(key));
                            if key_of(now[j].info) != best {
                                law_key_order_is_transitive(key_view(key), best, key_of(now[j].info));
                            }
                        }
                    }
                    law_key_order_is_total(key_view(key), key_view(key));
                    assert(is_selected(now, *requirements, i as int));
                }
                selected = Some((i, key));
            } else {
                proof {
                    if let Some((index, _)) = selected {
                        assert(is_selected(now, *requirements, index as int));
                    }
                }
            }
        } else {
            proof {
                if let Some((index, _)) = selected {
                    assert(is_selected(now, *requirements, index as int));
                }
            }
        }
    }
    assert(candidates@.take(candidates.len() as int) =~= candidates@);
    match selected {
        Some((index, _)) => Some(index),
        None => None,
    }
}

/// Of two different keys exactly one comes before the other, and no key before itself.
pub proof fn law_key_order_is_total(left: KeyView, right: KeyView)
    ensures
        key_before(left, right) ==> !key_before(right, left) && left != right,
        left != right ==> key_before(left, right) || key_before(right, left),
{
    text::lemma_text_before_total(left.4, right.4);
    text::lemma_text_before_total(left.5, right.5);
    text::lemma_text_before_total(left.6, right.6);
    text::lemma_text_before_total(left.7, right.7);
}

/// The order of keys is transitive.
pub proof fn law_key_order_is_transitive(a: KeyView, b: KeyView, c: KeyView)
    requires
        key_before(a, b),
        key_before(b, c),
    ensures
        key_before(a, c),
{
    lemma_text_steps(a.4, b.4, c.4);
    lemma_text_steps(a.5, b.5, c.5);
    lemma_text_steps(a.6, b.6, c.6);
    lemma_text_steps(a.7, b.7, c.7);
}

proof fn lemma_text_steps(a: Seq<char>, b: Seq<char>, c: Seq<char>)
    ensures
        text::text_before(a, b) && text::text_before(b, c) ==> text::text_before(a, c) && a != c,
{
    if text::text_before(a, b) && text::text_before(b, c) {
        text::lemma_text_before_transitive(a, b, c);
        text::lemma_text_before_total(a, c);
    }
}

/// At most one candidate is selected.
pub proof fn law_selection_is_unique(
    candidates: Seq<AdapterCandidate>,
    requirements: GpuRequirements,
    left: int,
    right: int,
)
    requires
        is_selected(candidates, requirements, left),
        is_selected(candidates, requirements, right),
    ensures
        left == right,
{
}

/// The order in which adapters are enumerated does not matter: where the same candidates
/// come in another order, a candidate with the same key is selected.
pub proof fn law_selection_ignores_enumeration_order(
    candidates: Seq<AdapterCandidate>,
    reordered: Seq<AdapterCandidate>,
    requirements: GpuRequirements,
    left: int,
    right: int,
)
    requires
        candidates.to_multiset() == reordered.to_multiset(),
        is_selected(candidates, requirements, left),
        is_selected(reordered, requirements, right),
    ensures
        key_of(candidates[left].info) == key_of(reordered[right].info),
{
    candidates.to_multiset_ensures();
    reordered.to_multiset_ensures();
    assert(candidates.to_multiset().count(candidates[left]) > 0);
    assert(reordered.contains(candidates[left]));
    assert(reordered.to_multiset().count(reordered[right]) > 0);
    assert(candidates.contains(reordered[right]));
    law_key_order_is_total(key_of(candidates[left].info), key_of(reordered[right].info));
}

/// Where any candidate is suitable, one is selected in whatever order they come.
pub proof fn law_suitable_candidates_are_found(
    candidates: Seq<AdapterCandidate>,
    requirements: GpuRequirements,
    index: int,
)
    requires
        0 <= index < candidates.len(),
        suitable(candidates[index], requirements),
    ensures
        exists|i: int| is_selected(candidates, requirements, i),
    decreases candidates.len(),
{
    let last = candidates.len() - 1;
    let earlier = candidates.drop_last();
    if exists|i: int| 0 <= i < earlier.len() && suitable(#[trigger] earlier[i], requirements) {
        let i = choose|i: int| 0 <= i < earlier.len() && suitable(#[trigger] earlier[i], requirements);
        law_suitable_candidates_are_found(earlier, requirements, i);
        let best = choose|i: int| is_selected(earlier, requirements, i);
        let best_key = key_of(earlier[best].info);
        let last_key = key_of(candidates[last].info);
        if suitable(candidates[last], requirements) && key_before(last_key, best_key) {
            assert forall|j: int|
                0 <= j < candidates.len() && suitable(#[trigger] candidates[j], requirements) implies {
                &&& !key_before(key_of(candidates[j].info), last_key)
                &&& j < last ==> key_before(last_key, key_of(candidates[j].info))
            } by {
                let key = key_of(candidates[j].info);
                law_key_order_is_total(key, last_key);
                if j < last {
                    assert(suitable(earlier[j], requirements));
                    law_key_order_is_total(key, best_key);
                    if key != best_key {
                        law_key_order_is_transitive(last_key, best_key, key);
                    }
                }
            }
            assert(is_selected(candidates, requirements, last));
        } else {
            assert forall|j: int|
                0 <= j < candidates.len() && suitable(#[trigger] candidates[j], requirements) implies {
                &&& !key_before(key_of(candidates[j].info), best_key)
                &&& j < best ==> key_before(best_key, key_of(candidates[j].info))
            } by {
                if j < last {
                    assert(suitable(earlier[j], requirements));
                }
            }
            assert(is_selected(candidates, requirements, best));
        }
    } else {
        assert forall|j: int| 0 <= j < last implies !suitable(#[trigger] candidates[j], requirements) by {
            assert(!suitable(earlier[j], requirements));
        }
        law_key_order_is_total(key_of(candidates[last].info), key_of(candidates[last].info));
        assert(is_selected(candidates, requirements, last));
    }
}

/// No suitable device of a better kind than the selected one exists: discrete GPUs come
/// before integrated, virtual and other ones.
pub proof fn law_better_kinds_are_preferred(
    candidates: Seq<AdapterCandidate>,
    requirements: GpuRequirements,
    selected: int,
    other: int,
)
    requires
        is_selected(candidates, requirements, selected),
        0 <= other < candidates.len(),
        suitable(candidates[other], requirements),
    ensures
        device_rank(candidates[selected].info.device_type) <= device_rank(candidates[other].info.device_type),
{
}

/// The order of the kinds: a device is selected only if no suitable device of a better kind
/// exists. Discrete GPUs come first, then integrated ones, then virtual ones, then others; a
/// CPU is never selected.
pub proof fn law_kinds_come_in_order(
    candidates: Seq<AdapterCandidate>,
    requirements: GpuRequirements,
    selected: int,
    other: int,
)
    requires
        is_selected(candidates, requirements, selected),
        0 <= other < candidates.len(),
        suitable(candidates[other], requirements),
    ensures
        ({
            let kind = candidates[selected].info.device_type;
            let other_kind = candidates[other].info.device_type;
            &&& other_kind is DiscreteGpu ==> kind is DiscreteGpu
            &&& other_kind is IntegratedGpu ==> kind is DiscreteGpu || kind is IntegratedGpu
            &&& other_kind is VirtualGpu ==> !(kind is Other)
            &&& !(kind is Cpu)
        }),
{
}

/// The order of the backends among devices of one kind: Metal, Direct3D 12, Vulkan, the
/// browser's WebGPU, OpenGL; the backend that does nothing is never selected.
pub proof fn law_backends_come_in_order(
    candidates: Seq<AdapterCandidate>,
    requirements: GpuRequirements,
    selected: int,
    other: int,
)
    requires
        is_selected(candidates, requirements, selected),
        0 <= other < candidates.len(),
        suitable(candidates[other], requirements),
        candidates[other].info.device_type == candidates[selected].info.device_type,
    ensures
        ({
            let backend = candidates[selected].info.backend;
            let other_backend = candidates[other].info.backend;
            &&& other_backend is Metal ==> backend is Metal
            &&& other_backend is Dx12 ==> backend is Metal || backend is Dx12
            &&& other_backend is Vulkan ==> !(backend is BrowserWebGpu || backend is Gl)
            &&& other_backend is BrowserWebGpu ==> !(backend is Gl)
            &&& !(backend is Noop)
        }),
{
}

/// Among devices of one kind and backend the numbers decide, vendor before device, the lower one
/// first; among those with the same numbers the texts decide, bus before name before driver
/// before driver version; and among those that agree in all of this the one enumerated first.
pub proof fn law_ties_are_broken_by_numbers_and_texts(
    candidates: Seq<AdapterCandidate>,
    requirements: GpuRequirements,
    selected: int,
    other: int,
)
    requires
        is_selected(candidates, requirements, selected),
        0 <= other < candidates.len(),
        suitable(candidates[other], requirements),
        candidates[other].info.device_type == candidates[selected].info.device_type,
        candidates[other].info.backend == candidates[selected].info.backend,
    ensures
        ({
            let best = candidates[selected].info;
            let info = candidates[other].info;
            let same_vendor = best.vendor == info.vendor;
            let same_device = same_vendor && best.device == info.device;
            let same_bus = same_device && best.device_pci_bus_id@ == info.device_pci_bus_id@;
            let same_name = same_bus && best.name@ == info.name@;
            let same_driver = same_name && best.driver@ == info.driver@;
            &&& best.vendor <= info.vendor
            &&& same_vendor ==> best.device <= info.device
            &&& same_device ==> !text::text_before(info.device_pci_bus_id@, best.device_pci_bus_id@)
            &&& same_bus ==> !text::text_before(info.name@, best.name@)
            &&& same_name ==> !text::text_before(info.driver@, best.driver@)
            &&& same_driver ==> !text::text_before(info.driver_info@, best.driver_info@)
            &&& same_driver && best.driver_info@ == info.driver_info@ ==> selected <= other
        }),
{
    let best = candidates[selected].info;
    let info = candidates[other].info;
    text::lemma_text_before_total(info.device_pci_bus_id@, best.device_pci_bus_id@);
    text::lemma_text_before_total(info.name@, best.name@);
    text::lemma_text_before_total(info.driver@, best.driver@);
    text::lemma_text_before_total(info.driver_info@, best.driver_info@);
}

/// Whatever calls itself by the name of a software renderer, in its name, its driver or its
/// driver version, renders in software; and nothing else does but CPUs and the backend that
/// does nothing.
pub proof fn law_software_renderers_are_known_by_name(info: AdapterInfo)
    ensures
        ({
            let identity = lowercase(info.name@ + seq![' '] + info.driver@ + seq![' '] + info.driver_info@);
            software_adapter(info) <==> {
                ||| info.device_type is Cpu
                ||| info.backend is Noop
                ||| exists|marker: Seq<char>|
                    {
                        &&& marker == "swiftshader"@ || marker == "llvmpipe"@ || marker == "lavapipe"@ || marker
                            == "software"@
                        &&& #[trigger] text::contains_text(identity, marker)
                    }
            }
        }),
{
    let identity = lowercase(info.name@ + seq![' '] + info.driver@ + seq![' '] + info.driver_info@);
    assert(identity == lowercase(identity_text(info)));
}

/// A name of a software renderer is found wherever it stands.
pub proof fn law_software_names_are_found_anywhere(before: Seq<char>, after: Seq<char>)
    ensures
        software_identity(before + "swiftshader"@ + after),
        software_identity(before + "llvmpipe"@ + after),
        software_identity(before + "lavapipe"@ + after),
        software_identity(before + "software"@ + after),
{
    text::law_parts_are_contained(before, "swiftshader"@, after);
    text::law_parts_are_contained(before, "llvmpipe"@, after);
    text::law_parts_are_contained(before, "lavapipe"@, after);
    text::law_parts_are_contained(before, "software"@, after);
}

/// A hardware device is suitable exactly if it has every feature that is required and grants
/// every limit: no less than the required maxima, no more than the required offset alignments.
pub proof fn law_suitable_devices_grant_what_is_required(
    candidate: AdapterCandidate,
    requirements: GpuRequirements,
)
    requires
        !software_adapter(candidate.info),
    ensures
        suitable(candidate, requirements) <==> {
            &&& forall|flag: int| #[trigger]
                feature_flags(requirements@.features).contains(flag) ==> feature_flags(
                    candidate.features,
                ).contains(flag)
            &&& forall|i: int|
                #![trigger limit_values(requirements@.limits)[i]]
                0 <= i < 57 && i != 24 && i != 25 ==> limit_values(requirements@.limits)[i] <= limit_values(
                    candidate.limits,
                )[i]
            &&& limit_values(requirements@.limits)[24] >= limit_values(candidate.limits)[24]
            &&& limit_values(requirements@.limits)[25] >= limit_values(candidate.limits)[25]
        },
{
    let required = limit_values(requirements@.limits);
    let granted = limit_values(candidate.limits);
    if limits_within(required, granted) {
        assert forall|i: int| #![trigger required[i]] 0 <= i < 57 && i != 24 && i != 25 implies required[i]
            <= granted[i] by {
            assert(!lower_is_better(i));
        }
        assert(required[24] >= granted[24]) by {
            assert(lower_is_better(24));
        }
        assert(required[25] >= granted[25]) by {
            assert(lower_is_better(25));
        }
    }
}

/// The key of a device holds the places of its kind and of its backend in their orders, and
/// what the device reports of itself as it is.
pub proof fn law_keys_hold_what_devices_report(info: AdapterInfo, key: AdapterSelectionKey)
    requires
        key_view(key) == key_of(info),
    ensures
        key.0 < 5 && seq![
            DeviceType::DiscreteGpu,
            DeviceType::IntegratedGpu,
            DeviceType::VirtualGpu,
            DeviceType::Other,
            DeviceType::Cpu,
        ][key.0 as int] == info.device_type,
        key.1 < 6 && seq![
            Backend::Metal,
            Backend::Dx12,
            Backend::Vulkan,
            Backend::BrowserWebGpu,
            Backend::Gl,
            Backend::Noop,
        ][key.1 as int] == info.backend,
        key.2 == info.vendor,
        key.3 == info.device,
        key.4@ == info.device_pci_bus_id@,
        key.5@ == info.name@,
        key.6@ == info.driver@,
        key.7@ == info.driver_info@,
{
}

}
