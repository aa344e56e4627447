//! Whether a physical device meets the requirements, and the choice of device.
//!
//! The driver is queried elsewhere; these functions decide on what it reported.
use vstd::prelude::*;

use crate::error::{Error, ErrorView, Unsuitable, UnsuitableView};
use crate::queue_indices::{select_queues, QueueFamily, QueueIndices};
use crate::requirements::{
    check_physical_device_features, ext_view, feature, features_cover, first_named, internal_requirements,
    internal_extensions, internal_features, internal_formats, merge_extensions, DeviceFeatures, DeviceRequirements, FormatProperties, FEATURE_COUNT,
};

verus! {

/// Memory heap flag: the heap is local to the device.
pub const MEMORY_HEAP_DEVICE_LOCAL: u32 = 0x1;

/// A memory heap of a physical device.
#[derive(Debug, Clone, Copy, PartialEq, Eq, Structural)]
pub struct MemoryHeap {
    pub size: u64,
    /// Heap flags (`MEMORY_HEAP_*`).
    pub flags: u32,
}

/// The device limits that suitability reads.
#[derive(Debug, Clone, Copy, PartialEq, Eq, Structural)]
pub struct DeviceLimits {
    pub max_push_constants_size: u32,
    pub max_color_attachments: u32,
    pub max_framebuffer_layers: u32,
}

/// What the driver reports about one physical device.
#[derive(Debug)]
pub struct DeviceInfo {
    pub features: DeviceFeatures,
    /// The properties the device supports for each required format, in the order of
    /// the requirements' formats.
    pub format_properties: Vec<FormatProperties>,
    pub memory_heaps: Vec<MemoryHeap>,
    /// Available device extensions and their spec versions.
    pub extensions: Vec<(String, u32)>,
    pub limits: DeviceLimits,
    pub queue_families: Vec<QueueFamily>,
    /// For each queue family, whether it can present to the surface.
    pub present_support: Vec<bool>,
}

/// Total size of the device-local heaps among the first `n` heaps.
pub open spec fn device_local_total(heaps: Seq<MemoryHeap>, n: int) -> int
    decreases n,
{
    if n <= 0 || n > heaps.len() {
        0
    } else {
        device_local_total(heaps, n - 1) + if heaps[n - 1].flags & MEMORY_HEAP_DEVICE_LOCAL != 0 {
            heaps[n - 1].size as int
        } else {
            0
        }
    }
}

/// The first required format, from index `i` on, that the device does not fully
/// support in linear tiling, optimal tiling or buffers (checked in that order).
pub open spec fn format_failure(req: Seq<(u32, FormatProperties)>, sup: Seq<FormatProperties>, i: int) -> Option<UnsuitableView>
    decreases req.len() - i,
{
    if i < 0 || i >= req.len() {
        None
    } else {
        let (f, r) = req[i];
        let s = sup[i];
        if r.linear_tiling_features & !s.linear_tiling_features != 0 {
            Some(UnsuitableView::LinearTiling {
                format: f,
                required: r.linear_tiling_features,
                supported: s.linear_tiling_features,
            })
        } else if r.optimal_tiling_features & !s.optimal_tiling_features != 0 {
            Some(UnsuitableView::OptimalTiling {
                format: f,
                required: r.optimal_tiling_features,
                supported: s.optimal_tiling_features,
            })
        } else if r.buffer_features & !s.buffer_features != 0 {
            Some(UnsuitableView::BufferFeatures {
                format: f,
                required: r.buffer_features,
                supported: s.buffer_features,
            })
        } else {
            format_failure(req, sup, i + 1)
        }
    }
}

/// The first required extension, from index `i` on, that is missing or too old. Each
/// is looked up by the first available extension of the same name.
pub open spec fn extension_failure(req: Seq<(Seq<char>, u32)>, avail: Seq<(Seq<char>, u32)>, i: int) -> Option<UnsuitableView>
    decreases req.len() - i,
{
    if i < 0 || i >= req.len() {
        None
    } else {
        match first_named(avail, req[i].0, 0) {
            Some(j) => if avail[j].1 >= req[i].1 {
                extension_failure(req, avail, i + 1)
            } else {
                Some(UnsuitableView::ExtensionTooOld { name: req[i].0, available: avail[j].1, required: req[i].1 })
            },
            None => Some(UnsuitableView::ExtensionMissing { name: req[i].0 }),
        }
    }
}

/// The verdict on a device: its queue choice when it is suitable, otherwise the
/// first check that fails, in the order features, formats, memory, extensions,
/// push constants, color attachments, framebuffer layers, queues.
pub open spec fn suitability(d: DeviceInfo, req: DeviceRequirements) -> Result<QueueIndices, UnsuitableView> {
    if !features_cover(d.features, req.features_required) {
        Err(UnsuitableView::MissingFeature)
    } else if format_failure(req.formats_required@, d.format_properties@, 0) is Some {
        Err(format_failure(req.formats_required@, d.format_properties@, 0)->0)
    } else if device_local_total(d.memory_heaps@, d.memory_heaps@.len() as int) < req.gpu_memory_required {
        Err(UnsuitableView::NotEnoughMemory)
    } else if extension_failure(req.extensions(), ext_view(d.extensions@), 0) is Some {
        Err(extension_failure(req.extensions(), ext_view(d.extensions@), 0)->0)
    } else if d.limits.max_push_constants_size < req.max_push_constants_size {
        Err(UnsuitableView::PushConstantsTooSmall {
            available: d.limits.max_push_constants_size,
            required: req.max_push_constants_size,
        })
    } else if d.limits.max_color_attachments < 1 {
        Err(UnsuitableView::NoColorAttachment)
    } else if d.limits.max_framebuffer_layers < 1 {
        Err(UnsuitableView::NoFramebufferLayer)
    } else {
        match select_queues(d.queue_families@, d.present_support@) {
            Ok(q) => Ok(q),
            Err(u) => Err(u@),
        }
    }
}

/// The device supports every required format in every required use: for each required
/// format, the features required in linear tiling, in optimal tiling and in buffers
/// are all among those the device reports for it.
pub open spec fn formats_supported(req: Seq<(u32, FormatProperties)>, sup: Seq<FormatProperties>) -> bool {
    forall|i: int| 0 <= i < req.len() ==> {
        &&& (#[trigger] req[i]).1.linear_tiling_features & !sup[i].linear_tiling_features == 0
        &&& req[i].1.optimal_tiling_features & !sup[i].optimal_tiling_features == 0
        &&& req[i].1.buffer_features & !sup[i].buffer_features == 0
    }
}

/// The device meets the requirements: every required feature bit is set in its
/// features, every required format is supported in every required use, its
/// device-local heaps hold the required memory, its push-constant area is large
/// enough, and it can render to a color attachment and a framebuffer layer.
pub open spec fn requirements_met(d: DeviceInfo, req: DeviceRequirements) -> bool {
    &&& forall|j: u64| j < FEATURE_COUNT && (req.features_required.bits >> j) & 1 == 1
        ==> #[trigger] ((d.features.bits >> j) & 1) == 1
    &&& formats_supported(req.formats_required@, d.format_properties@)
    &&& device_local_total(d.memory_heaps@, d.memory_heaps@.len() as int) >= req.gpu_memory_required
    &&& d.limits.max_push_constants_size >= req.max_push_constants_size
    &&& d.limits.max_color_attachments >= 1
    &&& d.limits.max_framebuffer_layers >= 1
}

/// When no required format from `i` on fails, every one from `i` on is supported.
proof fn lemma_format_failure_none(req: Seq<(u32, FormatProperties)>, sup: Seq<FormatProperties>, i: int)
    requires
        0 <= i,
        format_failure(req, sup, i) is None,
    ensures
        forall|k: int| i <= k < req.len() ==> {
            &&& (#[trigger] req[k]).1.linear_tiling_features & !sup[k].linear_tiling_features == 0
            &&& req[k].1.optimal_tiling_features & !sup[k].optimal_tiling_features == 0
            &&& req[k].1.buffer_features & !sup[k].buffer_features == 0
        },
    decreases req.len() - i,
{
    if i < req.len() {
        lemma_format_failure_none(req, sup, i + 1);
    }
}

/// A device is found suitable only when it meets every requirement: a device lacking a
/// required feature, a required format feature (in linear tiling, optimal tiling or
/// buffers), memory, push-constant space, a color attachment or a framebuffer layer
/// is never accepted.
pub proof fn lemma_suitable_meets_requirements(d: DeviceInfo, req: DeviceRequirements)
    ensures
        suitability(d, req) is Ok ==> requirements_met(d, req),
{
    if suitability(d, req) is Ok {
        lemma_format_failure_none(req.formats_required@, d.format_properties@, 0);
        assert forall|j: u64| j < FEATURE_COUNT && (req.features_required.bits >> j) & 1 == 1
            implies #[trigger] ((d.features.bits >> j) & 1) == 1 by {
            assert(feature(req.features_required.bits, j));
        }
    }
}

/// Entry `j` is the first offered extension named `name`.
pub open spec fn first_offered(avail: Seq<(Seq<char>, u32)>, name: Seq<char>, j: int) -> bool {
    &&& 0 <= j < avail.len()
    &&& avail[j].0 == name
    &&& forall|k: int| 0 <= k < j ==> avail[k].0 != name
}

/// Required extension `i` is offered: the first offered extension of its name is at
/// the required version or later.
pub open spec fn extension_offered(req: Seq<(Seq<char>, u32)>, avail: Seq<(Seq<char>, u32)>, i: int) -> bool {
    exists|j: int| #[trigger] first_offered(avail, req[i].0, j) && avail[j].1 >= req[i].1
}

/// Every required extension is offered at the required version or later.
pub open spec fn extensions_offered(req: Seq<(Seq<char>, u32)>, avail: Seq<(Seq<char>, u32)>) -> bool {
    forall|i: int| 0 <= i < req.len() ==> #[trigger] extension_offered(req, avail, i)
}

/// `first_named` finds the first entry of the name, or none when no entry has it.
proof fn lemma_first_named_is_first(er: Seq<(Seq<char>, u32)>, name: Seq<char>, i: int)
    requires
        0 <= i,
    ensures
        first_named(er, name, i) matches Some(k) ==> i <= k < er.len() && er[k].0 == name && forall|m: int|
            i <= m < k ==> er[m].0 != name,
        first_named(er, name, i) is None ==> forall|m: int| i <= m < er.len() ==> er[m].0 != name,
    decreases er.len() - i,
{
    if i < er.len() && er[i].0 != name {
        lemma_first_named_is_first(er, name, i + 1);
    }
}

/// Required extension `i` is offered exactly when the first offered extension of its
/// name is at the required version or later.
proof fn lemma_extension_offered(req: Seq<(Seq<char>, u32)>, avail: Seq<(Seq<char>, u32)>, i: int)
    requires
        0 <= i < req.len(),
    ensures
        extension_offered(req, avail, i) <==> (first_named(avail, req[i].0, 0) matches Some(j) && avail[j].1
            >= req[i].1),
{
    lemma_first_named_is_first(avail, req[i].0, 0);
    match first_named(avail, req[i].0, 0) {
        Some(j) => {
            assert(first_offered(avail, req[i].0, j));
            assert forall|j2: int| #[trigger] first_offered(avail, req[i].0, j2) implies j2 == j by {
                if j2 < j {
                    assert(avail[j2].0 != req[i].0);
                } else if j < j2 {
                    assert(avail[j].0 != req[i].0);
                }
            }
        },
        None => {
            assert forall|j2: int| !#[trigger] first_offered(avail, req[i].0, j2) by {
                if 0 <= j2 < avail.len() {
                    assert(avail[j2].0 != req[i].0);
                }
            }
        },
    }
}

/// No required extension from `i` on fails exactly when each of them is offered at a
/// sufficient version.
proof fn lemma_extension_failure_none(req: Seq<(Seq<char>, u32)>, avail: Seq<(Seq<char>, u32)>, i: int)
    requires
        0 <= i,
    ensures
        extension_failure(req, avail, i) is None <==> forall|k: int| i <= k < req.len()
            ==> #[trigger] extension_offered(req, avail, k),
    decreases req.len() - i,
{
    if i < req.len() {
        lemma_extension_failure_none(req, avail, i + 1);
        lemma_extension_offered(req, avail, i);
        if extension_failure(req, avail, i) is None {
            assert forall|k: int| i <= k < req.len() implies #[trigger] extension_offered(req, avail, k) by {
                if k > i {
                    assert(i + 1 <= k < req.len());
                }
            }
        } else if extension_offered(req, avail, i) {
            let k = choose|k: int| i + 1 <= k < req.len() && !#[trigger] extension_offered(req, avail, k);
            assert(i <= k < req.len() && !extension_offered(req, avail, k));
        }
    }
}

/// When every required format from `i` on is supported in every required use, no
/// format fails.
proof fn lemma_formats_supported_no_failure(req: Seq<(u32, FormatProperties)>, sup: Seq<FormatProperties>, i: int)
    requires
        0 <= i,
        forall|k: int| i <= k < req.len() ==> {
            &&& (#[trigger] req[k]).1.linear_tiling_features & !sup[k].linear_tiling_features == 0
            &&& req[k].1.optimal_tiling_features & !sup[k].optimal_tiling_features == 0
            &&& req[k].1.buffer_features & !sup[k].buffer_features == 0
        },
    ensures
        format_failure(req, sup, i) is None,
    decreases req.len() - i,
{
    if i < req.len() {
        assert(req[i] == req[i]);
        lemma_formats_supported_no_failure(req, sup, i + 1);
    }
}

/// A device is accepted exactly when it meets every requirement, offers every required
/// extension at a sufficient version, and its queue families allow a choice of queues;
/// the queues chosen are then the ones the choice gives.
pub proof fn lemma_suitability_decided_by_requirements(d: DeviceInfo, req: DeviceRequirements)
    ensures
        suitability(d, req) is Ok <==> requirements_met(d, req) && extensions_offered(req.extensions(),
            ext_view(d.extensions@)) && select_queues(d.queue_families@, d.present_support@) is Ok,
        suitability(d, req) matches Ok(q) ==> select_queues(d.queue_families@, d.present_support@) == Ok::<
            QueueIndices,
            crate::error::Unsuitable,
        >(q),
{
    lemma_suitable_meets_requirements(d, req);
    lemma_extension_failure_none(req.extensions(), ext_view(d.extensions@), 0);
    if requirements_met(d, req) {
        assert forall|i: u64| i < FEATURE_COUNT && feature(req.features_required.bits, i) implies feature(
            d.features.bits,
            i,
        ) by {
            assert(((d.features.bits >> i) & 1) == 1);
        }
        assert(features_cover(d.features, req.features_required));
        lemma_formats_supported_no_failure(req.formats_required@, d.format_properties@, 0);
    }
}

/// The device report fits the requirements it is checked against, and its sums fit
/// in machine integers.
pub open spec fn info_fits(d: DeviceInfo, req: DeviceRequirements) -> bool {
    &&& d.format_properties@.len() == req.formats_required@.len()
    &&& d.present_support@.len() == d.queue_families@.len()
    &&& d.queue_families@.len() <= u32::MAX
    &&& forall|n: int| 0 <= n <= d.memory_heaps@.len() ==> #[trigger] device_local_total(d.memory_heaps@, n) <= u64::MAX
}

/// Whether `a` has a bit that `b` lacks.
fn lacks(a: u32, b: u32) -> (r: bool)
    ensures
        r == (a & !b != 0),
{
    a & !b != 0
}

/// Checks the required formats from index `i` on.
fn check_formats(req: &Vec<(u32, FormatProperties)>, sup: &Vec<FormatProperties>) -> (r: Option<Unsuitable>)
    requires
        sup@.len() == req@.len(),
    ensures
        r matches Some(u) ==> format_failure(req@, sup@, 0) == Some(u@),
        r is None ==> format_failure(req@, sup@, 0) is None,
{
    let mut i: usize = 0;
    while i < req.len()
        invariant
            0 <= i <= req@.len(),
            sup@.len() == req@.len(),
            format_failure(req@, sup@, 0) == format_failure(req@, sup@, i as int),
        decreases req.len() - i,
    {
        let (format, r) = req[i];
        let s = sup[i];
        if lacks(r.linear_tiling_features, s.linear_tiling_features) {
            return Some(Unsuitable::LinearTiling {
                format,
                required: r.linear_tiling_features,
                supported: s.linear_tiling_features,
            });
        }
        if lacks(r.optimal_tiling_features, s.optimal_tiling_features) {
            return Some(Unsuitable::OptimalTiling {
                format,
                required: r.optimal_tiling_features,
                supported: s.optimal_tiling_features,
            });
        }
        if lacks(r.buffer_features, s.buffer_features) {
            return Some(Unsuitable::BufferFeatures {
                format,
                required: r.buffer_features,
                supported: s.buffer_features,
            });
        }
        i = i + 1;
    }
    None
}

/// The first available extension with the given name.
fn find_named(avail: &Vec<(String, u32)>, name: &String) -> (r: Option<usize>)
    ensures
        r matches Some(j) ==> first_named(ext_view(avail@), name@, 0) == Some(j as int) && j < avail@.len(),
        r is None ==> first_named(ext_view(avail@), name@, 0) is None,
{
    let ghost av = ext_view(avail@);
    let mut j: usize = 0;
    while j < avail.len()
        invariant
            0 <= j <= avail@.len(),
            av == ext_view(avail@),
            first_named(av, name@, 0) == first_named(av, name@, j as int),
        decreases avail.len() - j,
    {
        if avail[j].0 == *name {
            assert(av[j as int].0 == name@);
            return Some(j);
        }
        j = j + 1;
    }
    None
}

/// Checks the required extensions against the available ones.
fn check_extensions(req: &Vec<(String, u32)>, avail: &Vec<(String, u32)>) -> (r: Option<Unsuitable>)
    ensures
        r matches Some(u) ==> extension_failure(ext_view(req@), ext_view(avail@), 0) == Some(u@),
        r is None ==> extension_failure(ext_view(req@), ext_view(avail@), 0) is None,
{
    let ghost rq = ext_view(req@);
    let ghost av = ext_view(avail@);
    let mut i: usize = 0;
    while i < req.len()
        invariant
            0 <= i <= req@.len(),
            rq == ext_view(req@),
            av == ext_view(avail@),
            extension_failure(rq, av, 0) == extension_failure(rq, av, i as int),
        decreases req.len() - i,
    {
        let found = find_named(avail, &req[i].0);
        match found {
            Some(j) => {
                if avail[j].1 < req[i].1 {
                    return Some(Unsuitable::ExtensionTooOld {
                        name: req[i].0.clone(),
                        available: avail[j].1,
                        required: req[i].1,
                    });
                }
            },
            None => {
                return Some(Unsuitable::ExtensionMissing { name: req[i].0.clone() });
            },
        }
        i = i + 1;
    }
    None
}

/// Checks whether the device described by `info` meets `requirements`, and chooses its
/// queues when it does; otherwise says which check failed first.
pub fn check_device_suitability(info: &DeviceInfo, requirements: &DeviceRequirements) -> (r: Result<QueueIndices, Error>)
    requires
        info_fits(*info, *requirements),
    ensures
        match suitability(*info, *requirements) {
            Ok(q) => r == Ok::<QueueIndices, Error>(q),
            Err(u) => r matches Err(e) && e@ == ErrorView::DeviceNotSuitable(u),
        },
        r is Ok ==> requirements_met(*info, *requirements),
{
    proof {
        lemma_suitable_meets_requirements(*info, *requirements);
    }
    if !check_physical_device_features(&info.features, &requirements.features_required) {
        return Err(Error::DeviceNotSuitable(Unsuitable::MissingFeature));
    }
    if let Some(u) = check_formats(&requirements.formats_required, &info.format_properties) {
        return Err(Error::DeviceNotSuitable(u));
    }
    let mut device_memory: u64 = 0;
    let mut h: usize = 0;
    while h < info.memory_heaps.len()
        invariant
            0 <= h <= info.memory_heaps@.len(),
            device_memory == device_local_total(info.memory_heaps@, h as int),
            forall|n: int| 0 <= n <= info.memory_heaps@.len() ==> #[trigger] device_local_total(info.memory_heaps@, n)
                <= u64::MAX,
        decreases info.memory_heaps.len() - h,
    {
        let heap = info.memory_heaps[h];
        assert(device_local_total(info.memory_heaps@, h as int + 1) <= u64::MAX);
        if heap.flags & MEMORY_HEAP_DEVICE_LOCAL != 0 {
            device_memory = device_memory + heap.size;
        }
        h = h + 1;
    }
    if device_memory < requirements.gpu_memory_required {
        return Err(Error::DeviceNotSuitable(Unsuitable::NotEnoughMemory));
    }
    if let Some(u) = check_extensions(&requirements.extensions_required, &info.extensions) {
        return Err(Error::DeviceNotSuitable(u));
    }
    if info.limits.max_push_constants_size < requirements.max_push_constants_size {
        return Err(Error::DeviceNotSuitable(Unsuitable::PushConstantsTooSmall {
            available: info.limits.max_push_constants_size,
            required: requirements.max_push_constants_size,
        }));
    }
    if info.limits.max_color_attachments < 1 {
        return Err(Error::DeviceNotSuitable(Unsuitable::NoColorAttachment));
    }
    if info.limits.max_framebuffer_layers < 1 {
        return Err(Error::DeviceNotSuitable(Unsuitable::NoFramebufferLayer));
    }
    QueueIndices::new(&info.queue_families, &info.present_support)
}

/// The requirements a device is checked against: those of the application plus the
/// renderer's own.
pub fn device_requirements(requirements: &DeviceRequirements, debug_build: bool) -> (r: DeviceRequirements)
    ensures
        r.extensions() == merge_extensions(requirements.extensions(), internal_extensions()),
        r.formats_required@ == requirements.formats_required@ + internal_formats(),
        r.features_required.bits == requirements.features_required.bits | internal_features(debug_build),
        r.gpu_memory_required == requirements.gpu_memory_required,
        r.max_push_constants_size == requirements.max_push_constants_size,
        r.num_descriptor_sets_required == requirements.num_descriptor_sets_required,
        r.num_uniform_buffers_required == requirements.num_uniform_buffers_required,
        r.num_uniform_texel_buffers_required == requirements.num_uniform_texel_buffers_required,
        r.num_dynamic_uniform_buffers_required == requirements.num_dynamic_uniform_buffers_required,
        r.num_samplers_required == requirements.num_samplers_required,
        r.num_sampled_images_required == requirements.num_sampled_images_required,
        r.num_combined_image_samplers_required == requirements.num_combined_image_samplers_required,
{
    let internal = internal_requirements(debug_build);
    requirements.add(&internal)
}

/// Chooses the first suitable device among `devices` (described against the combined
/// requirements), with its queues; `NoSuitableDevice` when none is suitable.
pub fn find_suitable_device(devices: &Vec<DeviceInfo>, requirements: &DeviceRequirements) -> (r: Result<(usize, QueueIndices), Error>)
    requires
        forall|d: int| 0 <= d < devices@.len() ==> info_fits(#[trigger] devices@[d], *requirements),
    ensures
        r matches Ok((d, q)) ==> d < devices@.len() && suitability(devices@[d as int], *requirements) == Ok::<
            QueueIndices,
            UnsuitableView,
        >(q) && forall|j: int| 0 <= j < d ==> suitability(#[trigger] devices@[j], *requirements) is Err,
        r is Err ==> r == Err::<(usize, QueueIndices), Error>(Error::NoSuitableDevice) && forall|j: int|
            0 <= j < devices@.len() ==> suitability(#[trigger] devices@[j], *requirements) is Err,
        r matches Ok((d, q)) ==> requirements_met(devices@[d as int], *requirements),
{
    proof {
        assert forall|d: int| 0 <= d < devices@.len() implies (suitability(#[trigger] devices@[d], *requirements) is Ok
            ==> requirements_met(devices@[d], *requirements)) by {
            lemma_suitable_meets_requirements(devices@[d], *requirements);
        }
    }
    let mut d: usize = 0;
    while d < devices.len()
        invariant
            0 <= d <= devices@.len(),
            forall|x: int| 0 <= x < devices@.len() ==> info_fits(#[trigger] devices@[x], *requirements),
            forall|j: int| 0 <= j < d ==> suitability(#[trigger] devices@[j], *requirements) is Err,
        decreases devices.len() - d,
    {
        assert(info_fits(devices@[d as int], *requirements));
        match check_device_suitability(&devices[d], requirements) {
            Ok(q) => {
                return Ok((d, q));
            },
            Err(_) => {},
        }
        d = d + 1;
    }
    Err(Error::NoSuitableDevice)
}

} // verus!
