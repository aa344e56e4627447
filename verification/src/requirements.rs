//! The requirements that a physical device must meet to be usable, and how
//! requirements of several parts of the application combine.
use vstd::prelude::*;

verus! {

/// Number of device features (Vulkan 1.0 `VkPhysicalDeviceFeatures`). Feature `i` is
/// bit `i` of a `DeviceFeatures`, in the order in which Vulkan declares them
/// (robust buffer access first, inherited queries last).
pub const FEATURE_COUNT: u64 = 55;
/// Feature bit: robust buffer access.
pub const FEATURE_ROBUST_BUFFER_ACCESS: u64 = 0;
/// Feature bit: sampler anisotropy.
pub const FEATURE_SAMPLER_ANISOTROPY: u64 = 19;

/// Format code: `R8G8B8A8_UNORM`.
pub const FORMAT_R8G8B8A8_UNORM: u32 = 37;
/// Format code: `B8G8R8A8_UNORM`.
pub const FORMAT_B8G8R8A8_UNORM: u32 = 44;
/// Format code: `B8G8R8A8_SRGB`.
pub const FORMAT_B8G8R8A8_SRGB: u32 = 50;
/// Format code: `A2B10G10R10_UNORM_PACK32`.
pub const FORMAT_A2B10G10R10_UNORM_PACK32: u32 = 64;
/// Format code: `R16G16B16A16_SFLOAT`.
pub const FORMAT_R16G16B16A16_SFLOAT: u32 = 97;
/// Format code: `D32_SFLOAT`.
pub const FORMAT_D32_SFLOAT: u32 = 126;

/// Format feature flag: sampled image.
pub const FORMAT_FEATURE_SAMPLED_IMAGE: u32 = 0x1;
/// Format feature flag: color attachment.
pub const FORMAT_FEATURE_COLOR_ATTACHMENT: u32 = 0x80;
/// Format feature flag: depth/stencil attachment.
pub const FORMAT_FEATURE_DEPTH_STENCIL_ATTACHMENT: u32 = 0x200;

/// The most commonly supported depth format; floating point, so that a reversed
/// depth buffer works.
pub const DEPTH_FORMAT: u32 = FORMAT_D32_SFLOAT;
pub const DIFFUSE_FORMAT: u32 = FORMAT_A2B10G10R10_UNORM_PACK32;
pub const NORMALS_FORMAT: u32 = FORMAT_A2B10G10R10_UNORM_PACK32;
pub const MATERIAL_FORMAT: u32 = FORMAT_R8G8B8A8_UNORM;
pub const SHADING_FORMAT: u32 = FORMAT_R16G16B16A16_SFLOAT;
pub const BLUR_FORMAT: u32 = FORMAT_R16G16B16A16_SFLOAT;

/// A set of device features, one bit per feature.
#[derive(Debug, Clone, Copy, PartialEq, Eq, Structural)]
pub struct DeviceFeatures {
    pub bits: u64,
}

/// Feature `i` is in the set `bits`.
pub open spec fn feature(bits: u64, i: u64) -> bool {
    (bits >> i) & 1 == 1
}

/// Every feature required by `req` is in `has`.
pub open spec fn features_cover(has: DeviceFeatures, req: DeviceFeatures) -> bool {
    forall|i: u64| i < FEATURE_COUNT ==> feature(req.bits, i) ==> feature(has.bits, i)
}

/// The features that a format supports in each use.
#[derive(Debug, Clone, Copy, PartialEq, Eq, Structural)]
pub struct FormatProperties {
    pub linear_tiling_features: u32,
    pub optimal_tiling_features: u32,
    pub buffer_features: u32,
}

/// The requirements for a physical device to be usable by the application.
#[derive(Debug)]
pub struct DeviceRequirements {
    /// Extensions required and the version number they must be at or beyond.
    pub extensions_required: Vec<(String, u32)>,
    /// Physical device features that are required.
    pub features_required: DeviceFeatures,
    /// Formats that are required, with the properties required of each.
    pub formats_required: Vec<(u32, FormatProperties)>,
    pub num_descriptor_sets_required: u32,
    pub num_uniform_buffers_required: u32,
    pub num_uniform_texel_buffers_required: u32,
    pub num_dynamic_uniform_buffers_required: u32,
    pub num_samplers_required: u32,
    pub num_sampled_images_required: u32,
    pub num_combined_image_samplers_required: u32,
    /// The amount of GPU memory required.
    pub gpu_memory_required: u64,
    /// Bytes required for push constants (Vulkan guarantees 128).
    pub max_push_constants_size: u32,
}

/// Extension entries with their names as character sequences.
pub open spec fn ext_view(v: Seq<(String, u32)>) -> Seq<(Seq<char>, u32)> {
    v.map_values(|e: (String, u32)| (e.0@, e.1))
}

/// The first entry, from index `i` on, with the given name.
pub open spec fn first_named(er: Seq<(Seq<char>, u32)>, name: Seq<char>, i: int) -> Option<int>
    decreases er.len() - i,
{
    if i < 0 || i >= er.len() {
        None
    } else if er[i].0 == name {
        Some(i)
    } else {
        first_named(er, name, i + 1)
    }
}

/// Adds one required extension: raises the version of the first entry of the same
/// name to the larger of the two, or appends the entry when there is none.
pub open spec fn merge_extension(er: Seq<(Seq<char>, u32)>, e: (Seq<char>, u32)) -> Seq<(Seq<char>, u32)> {
    match first_named(er, e.0, 0) {
        Some(i) => er.update(i, (er[i].0, if er[i].1 >= e.1 { er[i].1 } else { e.1 })),
        None => er.push(e),
    }
}

/// Adds the required extensions `others`, in order.
pub open spec fn merge_extensions(er: Seq<(Seq<char>, u32)>, others: Seq<(Seq<char>, u32)>) -> Seq<(Seq<char>, u32)>
    decreases others.len(),
{
    if others.len() == 0 {
        er
    } else {
        merge_extension(merge_extensions(er, others.drop_last()), others.last())
    }
}

/// The counts of two requirements can be added without overflow.
pub open spec fn addable(a: DeviceRequirements, b: DeviceRequirements) -> bool {
    &&& a.num_descriptor_sets_required + b.num_descriptor_sets_required <= u32::MAX
    &&& a.num_uniform_buffers_required + b.num_uniform_buffers_required <= u32::MAX
    &&& a.num_uniform_texel_buffers_required + b.num_uniform_texel_buffers_required <= u32::MAX
    &&& a.num_dynamic_uniform_buffers_required + b.num_dynamic_uniform_buffers_required <= u32::MAX
    &&& a.num_samplers_required + b.num_samplers_required <= u32::MAX
    &&& a.num_sampled_images_required + b.num_sampled_images_required <= u32::MAX
    &&& a.num_combined_image_samplers_required + b.num_combined_image_samplers_required <= u32::MAX
    &&& a.gpu_memory_required + b.gpu_memory_required <= u64::MAX
}

/// Whether `has` has every feature that `req` requires. This is deliberately the
/// check its name promises: the bitwise form it replaces, applied to Vulkan's 32-bit
/// booleans, came out true for every pair of feature sets.
pub fn check_physical_device_features(has: &DeviceFeatures, req: &DeviceFeatures) -> (r: bool)
    ensures
        r == features_cover(*has, *req),
{
    let mut i: u64 = 0;
    while i < FEATURE_COUNT
        invariant
            0 <= i <= FEATURE_COUNT,
            forall|j: u64| j < i ==> feature(req.bits, j) ==> feature(has.bits, j),
        decreases FEATURE_COUNT - i,
    {
        if (req.bits >> i) & 1 == 1 && (has.bits >> i) & 1 != 1 {
            assert(!(feature(req.bits, i) ==> feature(has.bits, i)));
            return false;
        }
        i = i + 1;
    }
    true
}

/// The union of two feature sets.
pub fn add_physical_device_features(a: &DeviceFeatures, b: &DeviceFeatures) -> (r: DeviceFeatures)
    ensures
        r.bits == a.bits | b.bits,
        forall|i: u64| i < 64 ==> feature(r.bits, i) == (feature(a.bits, i) || feature(b.bits, i)),
{
    let r = DeviceFeatures { bits: a.bits | b.bits };
    assert forall|i: u64| i < 64 implies feature(r.bits, i) == (feature(a.bits, i) || feature(b.bits, i)) by {
        let x = a.bits;
        let y = b.bits;
        assert((((x | y) >> i) & 1 == 1) == (((x >> i) & 1 == 1) || ((y >> i) & 1 == 1))) by (bit_vector)
            requires i < 64u64;
    }
    r
}

impl DeviceFeatures {
    /// The empty feature set.
    pub fn none() -> (r: DeviceFeatures)
        ensures
            r.bits == 0,
            forall|i: u64| i < 64 ==> !feature(r.bits, i),
    {
        assert forall|i: u64| i < 64 implies !feature(0u64, i) by {
            assert((0u64 >> i) & 1 != 1) by (bit_vector);
        }
        DeviceFeatures { bits: 0 }
    }

    /// Whether feature `i` is in the set.
    pub fn has(&self, i: u64) -> (r: bool)
        requires
            i < 64,
        ensures
            r == feature(self.bits, i),
    {
        (self.bits >> i) & 1 == 1
    }

    /// The set with feature `i` added.
    pub fn with(&self, i: u64) -> (r: DeviceFeatures)
        requires
            i < 64,
        ensures
            r.bits == self.bits | (1u64 << i),
            forall|j: u64| j < 64 ==> feature(r.bits, j) == (j == i || feature(self.bits, j)),
    {
        let x = self.bits;
        let bits = x | (1u64 << i);
        assert forall|j: u64| j < 64 implies feature(bits, j) == (j == i || feature(x, j)) by {
            assert((((x | (1u64 << i)) >> j) & 1 == 1) == (j == i || ((x >> j) & 1 == 1))) by (bit_vector)
                requires i < 64u64, j < 64u64;
        }
        DeviceFeatures { bits }
    }
}

/// A device has all features of two requirements exactly when it has the features
/// of their sum.
pub proof fn lemma_features_of_sum(has: DeviceFeatures, a: DeviceFeatures, b: DeviceFeatures)
    ensures
        features_cover(has, DeviceFeatures { bits: a.bits | b.bits })
            <==> (features_cover(has, a) && features_cover(has, b)),
{
    assert forall|i: u64| i < 64 implies feature(a.bits | b.bits, i) == (feature(a.bits, i) || feature(b.bits, i)) by {
        let x = a.bits;
        let y = b.bits;
        assert((((x | y) >> i) & 1 == 1) == (((x >> i) & 1 == 1) || ((y >> i) & 1 == 1))) by (bit_vector)
            requires i < 64u64;
    }
}

impl Default for DeviceRequirements {
    /// No requirements at all.
    fn default() -> (r: DeviceRequirements)
        ensures
            r.extensions_required@.len() == 0,
            r.features_required.bits == 0,
            r.formats_required@.len() == 0,
            r.num_descriptor_sets_required == 0,
            r.num_uniform_buffers_required == 0,
            r.num_uniform_texel_buffers_required == 0,
            r.num_dynamic_uniform_buffers_required == 0,
            r.num_samplers_required == 0,
            r.num_sampled_images_required == 0,
            r.num_combined_image_samplers_required == 0,
            r.gpu_memory_required == 0,
            r.max_push_constants_size == 0,
    {
        DeviceRequirements {
            extensions_required: Vec::new(),
            features_required: DeviceFeatures { bits: 0 },
            formats_required: Vec::new(),
            num_descriptor_sets_required: 0,
            num_uniform_buffers_required: 0,
            num_uniform_texel_buffers_required: 0,
            num_dynamic_uniform_buffers_required: 0,
            num_samplers_required: 0,
            num_sampled_images_required: 0,
            num_combined_image_samplers_required: 0,
            gpu_memory_required: 0,
            max_push_constants_size: 0,
        }
    }
}

/// A copy of extension entries.
fn copy_extensions(v: &Vec<(String, u32)>) -> (r: Vec<(String, u32)>)
    ensures
        ext_view(r@) == ext_view(v@),
{
    let mut r: Vec<(String, u32)> = Vec::new();
    let mut i: usize = 0;
    while i < v.len()
        invariant
            0 <= i <= v.len(),
            ext_view(r@) == ext_view(v@).take(i as int),
        decreases v.len() - i,
    {
        let name = v[i].0.clone();
        let ghost before = r@;
        r.push((name, v[i].1));
        assert(ext_view(r@) =~= ext_view(before).push((v@[i as int].0@, v@[i as int].1)));
        assert(ext_view(v@).take(i as int + 1) =~= ext_view(v@).take(i as int).push(ext_view(v@)[i as int]));
        i = i + 1;
    }
    assert(ext_view(v@).take(v@.len() as int) =~= ext_view(v@));
    r
}

/// Adds one required extension to `er` (see `merge_extension`).
fn add_extension(er: &mut Vec<(String, u32)>, name: &String, version: u32)
    ensures
        ext_view(final(er)@) == merge_extension(ext_view(old(er)@), (name@, version)),
{
    let ghost e = ext_view(er@);
    let mut i: usize = 0;
    while i < er.len()
        invariant
            0 <= i <= er.len(),
            e == ext_view(er@),
            e == ext_view(old(er)@),
            first_named(e, name@, 0) == first_named(e, name@, i as int),
        decreases er.len() - i,
    {
        if *name == er[i].0 {
            assert(e[i as int].0 == name@);
            assert(first_named(e, name@, i as int) == Some(i as int));
            let existing = er[i].1;
            let newer = if existing >= version { existing } else { version };
            let kept = er[i].0.clone();
            er.set(i, (kept, newer));
            assert(ext_view(er@) =~= e.update(i as int, (e[i as int].0, newer)));
            return;
        }
        i = i + 1;
    }
    let ghost before = er@;
    er.push((name.clone(), version));
    assert(ext_view(er@) =~= e.push((name@, version)));
}

impl DeviceRequirements {
    /// The abstract value of the required extensions.
    pub open spec fn extensions(&self) -> Seq<(Seq<char>, u32)> {
        ext_view(self.extensions_required@)
    }

    /// The requirements of both `self` and `other`: extensions merged (an extension
    /// required by both at the larger version), features united, formats
    /// concatenated, counts and memory summed, and the larger push-constant size.
    pub fn add(&self, other: &DeviceRequirements) -> (r: DeviceRequirements)
        requires
            addable(*self, *other),
        ensures
            r.extensions() == merge_extensions(self.extensions(), other.extensions()),
            r.features_required.bits == self.features_required.bits | other.features_required.bits,
            r.formats_required@ == self.formats_required@ + other.formats_required@,
            r.num_descriptor_sets_required == self.num_descriptor_sets_required + other.num_descriptor_sets_required,
            r.num_uniform_buffers_required == self.num_uniform_buffers_required + other.num_uniform_buffers_required,
            r.num_uniform_texel_buffers_required == self.num_uniform_texel_buffers_required
                + other.num_uniform_texel_buffers_required,
            r.num_dynamic_uniform_buffers_required == self.num_dynamic_uniform_buffers_required
                + other.num_dynamic_uniform_buffers_required,
            r.num_samplers_required == self.num_samplers_required + other.num_samplers_required,
            r.num_sampled_images_required == self.num_sampled_images_required + other.num_sampled_images_required,
            r.num_combined_image_samplers_required == self.num_combined_image_samplers_required
                + other.num_combined_image_samplers_required,
            r.gpu_memory_required == self.gpu_memory_required + other.gpu_memory_required,
            r.max_push_constants_size == if self.max_push_constants_size >= other.max_push_constants_size {
                self.max_push_constants_size
            } else {
                other.max_push_constants_size
            },
    {
        let mut er = copy_extensions(&self.extensions_required);
        let ghost mine = self.extensions();
        let ghost theirs = other.extensions();
        let mut j: usize = 0;
        while j < other.extensions_required.len()
            invariant
                0 <= j <= other.extensions_required.len(),
                theirs == ext_view(other.extensions_required@),
                ext_view(er@) == merge_extensions(mine, theirs.take(j as int)),
            decreases other.extensions_required.len() - j,
        {
            proof {
                assert(theirs.take(j as int + 1).drop_last() =~= theirs.take(j as int));
                assert(theirs.take(j as int + 1).last() == theirs[j as int]);
            }
            add_extension(&mut er, &other.extensions_required[j].0, other.extensions_required[j].1);
            j = j + 1;
        }
        assert(theirs.take(j as int) =~= theirs);
        let mut formats: Vec<(u32, FormatProperties)> = Vec::new();
        let mut k: usize = 0;
        while k < self.formats_required.len()
            invariant
                0 <= k <= self.formats_required.len(),
                formats@ == self.formats_required@.take(k as int),
            decreases self.formats_required.len() - k,
        {
            formats.push(self.formats_required[k]);
            assert(self.formats_required@.take(k as int + 1) =~= self.formats_required@.take(k as int).push(
                self.formats_required@[k as int]));
            k = k + 1;
        }
        let mut k: usize = 0;
        while k < other.formats_required.len()
            invariant
                0 <= k <= other.formats_required.len(),
                formats@ == self.formats_required@ + other.formats_required@.take(k as int),
            decreases other.formats_required.len() - k,
        {
            proof {
                if k == 0 {
                    assert(self.formats_required@.take(self.formats_required@.len() as int) =~= self.formats_required@);
                }
            }
            formats.push(other.formats_required[k]);
            assert(self.formats_required@ + other.formats_required@.take(k as int + 1) =~= (self.formats_required@
                + other.formats_required@.take(k as int)).push(other.formats_required@[k as int]));
            k = k + 1;
        }
        proof {
            assert(self.formats_required@.take(self.formats_required@.len() as int) =~= self.formats_required@);
            assert(other.formats_required@.take(other.formats_required@.len() as int) =~= other.formats_required@);
            assert(formats@ =~= self.formats_required@ + other.formats_required@);
        }
        DeviceRequirements {
            extensions_required: er,
            features_required: add_physical_device_features(&self.features_required, &other.features_required),
            formats_required: formats,
            num_descriptor_sets_required: self.num_descriptor_sets_required + other.num_descriptor_sets_required,
            num_uniform_buffers_required: self.num_uniform_buffers_required + other.num_uniform_buffers_required,
            num_uniform_texel_buffers_required: self.num_uniform_texel_buffers_required
                + other.num_uniform_texel_buffers_required,
            num_dynamic_uniform_buffers_required: self.num_dynamic_uniform_buffers_required
                + other.num_dynamic_uniform_buffers_required,
            num_samplers_required: self.num_samplers_required + other.num_samplers_required,
            num_sampled_images_required: self.num_sampled_images_required + other.num_sampled_images_required,
            num_combined_image_samplers_required: self.num_combined_image_samplers_required
                + other.num_combined_image_samplers_required,
            gpu_memory_required: self.gpu_memory_required + other.gpu_memory_required,
            max_push_constants_size: if self.max_push_constants_size >= other.max_push_constants_size {
                self.max_push_constants_size
            } else {
                other.max_push_constants_size
            },
        }
    }
}

/// Some entry of `m` names `n` at version `v` or later.
pub open spec fn covers(m: Seq<(Seq<char>, u32)>, n: Seq<char>, v: u32) -> bool {
    exists|j: int| 0 <= j < m.len() && (#[trigger] m[j]).0 == n && m[j].1 >= v
}

/// Where `first_named` finds an entry, the entry has that name.
pub proof fn lemma_first_named(er: Seq<(Seq<char>, u32)>, name: Seq<char>, i: int)
    requires
        i >= 0,
    ensures
        first_named(er, name, i) matches Some(k) ==> i <= k < er.len() && er[k].0 == name,
    decreases er.len() - i,
{
    if i < er.len() && er[i].0 != name {
        lemma_first_named(er, name, i + 1);
    }
}

/// No two extension entries have the same name.
pub open spec fn names_unique(er: Seq<(Seq<char>, u32)>) -> bool {
    forall|i: int, j: int| 0 <= i < j < er.len() ==> (#[trigger] er[i]).0 != (#[trigger] er[j]).0
}

/// Merging a list of distinct names into no extensions gives the list itself.
proof fn lemma_merge_into_empty(s: Seq<(Seq<char>, u32)>)
    requires
        names_unique(s),
    ensures
        merge_extensions(Seq::empty(), s) == s,
    decreases s.len(),
{
    if s.len() > 0 {
        let init = s.drop_last();
        assert(names_unique(init)) by {
            assert forall|i: int, j: int| 0 <= i < j < init.len() implies (#[trigger] init[i]).0
                != (#[trigger] init[j]).0 by {
                assert(init[i] == s[i] && init[j] == s[j]);
            }
        }
        lemma_merge_into_empty(init);
        lemma_first_named(init, s.last().0, 0);
        if let Some(k) = first_named(init, s.last().0, 0) {
            assert(init[k] == s[k]);
            assert(s[k].0 == s[s.len() - 1].0);
        }
        assert(init.push(s.last()) =~= s);
    }
}

/// The requirements of `DeviceRequirements::default`: nothing at all.
pub open spec fn no_requirements(d: DeviceRequirements) -> bool {
    &&& d.extensions_required@.len() == 0
    &&& d.features_required.bits == 0
    &&& d.formats_required@.len() == 0
    &&& d.num_descriptor_sets_required == 0
    &&& d.num_uniform_buffers_required == 0
    &&& d.num_uniform_texel_buffers_required == 0
    &&& d.num_dynamic_uniform_buffers_required == 0
    &&& d.num_samplers_required == 0
    &&& d.num_sampled_images_required == 0
    &&& d.num_combined_image_samplers_required == 0
    &&& d.gpu_memory_required == 0
    &&& d.max_push_constants_size == 0
}

/// The default (empty) requirements are an identity of `DeviceRequirements::add`, on
/// either side: for requirements `r` that name each extension once, adding nothing
/// keeps the extensions (in order), features, formats, every count, the memory and
/// the push-constant size of `r`. Every quantity below is what `add` gives for that
/// field.
pub proof fn lemma_add_no_requirements(r: DeviceRequirements, d: DeviceRequirements)
    requires
        no_requirements(d),
        names_unique(r.extensions()),
    ensures
        addable(r, d),
        addable(d, r),
        merge_extensions(r.extensions(), d.extensions()) == r.extensions(),
        merge_extensions(d.extensions(), r.extensions()) == r.extensions(),
        r.features_required.bits | d.features_required.bits == r.features_required.bits,
        d.features_required.bits | r.features_required.bits == r.features_required.bits,
        r.formats_required@ + d.formats_required@ == r.formats_required@,
        d.formats_required@ + r.formats_required@ == r.formats_required@,
        r.num_descriptor_sets_required + d.num_descriptor_sets_required == r.num_descriptor_sets_required,
        r.num_uniform_buffers_required + d.num_uniform_buffers_required == r.num_uniform_buffers_required,
        r.num_uniform_texel_buffers_required + d.num_uniform_texel_buffers_required
            == r.num_uniform_texel_buffers_required,
        r.num_dynamic_uniform_buffers_required + d.num_dynamic_uniform_buffers_required
            == r.num_dynamic_uniform_buffers_required,
        r.num_samplers_required + d.num_samplers_required == r.num_samplers_required,
        r.num_sampled_images_required + d.num_sampled_images_required == r.num_sampled_images_required,
        r.num_combined_image_samplers_required + d.num_combined_image_samplers_required
            == r.num_combined_image_samplers_required,
        r.gpu_memory_required + d.gpu_memory_required == r.gpu_memory_required,
        (if r.max_push_constants_size >= d.max_push_constants_size { r.max_push_constants_size } else {
            d.max_push_constants_size
        }) == r.max_push_constants_size,
        (if d.max_push_constants_size >= r.max_push_constants_size { d.max_push_constants_size } else {
            r.max_push_constants_size
        }) == r.max_push_constants_size,
{
    assert(d.extensions() =~= Seq::<(Seq<char>, u32)>::empty());
    lemma_merge_into_empty(r.extensions());
    assert(r.formats_required@ + d.formats_required@ =~= r.formats_required@);
    assert(d.formats_required@ + r.formats_required@ =~= r.formats_required@);
    let x = r.features_required.bits;
    assert(x | 0u64 == x && 0u64 | x == x) by (bit_vector);
}

/// Merging in one extension keeps every requirement already met and meets the new one.
proof fn lemma_merge_extension_covers(er: Seq<(Seq<char>, u32)>, e: (Seq<char>, u32))
    ensures
        covers(merge_extension(er, e), e.0, e.1),
        forall|n: Seq<char>, v: u32| covers(er, n, v) ==> covers(merge_extension(er, e), n, v),
{
    lemma_first_named(er, e.0, 0);
    let m = merge_extension(er, e);
    match first_named(er, e.0, 0) {
        Some(i) => {
            assert(m[i].0 == e.0 && m[i].1 >= e.1);
            assert forall|n: Seq<char>, v: u32| covers(er, n, v) implies covers(m, n, v) by {
                let j = choose|j: int| 0 <= j < er.len() && (#[trigger] er[j]).0 == n && er[j].1 >= v;
                assert(m[j].0 == n && m[j].1 >= v);
            }
        },
        None => {
            assert(m[er.len() as int] == e);
            assert forall|n: Seq<char>, v: u32| covers(er, n, v) implies covers(m, n, v) by {
                let j = choose|j: int| 0 <= j < er.len() && (#[trigger] er[j]).0 == n && er[j].1 >= v;
                assert(m[j] == er[j]);
            }
        },
    }
}

/// The sum of two requirements requires every extension that either requires, at
/// its version or a later one.
pub proof fn lemma_merge_extensions_covers(er: Seq<(Seq<char>, u32)>, others: Seq<(Seq<char>, u32)>)
    ensures
        forall|j: int| 0 <= j < er.len() ==> covers(merge_extensions(er, others), (#[trigger] er[j]).0, er[j].1),
        forall|j: int| 0 <= j < others.len() ==> covers(merge_extensions(er, others), (#[trigger] others[j]).0, others[j].1),
    decreases others.len(),
{
    if others.len() == 0 {
        assert forall|j: int| 0 <= j < er.len() implies covers(er, (#[trigger] er[j]).0, er[j].1) by {
            assert(er[j].0 == er[j].0 && er[j].1 >= er[j].1);
        }
    } else {
        let init = others.drop_last();
        lemma_merge_extensions_covers(er, init);
        let before = merge_extensions(er, init);
        lemma_merge_extension_covers(before, others.last());
        assert forall|j: int| 0 <= j < others.len() implies covers(merge_extensions(er, others),
            (#[trigger] others[j]).0, others[j].1) by {
            if j < init.len() {
                assert(init[j] == others[j]);
            }
        }
    }
}

/// The requirements of the renderer itself: the swapchain extension, robust buffer
/// access in debug builds (it finds bugs, but costs too much for release builds), and
/// the formats of its render targets as attachments that can be sampled.
pub fn internal_requirements(debug_build: bool) -> (r: DeviceRequirements)
    ensures
        r.extensions() == internal_extensions(),
        r.features_required.bits == internal_features(debug_build),
        forall|i: u64| i < 64 ==> feature(r.features_required.bits, i) == (debug_build && i == FEATURE_ROBUST_BUFFER_ACCESS),
        r.formats_required@ == internal_formats(),
        r.num_descriptor_sets_required == 0,
        r.num_uniform_buffers_required == 0,
        r.num_uniform_texel_buffers_required == 0,
        r.num_dynamic_uniform_buffers_required == 0,
        r.num_samplers_required == 0,
        r.num_sampled_images_required == 0,
        r.num_combined_image_samplers_required == 0,
        r.gpu_memory_required == 0,
        r.max_push_constants_size == 0,
{
    let mut extensions: Vec<(String, u32)> = Vec::new();
    extensions.push(("VK_KHR_swapchain".to_owned(), 68));
    let none = DeviceFeatures::none();
    let features = if debug_build { none.with(FEATURE_ROBUST_BUFFER_ACCESS) } else { none };
    let color = FormatProperties {
        linear_tiling_features: 0,
        optimal_tiling_features: FORMAT_FEATURE_COLOR_ATTACHMENT | FORMAT_FEATURE_SAMPLED_IMAGE,
        buffer_features: 0,
    };
    let mut formats: Vec<(u32, FormatProperties)> = Vec::new();
    formats.push((DEPTH_FORMAT, FormatProperties {
        linear_tiling_features: 0,
        optimal_tiling_features: FORMAT_FEATURE_DEPTH_STENCIL_ATTACHMENT | FORMAT_FEATURE_SAMPLED_IMAGE,
        buffer_features: 0,
    }));
    formats.push((DIFFUSE_FORMAT, color));
    formats.push((NORMALS_FORMAT, color));
    formats.push((MATERIAL_FORMAT, color));
    formats.push((SHADING_FORMAT, color));
    formats.push((BLUR_FORMAT, color));
    let r = DeviceRequirements {
        extensions_required: extensions,
        features_required: features,
        formats_required: formats,
        num_descriptor_sets_required: 0,
        num_uniform_buffers_required: 0,
        num_uniform_texel_buffers_required: 0,
        num_dynamic_uniform_buffers_required: 0,
        num_samplers_required: 0,
        num_sampled_images_required: 0,
        num_combined_image_samplers_required: 0,
        gpu_memory_required: 0,
        max_push_constants_size: 0,
    };
    assert(0u64 | (1u64 << 0u64) == 1u64) by (bit_vector);
    assert(r.extensions() =~= internal_extensions());
    assert(r.formats_required@ =~= seq![
        (DEPTH_FORMAT, FormatProperties {
            linear_tiling_features: 0,
            optimal_tiling_features: FORMAT_FEATURE_DEPTH_STENCIL_ATTACHMENT | FORMAT_FEATURE_SAMPLED_IMAGE,
            buffer_features: 0,
        }),
        (DIFFUSE_FORMAT, color_target()),
        (NORMALS_FORMAT, color_target()),
        (MATERIAL_FORMAT, color_target()),
        (SHADING_FORMAT, color_target()),
        (BLUR_FORMAT, color_target()),
    ]);
    r
}

/// The extensions the renderer itself requires: the swapchain, at version 68.
pub open spec fn internal_extensions() -> Seq<(Seq<char>, u32)> {
    seq![("VK_KHR_swapchain"@, 68u32)]
}

/// The features the renderer itself requires: robust buffer access in debug builds.
pub open spec fn internal_features(debug_build: bool) -> u64 {
    if debug_build { 1u64 } else { 0u64 }
}

/// The formats the renderer itself requires: its depth target as a sampled
/// depth/stencil attachment, and its color targets as sampled color attachments.
pub open spec fn internal_formats() -> Seq<(u32, FormatProperties)> {
    seq![
        (DEPTH_FORMAT, FormatProperties {
            linear_tiling_features: 0,
            optimal_tiling_features: FORMAT_FEATURE_DEPTH_STENCIL_ATTACHMENT | FORMAT_FEATURE_SAMPLED_IMAGE,
            buffer_features: 0,
        }),
        (DIFFUSE_FORMAT, color_target()),
        (NORMALS_FORMAT, color_target()),
        (MATERIAL_FORMAT, color_target()),
        (SHADING_FORMAT, color_target()),
        (BLUR_FORMAT, color_target()),
    ]
}

/// What the renderer requires of the formats of its color targets.
pub open spec fn color_target() -> FormatProperties {
    FormatProperties {
        linear_tiling_features: 0,
        optimal_tiling_features: FORMAT_FEATURE_COLOR_ATTACHMENT | FORMAT_FEATURE_SAMPLED_IMAGE,
        buffer_features: 0,
    }
}

} // verus!
