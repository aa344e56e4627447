//! Choices about the presentation surface and the swapchain: image count,
//! surface format, present mode, extent and image sharing.
use vstd::prelude::*;

use crate::error::Error;
use crate::queue_indices::QueueIndices;
use crate::requirements::{FORMAT_A2B10G10R10_UNORM_PACK32, FORMAT_B8G8R8A8_SRGB, FORMAT_B8G8R8A8_UNORM};

verus! {

/// Color space code: sRGB nonlinear.
pub const COLOR_SPACE_SRGB_NONLINEAR: u32 = 0;

/// Present mode code: immediate.
pub const PRESENT_MODE_IMMEDIATE: u32 = 0;
/// Present mode code: mailbox.
pub const PRESENT_MODE_MAILBOX: u32 = 1;
/// Present mode code: FIFO (always available).
pub const PRESENT_MODE_FIFO: u32 = 2;
/// Present mode code: relaxed FIFO.
pub const PRESENT_MODE_FIFO_RELAXED: u32 = 3;

/// A two-dimensional size in pixels.
#[derive(Debug, Clone, Copy, PartialEq, Eq, Structural)]
pub struct Extent2D {
    pub width: u32,
    pub height: u32,
}

/// A format that the surface offers, with its color space.
#[derive(Debug, Clone, Copy, PartialEq, Eq, Structural)]
pub struct SurfaceFormat {
    pub format: u32,
    pub color_space: u32,
}

/// What the surface reports about itself.
#[derive(Debug, Clone, Copy, PartialEq, Eq, Structural)]
pub struct SurfaceCapabilities {
    pub min_image_count: u32,
    /// `None` when there is no maximum.
    pub max_image_count: Option<u32>,
    /// `None` when the swapchain decides the extent.
    pub current_extent: Option<Extent2D>,
    pub current_transform: u32,
}

/// The choices made for a surface.
#[derive(Debug)]
pub struct SurfaceData {
    pub capabilities: SurfaceCapabilities,
    /// Index into `surface_formats` of the format in use.
    pub surface_format_index: usize,
    pub surface_formats: Vec<SurfaceFormat>,
    pub min_image_count: u32,
    pub present_mode: u32,
    /// Whether output must have the gamma function applied by the shaders.
    pub needs_gamma: bool,
}

/// How swapchain images are shared between queue families.
#[derive(Debug, Clone, Copy, PartialEq, Eq, Structural)]
pub enum SharingMode {
    Exclusive,
    Concurrent,
}

/// The number of swapchain images: three, within what the surface allows.
pub open spec fn image_count_spec(caps: SurfaceCapabilities) -> u32 {
    match caps.max_image_count {
        Some(m) => {
            let upper: u32 = if m < 3 { m } else { 3 };
            if caps.min_image_count >= upper { caps.min_image_count } else { upper }
        },
        None => if caps.min_image_count >= 3 { caps.min_image_count } else { 3 },
    }
}

/// How much a surface format is preferred: 10-bit color best, then sRGB (converted
/// automatically), then 8-bit UNORM; others not at all.
pub open spec fn rank_spec(format: u32) -> u32 {
    if format == FORMAT_A2B10G10R10_UNORM_PACK32 {
        3
    } else if format == FORMAT_B8G8R8A8_SRGB {
        2
    } else if format == FORMAT_B8G8R8A8_UNORM {
        1
    } else {
        0
    }
}

/// How strongly a present mode is avoided: mailbox first, then relaxed FIFO, then FIFO.
pub open spec fn present_key(mode: u32) -> u32 {
    if mode == PRESENT_MODE_MAILBOX {
        1
    } else if mode == PRESENT_MODE_FIFO_RELAXED {
        2
    } else if mode == PRESENT_MODE_FIFO {
        3
    } else {
        99
    }
}

/// Output in this format needs the gamma function applied by the shaders: the color
/// space is sRGB but the format does not convert by itself.
pub open spec fn needs_gamma_spec(f: SurfaceFormat) -> bool {
    f.color_space == COLOR_SPACE_SRGB_NONLINEAR && f.format != FORMAT_B8G8R8A8_SRGB
}

/// The swapchain image count asked for lies within what the surface allows: never
/// below its minimum, never above its maximum (when it has one at or above the
/// minimum), exactly three whenever three is allowed, the minimum when that is above
/// three, and the maximum when that is below three.
pub open spec fn image_count_ok(caps: SurfaceCapabilities, r: u32) -> bool {
    let mn = caps.min_image_count;
    &&& r >= mn
    &&& mn > 3 ==> r == mn
    &&& match caps.max_image_count {
        Some(m) => {
            &&& m >= mn ==> r <= m
            &&& mn <= 3 && m >= 3 ==> r == 3
            &&& mn <= m && m < 3 ==> r == m
        },
        None => mn <= 3 ==> r == 3,
    }
}

/// The image count chosen for a surface is three within the surface's bounds.
pub proof fn lemma_image_count_within_bounds(caps: SurfaceCapabilities)
    ensures
        image_count_ok(caps, image_count_spec(caps)),
{
}

/// Index `i` is the first offered format with code `code`.
pub open spec fn first_with_format(formats: Seq<SurfaceFormat>, code: u32, i: int) -> bool {
    0 <= i < formats.len() && formats[i].format == code && forall|j: int| 0 <= j < i ==> #[trigger] formats[j].format != code
}

/// Some offered format has code `code`.
pub open spec fn offers_format(formats: Seq<SurfaceFormat>, code: u32) -> bool {
    exists|i: int| 0 <= i < formats.len() && #[trigger] formats[i].format == code
}

/// The surface format to take: the first 10-bit format (A2B10G10R10) when one is
/// offered, else the first sRGB BGRA8, else the first UNORM BGRA8, else none.
pub open spec fn format_preference(formats: Seq<SurfaceFormat>, r: Option<usize>) -> bool {
    if offers_format(formats, FORMAT_A2B10G10R10_UNORM_PACK32) {
        r matches Some(i) && first_with_format(formats, FORMAT_A2B10G10R10_UNORM_PACK32, i as int)
    } else if offers_format(formats, FORMAT_B8G8R8A8_SRGB) {
        r matches Some(i) && first_with_format(formats, FORMAT_B8G8R8A8_SRGB, i as int)
    } else if offers_format(formats, FORMAT_B8G8R8A8_UNORM) {
        r matches Some(i) && first_with_format(formats, FORMAT_B8G8R8A8_UNORM, i as int)
    } else {
        r is None
    }
}

/// Taking the first best-ranked format prefers 10-bit color, then sRGB, then UNORM.
pub proof fn lemma_format_preference(formats: Seq<SurfaceFormat>, r: Option<usize>)
    requires
        r matches Some(i) ==> {
            &&& i < formats.len()
            &&& rank_spec(formats[i as int].format) > 0
            &&& forall|j: int| 0 <= j < formats.len() ==> rank_spec(#[trigger] formats[j].format)
                <= rank_spec(formats[i as int].format)
            &&& forall|j: int| 0 <= j < i ==> rank_spec(#[trigger] formats[j].format) < rank_spec(
                formats[i as int].format)
        },
        r is None ==> forall|j: int| 0 <= j < formats.len() ==> rank_spec(#[trigger] formats[j].format) == 0,
    ensures
        format_preference(formats, r),
{
    if let Some(i) = r {
        let k = formats[i as int].format;
        assert forall|j: int| 0 <= j < i implies #[trigger] formats[j].format != k by {
            assert(rank_spec(formats[j].format) < rank_spec(k));
        }
        if offers_format(formats, FORMAT_A2B10G10R10_UNORM_PACK32) {
            let j = choose|j: int| 0 <= j < formats.len() && #[trigger] formats[j].format == FORMAT_A2B10G10R10_UNORM_PACK32;
            assert(rank_spec(formats[j].format) <= rank_spec(k));
        } else if offers_format(formats, FORMAT_B8G8R8A8_SRGB) {
            let j = choose|j: int| 0 <= j < formats.len() && #[trigger] formats[j].format == FORMAT_B8G8R8A8_SRGB;
            assert(rank_spec(formats[j].format) <= rank_spec(k));
            if k == FORMAT_A2B10G10R10_UNORM_PACK32 {
                assert(formats[i as int].format == k);
            }
        } else if offers_format(formats, FORMAT_B8G8R8A8_UNORM) {
            let j = choose|j: int| 0 <= j < formats.len() && #[trigger] formats[j].format == FORMAT_B8G8R8A8_UNORM;
            assert(rank_spec(formats[j].format) <= rank_spec(k));
            if k == FORMAT_A2B10G10R10_UNORM_PACK32 || k == FORMAT_B8G8R8A8_SRGB {
                assert(formats[i as int].format == k);
            }
        } else {
            assert(formats[i as int].format == k);
        }
    } else {
        if offers_format(formats, FORMAT_A2B10G10R10_UNORM_PACK32) {
            let j = choose|j: int| 0 <= j < formats.len() && #[trigger] formats[j].format == FORMAT_A2B10G10R10_UNORM_PACK32;
            assert(rank_spec(formats[j].format) == 0);
        } else if offers_format(formats, FORMAT_B8G8R8A8_SRGB) {
            let j = choose|j: int| 0 <= j < formats.len() && #[trigger] formats[j].format == FORMAT_B8G8R8A8_SRGB;
            assert(rank_spec(formats[j].format) == 0);
        } else if offers_format(formats, FORMAT_B8G8R8A8_UNORM) {
            let j = choose|j: int| 0 <= j < formats.len() && #[trigger] formats[j].format == FORMAT_B8G8R8A8_UNORM;
            assert(rank_spec(formats[j].format) == 0);
        }
    }
}

/// The number of swapchain images to ask for.
pub fn swapchain_image_count(caps: &SurfaceCapabilities) -> (r: u32)
    ensures
        r == image_count_spec(*caps),
        image_count_ok(*caps, r),
{
    proof {
        lemma_image_count_within_bounds(*caps);
    }
    match caps.max_image_count {
        Some(max_image_count) => {
            let upper = if max_image_count < 3 { max_image_count } else { 3 };
            if caps.min_image_count >= upper { caps.min_image_count } else { upper }
        },
        None => if caps.min_image_count >= 3 { caps.min_image_count } else { 3 },
    }
}

/// How much a surface format is preferred.
pub fn format_ranking(format: u32) -> (r: u32)
    ensures
        r == rank_spec(format),
{
    if format == FORMAT_A2B10G10R10_UNORM_PACK32 {
        3
    } else if format == FORMAT_B8G8R8A8_SRGB {
        2
    } else if format == FORMAT_B8G8R8A8_UNORM {
        1
    } else {
        0
    }
}

/// The best-ranked format the surface offers (the first of equally ranked ones), or
/// `None` when it offers no format of positive rank.
pub fn choose_surface_format(formats: &Vec<SurfaceFormat>) -> (r: Option<usize>)
    ensures
        r matches Some(i) ==> {
            &&& i < formats@.len()
            &&& rank_spec(formats@[i as int].format) > 0
            &&& forall|j: int| 0 <= j < formats@.len() ==> rank_spec(#[trigger] formats@[j].format)
                <= rank_spec(formats@[i as int].format)
            &&& forall|j: int| 0 <= j < i ==> rank_spec(#[trigger] formats@[j].format) < rank_spec(
                formats@[i as int].format)
        },
        r is None ==> forall|j: int| 0 <= j < formats@.len() ==> rank_spec(#[trigger] formats@[j].format) == 0,
        format_preference(formats@, r),
{
    let mut best: Option<usize> = None;
    let mut i: usize = 0;
    while i < formats.len()
        invariant
            0 <= i <= formats@.len(),
            best matches Some(b) ==> {
                &&& b < i
                &&& rank_spec(formats@[b as int].format) > 0
                &&& forall|j: int| 0 <= j < i ==> rank_spec(#[trigger] formats@[j].format) <= rank_spec(
                    formats@[b as int].format)
                &&& forall|j: int| 0 <= j < b ==> rank_spec(#[trigger] formats@[j].format) < rank_spec(
                    formats@[b as int].format)
            },
            best is None ==> forall|j: int| 0 <= j < i ==> rank_spec(#[trigger] formats@[j].format) == 0,
        decreases formats.len() - i,
    {
        let rank = format_ranking(formats[i].format);
        match best {
            Some(b) => {
                if rank > format_ranking(formats[b].format) {
                    best = Some(i);
                }
            },
            None => {
                if rank > 0 {
                    best = Some(i);
                }
            },
        }
        i = i + 1;
    }
    proof {
        lemma_format_preference(formats@, best);
    }
    best
}

/// Whether output in this format needs the gamma function applied by the shaders.
pub fn needs_gamma(f: &SurfaceFormat) -> (r: bool)
    ensures
        r == needs_gamma_spec(*f),
{
    f.color_space == COLOR_SPACE_SRGB_NONLINEAR && f.format != FORMAT_B8G8R8A8_SRGB
}

/// The present mode to take from those offered: mailbox whenever it is offered, else
/// relaxed FIFO, else FIFO, else the first offered.
pub open spec fn present_preference(modes: Seq<u32>, r: u32) -> bool {
    &&& modes.contains(PRESENT_MODE_MAILBOX) ==> r == PRESENT_MODE_MAILBOX
    &&& !modes.contains(PRESENT_MODE_MAILBOX) && modes.contains(PRESENT_MODE_FIFO_RELAXED)
        ==> r == PRESENT_MODE_FIFO_RELAXED
    &&& !modes.contains(PRESENT_MODE_MAILBOX) && !modes.contains(PRESENT_MODE_FIFO_RELAXED)
        && modes.contains(PRESENT_MODE_FIFO) ==> r == PRESENT_MODE_FIFO
    &&& !modes.contains(PRESENT_MODE_MAILBOX) && !modes.contains(PRESENT_MODE_FIFO_RELAXED)
        && !modes.contains(PRESENT_MODE_FIFO) ==> r == modes[0]
}

/// Taking the first offered mode of smallest key gives mailbox whenever it is offered,
/// relaxed FIFO only when mailbox is not, FIFO only when neither is, and otherwise the
/// first mode offered.
pub proof fn lemma_present_mode_preference(modes: Seq<u32>, r: u32, i: int)
    requires
        0 <= i < modes.len(),
        r == modes[i],
        forall|j: int| 0 <= j < modes.len() ==> present_key(r) <= present_key(#[trigger] modes[j]),
        forall|j: int| 0 <= j < i ==> present_key(r) < present_key(#[trigger] modes[j]),
    ensures
        present_preference(modes, r),
{
    if modes.contains(PRESENT_MODE_MAILBOX) {
        let j = choose|j: int| 0 <= j < modes.len() && modes[j] == PRESENT_MODE_MAILBOX;
        assert(present_key(r) <= present_key(modes[j]));
    } else if modes.contains(PRESENT_MODE_FIFO_RELAXED) {
        let j = choose|j: int| 0 <= j < modes.len() && modes[j] == PRESENT_MODE_FIFO_RELAXED;
        assert(present_key(r) <= present_key(modes[j]));
        assert(modes.contains(r));
    } else if modes.contains(PRESENT_MODE_FIFO) {
        let j = choose|j: int| 0 <= j < modes.len() && modes[j] == PRESENT_MODE_FIFO;
        assert(present_key(r) <= present_key(modes[j]));
        assert(modes.contains(r));
    } else {
        assert(modes.contains(r));
        if i > 0 {
            assert(present_key(r) < present_key(modes[0]));
            assert(modes.contains(modes[0]));
        }
    }
}

/// The preferred present mode among those offered: the first with the smallest key.
/// Vulkan always offers FIFO, so the list is never empty.
pub fn get_present_mode(present_modes: &Vec<u32>) -> (r: u32)
    requires
        present_modes@.len() > 0,
    ensures
        exists|i: int| {
            &&& 0 <= i < present_modes@.len()
            &&& r == present_modes@[i]
            &&& forall|j: int| 0 <= j < present_modes@.len() ==> present_key(r) <= present_key(#[trigger] present_modes@[j])
            &&& forall|j: int| 0 <= j < i ==> present_key(r) < present_key(#[trigger] present_modes@[j])
        },
        present_preference(present_modes@, r),
{
    let mut best: usize = 0;
    let mut best_key = mode_key(present_modes[0]);
    let mut i: usize = 1;
    while i < present_modes.len()
        invariant
            1 <= i <= present_modes@.len(),
            best < i,
            best_key == present_key(present_modes@[best as int]),
            forall|j: int| 0 <= j < i ==> best_key <= present_key(#[trigger] present_modes@[j]),
            forall|j: int| 0 <= j < best ==> best_key < present_key(#[trigger] present_modes@[j]),
        decreases present_modes.len() - i,
    {
        let k = mode_key(present_modes[i]);
        if k < best_key {
            best = i;
            best_key = k;
        }
        i = i + 1;
    }
    proof {
        lemma_present_mode_preference(present_modes@, present_modes@[best as int], best as int);
    }
    present_modes[best]
}

fn mode_key(mode: u32) -> (r: u32)
    ensures
        r == present_key(mode),
{
    if mode == PRESENT_MODE_MAILBOX {
        1
    } else if mode == PRESENT_MODE_FIFO_RELAXED {
        2
    } else if mode == PRESENT_MODE_FIFO {
        3
    } else {
        99
    }
}

impl SurfaceData {
    /// The surface data is consistent: it points at one of its formats.
    pub open spec fn wf(&self) -> bool {
        self.surface_format_index < self.surface_formats@.len()
    }

    /// Makes the choices for a surface from what it reports: its capabilities, the
    /// formats it offers and the present modes it offers. Fails with
    /// `NoSuitableSurfaceFormat` when none of the formats is usable.
    pub fn create(
        capabilities: SurfaceCapabilities,
        surface_formats: Vec<SurfaceFormat>,
        present_modes: &Vec<u32>,
    ) -> (r: Result<SurfaceData, Error>)
        requires
            present_modes@.len() > 0,
        ensures
            match r {
                Ok(sd) => {
                    &&& sd.wf()
                    &&& sd.capabilities == capabilities
                    &&& sd.surface_formats@ == surface_formats@
                    &&& sd.min_image_count == image_count_spec(capabilities)
                    &&& present_preference(present_modes@, sd.present_mode)
                    &&& format_preference(surface_formats@, Some(sd.surface_format_index))
                    &&& image_count_ok(capabilities, sd.min_image_count)
                    &&& exists|i: int| {
                        &&& 0 <= i < present_modes@.len()
                        &&& sd.present_mode == present_modes@[i]
                        &&& forall|j: int| 0 <= j < present_modes@.len() ==> present_key(sd.present_mode)
                            <= present_key(#[trigger] present_modes@[j])
                        &&& forall|j: int| 0 <= j < i ==> present_key(sd.present_mode) < present_key(
                            #[trigger] present_modes@[j])
                    }
                    &&& rank_spec(surface_formats@[sd.surface_format_index as int].format) > 0
                    &&& forall|j: int| 0 <= j < surface_formats@.len() ==> rank_spec(#[trigger] surface_formats@[j].format)
                        <= rank_spec(surface_formats@[sd.surface_format_index as int].format)
                    &&& forall|j: int| 0 <= j < sd.surface_format_index ==> rank_spec(
                        #[trigger] surface_formats@[j].format) < rank_spec(
                        surface_formats@[sd.surface_format_index as int].format)
                    &&& sd.needs_gamma == needs_gamma_spec(surface_formats@[sd.surface_format_index as int])
                },
                Err(e) => e == Error::NoSuitableSurfaceFormat && forall|j: int| 0 <= j < surface_formats@.len()
                    ==> rank_spec(#[trigger] surface_formats@[j].format) == 0 && format_preference(surface_formats@, None),
            },
    {
        let min_image_count = swapchain_image_count(&capabilities);
        let present_mode = get_present_mode(present_modes);
        let surface_format_index = match choose_surface_format(&surface_formats) {
            Some(i) => i,
            None => return Err(Error::NoSuitableSurfaceFormat),
        };
        let needs_gamma = needs_gamma(&surface_formats[surface_format_index]);
        Ok(SurfaceData {
            capabilities,
            surface_format_index,
            surface_formats,
            min_image_count,
            present_mode,
            needs_gamma,
        })
    }

    /// Takes new capabilities reported by the surface.
    pub fn update(&mut self, capabilities: SurfaceCapabilities)
        ensures
            final(self).capabilities == capabilities,
            final(self).surface_format_index == old(self).surface_format_index,
            final(self).surface_formats@ == old(self).surface_formats@,
            final(self).min_image_count == old(self).min_image_count,
            final(self).present_mode == old(self).present_mode,
            final(self).needs_gamma == old(self).needs_gamma,
    {
        self.capabilities = capabilities;
    }

    /// The extent of the swapchain: the surface's current extent when it has one,
    /// otherwise the preferred one.
    pub fn get_surface_extent(&self, preferred_extent: Extent2D) -> (r: Extent2D)
        ensures
            self.capabilities.current_extent matches Some(e) ==> r == e,
            self.capabilities.current_extent is None ==> r == preferred_extent,
    {
        match self.capabilities.current_extent {
            Some(extent) => extent,
            None => preferred_extent,
        }
    }

    /// The surface format in use.
    pub fn format(&self) -> (r: u32)
        requires
            self.wf(),
        ensures
            r == self.surface_formats@[self.surface_format_index as int].format,
    {
        self.surface_formats[self.surface_format_index].format
    }

    /// The color space in use.
    pub fn color_space(&self) -> (r: u32)
        requires
            self.wf(),
        ensures
            r == self.surface_formats@[self.surface_format_index as int].color_space,
    {
        self.surface_formats[self.surface_format_index].color_space
    }

    /// The extent after the surface changed: its current extent, or 1280x1024 in the
    /// (unexpected) case that it reports none.
    pub fn rebuild_extent(&self) -> (r: Extent2D)
        ensures
            self.capabilities.current_extent matches Some(e) ==> r == e,
            self.capabilities.current_extent is None ==> r == (Extent2D { width: 1280, height: 1024 }),
    {
        match self.capabilities.current_extent {
            Some(extent) => extent,
            None => Extent2D { width: 1280, height: 1024 },
        }
    }
}

/// How the swapchain images are shared: exclusively when graphics and presentation
/// use the same family, otherwise concurrently between the two families.
pub fn image_sharing(queue_indices: &QueueIndices) -> (r: (SharingMode, Vec<u32>))
    ensures
        queue_indices.graphics_family == queue_indices.present_family ==> r.0 == SharingMode::Exclusive
            && r.1@.len() == 0,
        queue_indices.graphics_family != queue_indices.present_family ==> r.0 == SharingMode::Concurrent
            && r.1@ == seq![queue_indices.graphics_family, queue_indices.present_family],
{
    if queue_indices.graphics_family == queue_indices.present_family {
        (SharingMode::Exclusive, Vec::new())
    } else {
        let mut v: Vec<u32> = Vec::new();
        v.push(queue_indices.graphics_family);
        v.push(queue_indices.present_family);
        assert(v@ =~= seq![queue_indices.graphics_family, queue_indices.present_family]);
        (SharingMode::Concurrent, v)
    }
}

} // verus!
