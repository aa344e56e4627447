use siege_render::frame::{frame_state, frame_step, FrameAction, FrameEvent, FramePhase};
use siege_render::config::{report_severity, ReportSeverity};
use siege_render::config::{
    debug_report_flags, default_app_name, default_asset_path, default_display_luminance, default_fps_cap,
    default_height, default_major_version, default_minor_version, default_patch_version,
    default_reversed_depth_buffer, default_timing_setup, default_tonemapper, default_vulkan_debug_output,
    default_vulkan_layers, default_vulkan_log_level, default_width, DEBUG_REPORT_DEBUG, DEBUG_REPORT_ERROR,
    DEBUG_REPORT_INFORMATION, DEBUG_REPORT_PERFORMANCE_WARNING, DEBUG_REPORT_WARNING,
};
use siege_render::device::queue_create_counts;
use siege_render::frame::{buffer_recorded, command_buffers_to_record, loop_throttle_nanos, statistics_due, ticks_between, TS_QUERY_COUNT};
use siege_render::image::{ImageTiling, IMAGE_USAGE_DEPTH_STENCIL_ATTACHMENT};
use siege_render::instance::{get_extensions, get_required_surface_extensions, SurfaceKind};
use siege_render::pipeline::{
    blend_attachment, color_blend_attachments, depth_state, shader_stages, BlendFactor, CompareOp, DepthState,
    ShaderStage, COLOR_WRITE_RGB,
};
use siege_render::queue_indices::{QueueFamily, QUEUE_COMPUTE, QUEUE_GRAPHICS, QUEUE_TRANSFER};
use siege_render::requirements::{
    add_physical_device_features, check_physical_device_features, internal_requirements, DeviceFeatures,
    FormatProperties, FEATURE_ROBUST_BUFFER_ACCESS, FEATURE_SAMPLER_ANISOTROPY, FORMAT_A2B10G10R10_UNORM_PACK32,
    FORMAT_B8G8R8A8_SRGB, FORMAT_B8G8R8A8_UNORM, FORMAT_D32_SFLOAT, FORMAT_FEATURE_COLOR_ATTACHMENT,
    FORMAT_FEATURE_SAMPLED_IMAGE, FORMAT_R8G8B8A8_UNORM,
};
use siege_render::suitability::{
    check_device_suitability, device_requirements, find_suitable_device, DeviceInfo, DeviceLimits, MemoryHeap,
    MEMORY_HEAP_DEVICE_LOCAL,
};
use siege_render::surface::{
    choose_surface_format, format_ranking, get_present_mode, image_sharing, needs_gamma, swapchain_image_count,
    Extent2D, SharingMode, SurfaceCapabilities, SurfaceData, SurfaceFormat, COLOR_SPACE_SRGB_NONLINEAR,
    PRESENT_MODE_FIFO, PRESENT_MODE_FIFO_RELAXED, PRESENT_MODE_IMMEDIATE, PRESENT_MODE_MAILBOX,
};
use siege_render::{
    BlendMode, Config, DepthHandling, DeviceRequirements, Error, ImageWrapType, QueueIndices, Timestamp, Tonemapper,
    Unsuitable, VulkanLogLevel, MAX_HEIGHT, MAX_WIDTH,
};

fn fam(count: u32, flags: u32) -> QueueFamily {
    QueueFamily { queue_count: count, queue_flags: flags }
}

const ALL: u32 = QUEUE_GRAPHICS | QUEUE_COMPUTE | QUEUE_TRANSFER;

#[test]
fn dedicated_transfer_family_is_preferred() {
    let f = vec![fam(16, ALL), fam(2, QUEUE_TRANSFER), fam(8, QUEUE_COMPUTE)];
    let q = QueueIndices::new(&f, &vec![true, false, false]).unwrap();
    assert_eq!(q, QueueIndices {
        transfer_family: 1,
        transfer_index: 0,
        graphics_family: 0,
        graphics_index: 0,
        present_family: 0,
        present_index: 0,
    });
}

#[test]
fn single_family_with_three_queues_uses_second_for_graphics() {
    let q = QueueIndices::new(&vec![fam(3, ALL)], &vec![true]).unwrap();
    assert_eq!((q.transfer_family, q.transfer_index), (0, 0));
    assert_eq!((q.graphics_family, q.graphics_index), (0, 1));
    assert_eq!((q.present_family, q.present_index), (0, 1));
}

#[test]
fn single_family_with_two_queues_shares_first_queue() {
    let q = QueueIndices::new(&vec![fam(2, ALL)], &vec![true]).unwrap();
    assert_eq!((q.graphics_family, q.graphics_index), (0, 0));
    assert_eq!((q.present_family, q.present_index), (0, 0));
}

#[test]
fn single_family_with_one_queue_is_not_enough() {
    let r = QueueIndices::new(&vec![fam(1, ALL)], &vec![true]);
    assert_eq!(r, Err(Error::DeviceNotSuitable(Unsuitable::NotEnoughQueues)));
}

#[test]
fn missing_roles_are_reported() {
    assert_eq!(QueueIndices::new(&vec![fam(4, ALL)], &vec![false]),
        Err(Error::DeviceNotSuitable(Unsuitable::NoPresentQueue)));
    assert_eq!(QueueIndices::new(&vec![fam(4, QUEUE_TRANSFER)], &vec![true]),
        Err(Error::DeviceNotSuitable(Unsuitable::NoGraphicsQueue)));
    assert_eq!(QueueIndices::new(&vec![fam(4, QUEUE_GRAPHICS)], &vec![true]),
        Err(Error::DeviceNotSuitable(Unsuitable::NoTransferQueue)));
    // a family without queues does not count
    assert_eq!(QueueIndices::new(&vec![fam(0, ALL), fam(4, QUEUE_TRANSFER)], &vec![true, false]),
        Err(Error::DeviceNotSuitable(Unsuitable::NoPresentQueue)));
    assert_eq!(QueueIndices::new(&vec![], &vec![]), Err(Error::DeviceNotSuitable(Unsuitable::NoPresentQueue)));
}

#[test]
fn graphics_prefers_a_presenting_family() {
    let f = vec![fam(1, QUEUE_TRANSFER), fam(1, QUEUE_GRAPHICS), fam(1, QUEUE_GRAPHICS)];
    let q = QueueIndices::new(&f, &vec![false, false, true]).unwrap();
    assert_eq!(q.transfer_family, 0);
    assert_eq!(q.graphics_family, 2);
    assert_eq!(q.present_family, 2);
}

#[test]
fn present_takes_the_only_other_presenter_before_the_transfer_family() {
    // the transfer family cannot present, so it is no fallback here
    let f = vec![fam(1, QUEUE_GRAPHICS | QUEUE_TRANSFER), fam(1, QUEUE_COMPUTE), fam(1, QUEUE_TRANSFER)];
    let q = QueueIndices::new(&f, &vec![false, true, false]).unwrap();
    assert_eq!(q.transfer_family, 2);
    assert_eq!((q.graphics_family, q.graphics_index), (0, 0));
    assert_eq!((q.present_family, q.present_index), (1, 0));
}

#[test]
fn present_takes_lowest_other_presenter_when_several() {
    let f = vec![fam(1, QUEUE_GRAPHICS | QUEUE_TRANSFER), fam(1, QUEUE_COMPUTE), fam(1, QUEUE_COMPUTE),
        fam(2, QUEUE_TRANSFER)];
    let q = QueueIndices::new(&f, &vec![false, true, true, false]).unwrap();
    assert_eq!(q.transfer_family, 3);
    assert_eq!(q.graphics_family, 0);
    assert_eq!((q.present_family, q.present_index), (1, 0));
}

#[test]
fn device_queue_counts_cover_every_used_queue() {
    let q = QueueIndices {
        transfer_family: 1,
        transfer_index: 0,
        graphics_family: 0,
        graphics_index: 1,
        present_family: 0,
        present_index: 0,
    };
    assert_eq!(queue_create_counts(&q), vec![(0, 2), (1, 1)]);
    let same = QueueIndices {
        transfer_family: 0,
        transfer_index: 0,
        graphics_family: 0,
        graphics_index: 1,
        present_family: 0,
        present_index: 1,
    };
    assert_eq!(queue_create_counts(&same), vec![(0, 2)]);
}

fn ext(name: &str, v: u32) -> (String, u32) {
    (name.to_string(), v)
}

fn requirements_with(exts: Vec<(String, u32)>, gpu_memory: u64) -> DeviceRequirements {
    DeviceRequirements { extensions_required: exts, gpu_memory_required: gpu_memory, ..Default::default() }
}

#[test]
fn requirements_add_merges_extensions_and_sums_counts() {
    let mut a = requirements_with(vec![ext("A", 1), ext("B", 5)], 100);
    a.num_samplers_required = 2;
    a.max_push_constants_size = 64;
    a.features_required = DeviceFeatures { bits: 0b01 };
    a.formats_required = vec![(1, FormatProperties { linear_tiling_features: 1, optimal_tiling_features: 2, buffer_features: 3 })];
    let mut b = requirements_with(vec![ext("B", 3), ext("C", 2), ext("A", 4)], 50);
    b.num_samplers_required = 3;
    b.max_push_constants_size = 256;
    b.features_required = DeviceFeatures { bits: 0b10 };
    b.formats_required = vec![(2, FormatProperties { linear_tiling_features: 0, optimal_tiling_features: 0, buffer_features: 0 })];
    let s = a.add(&b);
    assert_eq!(s.extensions_required, vec![ext("A", 4), ext("B", 5), ext("C", 2)]);
    assert_eq!(s.gpu_memory_required, 150);
    assert_eq!(s.num_samplers_required, 5);
    assert_eq!(s.max_push_constants_size, 256);
    assert_eq!(s.features_required.bits, 0b11);
    assert_eq!(s.formats_required.iter().map(|f| f.0).collect::<Vec<_>>(), vec![1, 2]);
}

#[test]
fn default_requirements_are_empty() {
    let d: DeviceRequirements = Default::default();
    assert!(d.extensions_required.is_empty() && d.formats_required.is_empty());
    assert_eq!(d.features_required.bits, 0);
    assert_eq!(d.gpu_memory_required, 0);
    assert_eq!(d.max_push_constants_size, 0);
}

#[test]
fn feature_checks() {
    let has = DeviceFeatures::none().with(FEATURE_SAMPLER_ANISOTROPY).with(3);
    assert!(has.has(FEATURE_SAMPLER_ANISOTROPY));
    assert!(!has.has(FEATURE_ROBUST_BUFFER_ACCESS));
    assert!(check_physical_device_features(&has, &DeviceFeatures::none().with(3)));
    assert!(!check_physical_device_features(&has, &DeviceFeatures::none().with(FEATURE_ROBUST_BUFFER_ACCESS)));
    let u = add_physical_device_features(&DeviceFeatures { bits: 0b100 }, &DeviceFeatures { bits: 0b001 });
    assert_eq!(u.bits, 0b101);
    // a device covers a sum of requirements exactly when it covers each part
    let a = DeviceFeatures::none().with(3);
    let b = DeviceFeatures::none().with(FEATURE_ROBUST_BUFFER_ACCESS);
    let sum = add_physical_device_features(&a, &b);
    assert_eq!(check_physical_device_features(&has, &sum),
        check_physical_device_features(&has, &a) && check_physical_device_features(&has, &b));
}

#[test]
fn internal_requirements_depend_on_build() {
    let d = internal_requirements(true);
    assert_eq!(d.extensions_required, vec![ext("VK_KHR_swapchain", 68)]);
    assert!(d.features_required.has(FEATURE_ROBUST_BUFFER_ACCESS));
    assert_eq!(d.formats_required.len(), 6);
    assert_eq!(d.formats_required[0].0, FORMAT_D32_SFLOAT);
    assert_eq!(d.formats_required[3].0, FORMAT_R8G8B8A8_UNORM);
    assert_eq!(d.formats_required[1].1.optimal_tiling_features, FORMAT_FEATURE_COLOR_ATTACHMENT | FORMAT_FEATURE_SAMPLED_IMAGE);
    let r = internal_requirements(false);
    assert_eq!(r.features_required.bits, 0);
}

fn good_device(n_formats: usize) -> DeviceInfo {
    DeviceInfo {
        features: DeviceFeatures { bits: u64::MAX },
        format_properties: vec![FormatProperties {
            linear_tiling_features: 0xffff,
            optimal_tiling_features: 0xffff,
            buffer_features: 0xffff,
        }; n_formats],
        memory_heaps: vec![
            MemoryHeap { size: 1 << 30, flags: MEMORY_HEAP_DEVICE_LOCAL },
            MemoryHeap { size: 1 << 33, flags: 0 },
            MemoryHeap { size: 1 << 30, flags: MEMORY_HEAP_DEVICE_LOCAL },
        ],
        extensions: vec![ext("VK_KHR_swapchain", 70), ext("VK_EXT_other", 1)],
        limits: DeviceLimits { max_push_constants_size: 128, max_color_attachments: 8, max_framebuffer_layers: 256 },
        queue_families: vec![fam(16, ALL)],
        present_support: vec![true],
    }
}

#[test]
fn suitable_device_gets_its_queues() {
    let req = device_requirements(&Default::default(), false);
    let d = good_device(req.formats_required.len());
    let q = check_device_suitability(&d, &req).unwrap();
    assert_eq!((q.graphics_family, q.graphics_index), (0, 1));
}

#[test]
fn unsuitable_devices_report_the_first_failure() {
    let mut req = device_requirements(&requirements_with(vec![ext("VK_EXT_other", 2)], 2 << 30), true);
    req.max_push_constants_size = 256;
    let n = req.formats_required.len();

    let mut d = good_device(n);
    d.features = DeviceFeatures { bits: 0 };
    assert_eq!(check_device_suitability(&d, &req), Err(Error::DeviceNotSuitable(Unsuitable::MissingFeature)));

    let mut d = good_device(n);
    d.format_properties[2].optimal_tiling_features = FORMAT_FEATURE_SAMPLED_IMAGE;
    assert_eq!(check_device_suitability(&d, &req), Err(Error::DeviceNotSuitable(Unsuitable::OptimalTiling {
        format: req.formats_required[2].0,
        required: FORMAT_FEATURE_COLOR_ATTACHMENT | FORMAT_FEATURE_SAMPLED_IMAGE,
        supported: FORMAT_FEATURE_SAMPLED_IMAGE,
    })));

    let mut d = good_device(n);
    d.memory_heaps.pop();
    assert_eq!(check_device_suitability(&d, &req), Err(Error::DeviceNotSuitable(Unsuitable::NotEnoughMemory)));

    let d = good_device(n);
    assert_eq!(check_device_suitability(&d, &req), Err(Error::DeviceNotSuitable(Unsuitable::ExtensionTooOld {
        name: "VK_EXT_other".to_string(),
        available: 1,
        required: 2,
    })));

    let mut d = good_device(n);
    d.extensions.pop();
    assert_eq!(check_device_suitability(&d, &req), Err(Error::DeviceNotSuitable(Unsuitable::ExtensionMissing {
        name: "VK_EXT_other".to_string(),
    })));

    let mut d = good_device(n);
    d.extensions[1].1 = 2;
    assert_eq!(check_device_suitability(&d, &req), Err(Error::DeviceNotSuitable(Unsuitable::PushConstantsTooSmall {
        available: 128,
        required: 256,
    })));
    d.limits.max_push_constants_size = 256;
    d.limits.max_color_attachments = 0;
    assert_eq!(check_device_suitability(&d, &req), Err(Error::DeviceNotSuitable(Unsuitable::NoColorAttachment)));
    d.limits.max_color_attachments = 1;
    d.limits.max_framebuffer_layers = 0;
    assert_eq!(check_device_suitability(&d, &req), Err(Error::DeviceNotSuitable(Unsuitable::NoFramebufferLayer)));
    d.limits.max_framebuffer_layers = 1;
    d.present_support = vec![false];
    assert_eq!(check_device_suitability(&d, &req), Err(Error::DeviceNotSuitable(Unsuitable::NoPresentQueue)));
    d.present_support = vec![true];
    assert!(check_device_suitability(&d, &req).is_ok());
}

#[test]
fn first_suitable_device_is_chosen() {
    let req = device_requirements(&Default::default(), false);
    let n = req.formats_required.len();
    let mut bad = good_device(n);
    bad.limits.max_color_attachments = 0;
    let mut other = good_device(n);
    other.queue_families = vec![fam(2, ALL), fam(1, QUEUE_TRANSFER)];
    other.present_support = vec![true, false];
    let devices = vec![bad, other, good_device(n)];
    let (i, q) = find_suitable_device(&devices, &req).unwrap();
    assert_eq!(i, 1);
    assert_eq!(q.transfer_family, 1);
    let mut worse = good_device(n);
    worse.limits.max_framebuffer_layers = 0;
    assert_eq!(find_suitable_device(&vec![worse], &req), Err(Error::NoSuitableDevice));
    assert_eq!(find_suitable_device(&vec![], &req), Err(Error::NoSuitableDevice));
}

#[test]
fn surface_image_count_is_three_within_limits() {
    let caps = |min, max| SurfaceCapabilities { min_image_count: min, max_image_count: max, current_extent: None, current_transform: 1 };
    assert_eq!(swapchain_image_count(&caps(2, None)), 3);
    assert_eq!(swapchain_image_count(&caps(4, None)), 4);
    assert_eq!(swapchain_image_count(&caps(1, Some(2))), 2);
    assert_eq!(swapchain_image_count(&caps(2, Some(8))), 3);
    assert_eq!(swapchain_image_count(&caps(5, Some(8))), 5);
}

fn sf(format: u32) -> SurfaceFormat {
    SurfaceFormat { format, color_space: COLOR_SPACE_SRGB_NONLINEAR }
}

#[test]
fn surface_format_choice_prefers_ten_bit_color() {
    assert_eq!(format_ranking(FORMAT_A2B10G10R10_UNORM_PACK32), 3);
    assert_eq!(format_ranking(FORMAT_B8G8R8A8_SRGB), 2);
    assert_eq!(format_ranking(FORMAT_B8G8R8A8_UNORM), 1);
    assert_eq!(format_ranking(FORMAT_R8G8B8A8_UNORM), 0);
    let fs = vec![sf(FORMAT_R8G8B8A8_UNORM), sf(FORMAT_B8G8R8A8_UNORM), sf(FORMAT_B8G8R8A8_SRGB), sf(FORMAT_B8G8R8A8_SRGB)];
    assert_eq!(choose_surface_format(&fs), Some(2));
    let fs = vec![sf(FORMAT_B8G8R8A8_UNORM), sf(FORMAT_A2B10G10R10_UNORM_PACK32)];
    assert_eq!(choose_surface_format(&fs), Some(1));
    assert_eq!(choose_surface_format(&vec![sf(FORMAT_R8G8B8A8_UNORM)]), None);
    assert_eq!(choose_surface_format(&vec![]), None);
}

#[test]
fn gamma_is_needed_unless_format_converts() {
    assert!(needs_gamma(&sf(FORMAT_B8G8R8A8_UNORM)));
    assert!(needs_gamma(&sf(FORMAT_A2B10G10R10_UNORM_PACK32)));
    assert!(!needs_gamma(&sf(FORMAT_B8G8R8A8_SRGB)));
    assert!(!needs_gamma(&SurfaceFormat { format: FORMAT_B8G8R8A8_UNORM, color_space: 1000104001 }));
}

#[test]
fn present_mode_prefers_mailbox() {
    assert_eq!(get_present_mode(&vec![PRESENT_MODE_FIFO, PRESENT_MODE_MAILBOX, PRESENT_MODE_IMMEDIATE]), PRESENT_MODE_MAILBOX);
    assert_eq!(get_present_mode(&vec![PRESENT_MODE_FIFO, PRESENT_MODE_FIFO_RELAXED]), PRESENT_MODE_FIFO_RELAXED);
    assert_eq!(get_present_mode(&vec![PRESENT_MODE_IMMEDIATE, PRESENT_MODE_FIFO]), PRESENT_MODE_FIFO);
    assert_eq!(get_present_mode(&vec![PRESENT_MODE_IMMEDIATE]), PRESENT_MODE_IMMEDIATE);
}

#[test]
fn surface_data_creation_and_extents() {
    let caps = SurfaceCapabilities {
        min_image_count: 2,
        max_image_count: Some(8),
        current_extent: Some(Extent2D { width: 1920, height: 1080 }),
        current_transform: 1,
    };
    let sd = SurfaceData::create(caps, vec![sf(FORMAT_R8G8B8A8_UNORM), sf(FORMAT_B8G8R8A8_UNORM)],
        &vec![PRESENT_MODE_FIFO, PRESENT_MODE_MAILBOX]).unwrap();
    assert_eq!(sd.surface_format_index, 1);
    assert_eq!(sd.format(), FORMAT_B8G8R8A8_UNORM);
    assert_eq!(sd.color_space(), COLOR_SPACE_SRGB_NONLINEAR);
    assert_eq!(sd.min_image_count, 3);
    assert_eq!(sd.present_mode, PRESENT_MODE_MAILBOX);
    assert!(sd.needs_gamma);
    let preferred = Extent2D { width: 800, height: 600 };
    assert_eq!(sd.get_surface_extent(preferred), Extent2D { width: 1920, height: 1080 });
    let mut sd = sd;
    sd.update(SurfaceCapabilities { current_extent: None, ..caps });
    assert_eq!(sd.get_surface_extent(preferred), preferred);
    assert_eq!(sd.rebuild_extent(), Extent2D { width: 1280, height: 1024 });
    let bad = SurfaceData::create(caps, vec![sf(FORMAT_R8G8B8A8_UNORM)], &vec![PRESENT_MODE_FIFO]);
    assert!(matches!(bad, Err(Error::NoSuitableSurfaceFormat)));
}

#[test]
fn swapchain_sharing_depends_on_families() {
    let mut q = QueueIndices {
        transfer_family: 1,
        transfer_index: 0,
        graphics_family: 0,
        graphics_index: 0,
        present_family: 0,
        present_index: 0,
    };
    assert_eq!(image_sharing(&q), (SharingMode::Exclusive, vec![]));
    q.present_family = 2;
    assert_eq!(image_sharing(&q), (SharingMode::Concurrent, vec![0, 2]));
}

#[test]
fn blend_modes() {
    let off = blend_attachment(BlendMode::Off);
    assert!(!off.blend_enable);
    let alpha = blend_attachment(BlendMode::Alpha);
    assert!(alpha.blend_enable);
    assert_eq!((alpha.src_color_blend_factor, alpha.dst_color_blend_factor), (BlendFactor::SrcAlpha, BlendFactor::OneMinusSrcAlpha));
    let pre = blend_attachment(BlendMode::PreMultiplied);
    assert_eq!((pre.src_color_blend_factor, pre.dst_color_blend_factor), (BlendFactor::One, BlendFactor::OneMinusSrcAlpha));
    let add = blend_attachment(BlendMode::Add);
    assert_eq!((add.src_color_blend_factor, add.dst_color_blend_factor), (BlendFactor::One, BlendFactor::One));
    assert_eq!((add.src_alpha_blend_factor, add.dst_alpha_blend_factor), (BlendFactor::One, BlendFactor::Zero));
    assert_eq!(add.color_write_mask, COLOR_WRITE_RGB);
    assert!(color_blend_attachments(&vec![]).is_none());
    assert_eq!(color_blend_attachments(&vec![BlendMode::Off, BlendMode::Add]).unwrap(), vec![off, add]);
}

#[test]
fn depth_and_stages() {
    assert_eq!(depth_state(DepthHandling::Off, true), None);
    assert_eq!(depth_state(DepthHandling::On(true, false), true),
        Some(DepthState { test: true, write: false, compare: CompareOp::GreaterOrEqual }));
    assert_eq!(depth_state(DepthHandling::On(true, true), false),
        Some(DepthState { test: true, write: true, compare: CompareOp::LessOrEqual }));
    assert_eq!(shader_stages(true, true), vec![ShaderStage::Vertex, ShaderStage::Fragment]);
    assert_eq!(shader_stages(false, true), vec![ShaderStage::Fragment]);
    assert_eq!(shader_stages(false, false), vec![]);
}

#[test]
fn image_kinds() {
    assert_eq!(ImageWrapType::Depth.creation_usage_tiling(0x4, ImageTiling::Linear),
        (0x4 | IMAGE_USAGE_DEPTH_STENCIL_ATTACHMENT, ImageTiling::Optimal));
    assert_eq!(ImageWrapType::Standard.creation_usage_tiling(0x4, ImageTiling::Linear), (0x4, ImageTiling::Linear));
    assert_eq!(ImageWrapType::Cubemap.array_layers(), 6);
    assert_eq!(ImageWrapType::Swapchain.array_layers(), 1);
    assert!(ImageWrapType::Cubemap.is_cube() && !ImageWrapType::Standard.is_cube());
    assert!(ImageWrapType::Depth.depth_aspect() && !ImageWrapType::Cubemap.depth_aspect());
}

#[test]
fn frame_pacing_and_statistics() {
    assert_eq!(loop_throttle_nanos(120), 8_333_333);
    assert_eq!(loop_throttle_nanos(1), 1_000_000_000);
    assert_eq!(loop_throttle_nanos(0), 0);
    assert_eq!(statistics_due(1200), (true, true));
    assert_eq!(statistics_due(60), (false, true));
    assert_eq!(statistics_due(61), (false, false));
    assert_eq!(statistics_due(0), (true, true));
}

#[test]
fn timestamps_and_ticks() {
    assert_eq!(Timestamp::FullStart.index(), 0);
    assert_eq!(Timestamp::UiEnd.index(), TS_QUERY_COUNT - 1);
    let mut results = vec![0u32; TS_QUERY_COUNT as usize];
    results[2] = 100;
    results[3] = 350;
    assert_eq!(ticks_between(&results, Timestamp::GeometryStart, Timestamp::GeometryEnd), 250);
    results[3] = 50;
    assert_eq!(ticks_between(&results, Timestamp::GeometryStart, Timestamp::GeometryEnd), 0);
}

#[test]
fn stale_command_buffers_are_recorded_except_in_flight() {
    let mut stale = vec![false, true, true, false];
    assert_eq!(command_buffers_to_record(&mut stale, 1, false), vec![2]);
    // flags stay set until each buffer is reported recorded
    assert_eq!(stale, vec![false, true, true, false]);
    buffer_recorded(&mut stale, 2);
    assert_eq!(stale, vec![false, true, false, false]);
    let mut stale = vec![false, false, false];
    assert_eq!(command_buffers_to_record(&mut stale, 0, true), vec![1, 2]);
    assert_eq!(stale, vec![true, true, true]);
}

#[test]
fn surface_extensions_and_availability() {
    assert_eq!(get_required_surface_extensions(SurfaceKind::Xlib), vec!["VK_KHR_surface".to_string(), "VK_KHR_xlib_surface".to_string()]);
    assert_eq!(get_required_surface_extensions(SurfaceKind::Win32)[1], "VK_KHR_win32_surface");
    let avail = vec!["VK_KHR_surface".to_string(), "VK_KHR_wayland_surface".to_string(), "VK_EXT_debug_report".to_string()];
    assert_eq!(get_extensions(SurfaceKind::Wayland, true, &avail).unwrap(),
        vec!["VK_KHR_surface".to_string(), "VK_KHR_wayland_surface".to_string(), "VK_EXT_debug_report".to_string()]);
    assert_eq!(get_extensions(SurfaceKind::Xcb, false, &avail), Err(Error::MissingExtensions("VK_KHR_xcb_surface".to_string())));
    assert_eq!(get_extensions(SurfaceKind::Wayland, true, &avail[..2].to_vec()),
        Err(Error::MissingExtensions("VK_EXT_debug_report".to_string())));
}

#[test]
fn config_defaults() {
    let c = Config::default_for(true);
    assert_eq!(c.app_name, "Unspecified");
    assert_eq!((c.major_version, c.minor_version, c.patch_version), (0, 1, 0));
    assert_eq!(c.asset_path, "assets");
    assert!(c.vulkan_debug_output);
    assert_eq!(c.vulkan_log_level, VulkanLogLevel::Debug);
    assert!(c.vulkan_layers.is_empty());
    assert_eq!(c.fps_cap, 120);
    assert!(c.reversed_depth_buffer);
    assert_eq!((c.width, c.height), (800, 600));
    assert_eq!(c.display_luminance, 80);
    assert!(!c.timing_setup);
    assert_eq!(c.tonemapper, Tonemapper::HybridLogGamma);
    let r = Config::default_for(false);
    assert!(!r.vulkan_debug_output);
    assert_eq!(r.vulkan_log_level, VulkanLogLevel::PerformanceWarning);
    assert_eq!(default_app_name(), "Unspecified");
    assert_eq!(default_asset_path(), "assets");
    assert_eq!((default_major_version(), default_minor_version(), default_patch_version()), (0, 1, 0));
    assert!(default_vulkan_debug_output(true) && !default_vulkan_debug_output(false));
    assert_eq!(default_vulkan_log_level(false), VulkanLogLevel::PerformanceWarning);
    assert!(default_vulkan_layers().is_empty());
    assert_eq!(default_fps_cap(), 120);
    assert!(default_reversed_depth_buffer());
    assert_eq!((default_width(), default_height()), (800, 600));
    assert_eq!(default_display_luminance(), 80);
    assert!(!default_timing_setup());
    assert_eq!(default_tonemapper(), Tonemapper::HybridLogGamma);
    assert_eq!((MAX_WIDTH, MAX_HEIGHT), (3840, 2160));
}

#[test]
fn debug_report_flags_follow_log_level() {
    assert_eq!(debug_report_flags(VulkanLogLevel::Error), DEBUG_REPORT_ERROR);
    assert_eq!(debug_report_flags(VulkanLogLevel::Warning), DEBUG_REPORT_ERROR | DEBUG_REPORT_WARNING);
    assert_eq!(debug_report_flags(VulkanLogLevel::PerformanceWarning),
        DEBUG_REPORT_ERROR | DEBUG_REPORT_WARNING | DEBUG_REPORT_PERFORMANCE_WARNING);
    assert_eq!(debug_report_flags(VulkanLogLevel::Debug), 0x1f);
    assert_eq!(debug_report_flags(VulkanLogLevel::Information) & DEBUG_REPORT_DEBUG, 0);
    assert_ne!(debug_report_flags(VulkanLogLevel::Information) & DEBUG_REPORT_INFORMATION, 0);
    assert!(VulkanLogLevel::Debug.at_least(VulkanLogLevel::Warning));
    assert!(!VulkanLogLevel::Error.at_least(VulkanLogLevel::Warning));
}

#[test]
fn tonemapper_values() {
    assert_eq!(Tonemapper::Clamp.value(), 0);
    assert_eq!(Tonemapper::Reinhard.value(), 1);
    assert_eq!(Tonemapper::Exposure.value(), 2);
    assert_eq!(Tonemapper::HybridLogGamma.value(), 3);
    assert_eq!(Tonemapper::Falsecolor.value(), 4);
}

#[test]
fn report_severity_by_most_severe_flag() {
    assert_eq!(report_severity(DEBUG_REPORT_ERROR | DEBUG_REPORT_WARNING, false), ReportSeverity::Error);
    assert_eq!(report_severity(DEBUG_REPORT_PERFORMANCE_WARNING | DEBUG_REPORT_DEBUG, false), ReportSeverity::Warning);
    assert_eq!(report_severity(DEBUG_REPORT_INFORMATION, false), ReportSeverity::Information);
    assert_eq!(report_severity(DEBUG_REPORT_DEBUG, false), ReportSeverity::Debug);
    assert_eq!(report_severity(0, false), ReportSeverity::Ignored);
    assert_eq!(report_severity(DEBUG_REPORT_ERROR, true), ReportSeverity::Ignored);
}

#[test]
fn present_queue_falls_back_to_the_only_other_presenting_family() {
    let f = vec![fam(1, QUEUE_TRANSFER), fam(1, QUEUE_GRAPHICS), fam(1, 0)];
    let q = QueueIndices::new(&f, &vec![false, false, true]).unwrap();
    assert_eq!(q.transfer_family, 0);
    assert_eq!(q.graphics_family, 1);
    assert_eq!((q.present_family, q.present_index), (2, 0));
}

#[test]
fn rebuild_on_resize_or_out_of_date_marks_everything_stale() {
    let mut s = frame_state(3, 120);
    assert_eq!(s.stale, vec![true, true, true]);
    assert_eq!(s.throttle_nanos, 8_333_333);
    for i in 0..3 {
        assert_eq!(frame_step(&mut s, FrameEvent::Recorded { index: i }), FrameAction::Continue);
    }
    assert_eq!(s.stale, vec![false, false, false]);
    assert_eq!(frame_step(&mut s, FrameEvent::Resized), FrameAction::Rebuild);
    assert_eq!(s.stale, vec![true, true, true]);
    frame_step(&mut s, FrameEvent::Recorded { index: 1 });
    assert_eq!(frame_step(&mut s, FrameEvent::OutOfDate), FrameAction::Rebuild);
    assert_eq!(s.stale, vec![true, true, true]);
}

#[test]
fn started_frame_records_stale_buffers_except_in_flight() {
    let mut s = frame_state(3, 0);
    frame_step(&mut s, FrameEvent::Recorded { index: 0 });
    frame_step(&mut s, FrameEvent::Recorded { index: 2 });
    assert_eq!(
        frame_step(&mut s, FrameEvent::Started { present_image: 0, need_rerecord: false }),
        FrameAction::Record(vec![1])
    );
    frame_step(&mut s, FrameEvent::Recorded { index: 1 });
    assert_eq!(
        frame_step(&mut s, FrameEvent::Started { present_image: 2, need_rerecord: true }),
        FrameAction::Record(vec![0, 1])
    );
    assert_eq!(s.stale, vec![true, true, true]);
}

#[test]
fn rendered_frames_throttle_count_and_stop() {
    let mut s = frame_state(2, 100);
    assert_eq!(
        frame_step(&mut s, FrameEvent::Rendered { shutdown: false, elapsed_nanos: 4_000_000 }),
        FrameAction::Finish { sleep_nanos: 6_000_000, stats_600: false, stats_60: false }
    );
    s.framenumber = 59;
    assert_eq!(
        frame_step(&mut s, FrameEvent::Rendered { shutdown: false, elapsed_nanos: 20_000_000 }),
        FrameAction::Finish { sleep_nanos: 0, stats_600: false, stats_60: true }
    );
    s.framenumber = 599;
    assert_eq!(
        frame_step(&mut s, FrameEvent::Rendered { shutdown: false, elapsed_nanos: 0 }),
        FrameAction::Finish { sleep_nanos: 10_000_000, stats_600: true, stats_60: true }
    );
    assert_eq!(frame_step(&mut s, FrameEvent::Idle), FrameAction::Continue);
    assert_eq!(frame_step(&mut s, FrameEvent::Rendered { shutdown: true, elapsed_nanos: 0 }), FrameAction::WaitIdle);
    assert_eq!(s.framenumber, 601);
    assert_eq!(s.phase, FramePhase::Stopping);
    assert_eq!(frame_step(&mut s, FrameEvent::Idle), FrameAction::Stop);
    assert_eq!(s.phase, FramePhase::Stopped);
    assert_eq!(frame_step(&mut s, FrameEvent::Resized), FrameAction::Stop);
}

#[test]
fn error_messages_read_as_the_renderer_reports_them() {
    assert_eq!(
        Error::DeviceNotSuitable(Unsuitable::NoPresentQueue).message(),
        "Device not suitable: 'No suitable presentation queue found'"
    );
    assert_eq!(
        Unsuitable::ExtensionTooOld { name: "VK_KHR_swapchain".to_owned(), available: 67, required: 68 }.message(),
        "Extension VK_KHR_swapchain version 67 is too low (68 is required)"
    );
    assert_eq!(
        Unsuitable::OptimalTiling { format: 126, required: 512, supported: 0 }.message(),
        "Device does not support format D32_SFloat in optimal tiling for DEPTH_STENCIL_ATTACHMENT (supports (empty))"
    );
    assert_eq!(
        Unsuitable::PushConstantsTooSmall { available: 128, required: 256 }.message(),
        "Max push constants size is 128 (required is 256)"
    );
    assert_eq!(Error::MissingExtensions("VK_KHR_surface".to_owned()).message(), "Vulkan Extensions Missing: 'VK_KHR_surface'");
    assert_eq!(Error::NoSuitableDevice.message(), "No Suitable Graphics Device Found");
    assert_eq!(Unsuitable::NotEnoughQueues.message(), "Not enough queues for two graphics queues");
}

#[test]
fn config_summary_lists_every_setting() {
    let mut c = Config::default_for(false);
    c.vulkan_layers = vec!["VK_LAYER_KHRONOS_validation".to_owned()];
    let expected = "    App name: Unspecified\n    App version: 0.1.0\n    Renderer version: 0.2.1\n    Asset path: \"assets\"\n    Vulkan debug output: false\n    Vulkan log level: PerformanceWarning\n    Vulkan log layers:\n      VK_LAYER_KHRONOS_validation\n    Reversed depth buffer: true\n    FPS cap: 120\n    width: 800\n    height: 600\n    display luminance (max): 80 cd/m²\n    Timing Setup: false\n    Tone mapper: HybridLogGamma\n";
    assert_eq!(c.summary("0.2.1"), expected);
}

#[test]
fn adding_no_requirements_changes_nothing() {
    let r = internal_requirements(true);
    let d = DeviceRequirements::default();
    for sum in [r.add(&d), d.add(&r)] {
        assert_eq!(sum.extensions_required, r.extensions_required);
        assert_eq!(sum.features_required.bits, r.features_required.bits);
        assert_eq!(sum.formats_required, r.formats_required);
        assert_eq!(sum.gpu_memory_required, r.gpu_memory_required);
        assert_eq!(sum.max_push_constants_size, r.max_push_constants_size);
        assert_eq!(sum.num_samplers_required, r.num_samplers_required);
    }
}

#[test]
fn format_and_feature_names_in_messages() {
    assert_eq!(
        Unsuitable::LinearTiling { format: 44, required: 0x81, supported: 0x1 }.message(),
        "Device does not support format B8G8R8A8_UNorm in linear tiling for SAMPLED_IMAGE | COLOR_ATTACHMENT (supports SAMPLED_IMAGE)"
    );
    assert_eq!(
        Unsuitable::BufferFeatures { format: 9999, required: 0x8000_0040, supported: 0x7fff_ffff }.message(),
        "Device does not support format Unknown(9999) in buffers for VERTEX_BUFFER | 0x80000000 (supports MAX_ENUM | SAMPLED_IMAGE | STORAGE_IMAGE | STORAGE_IMAGE_ATOMIC | UNIFORM_TEXEL_BUFFER | STORAGE_TEXEL_BUFFER | STORAGE_TEXEL_BUFFER_ATOMIC | VERTEX_BUFFER | COLOR_ATTACHMENT | COLOR_ATTACHMENT_BLEND | DEPTH_STENCIL_ATTACHMENT | BLIT_SRC | BLIT_DST | SAMPLED_IMAGE_FILTER_LINEAR | SAMPLED_IMAGE_FILTER_CUBIC_BIT)"
    );
    assert_eq!(siege_render::names::format_name_string(1000054003), "PVRTC2_4BPP_UNorm_Block_Img");
}

#[test]
fn config_summary_escapes_the_asset_path() {
    let mut c = Config::default_for(true);
    c.asset_path = "a\"b\\c\nd\te\u{1b}f'".to_owned();
    let s = c.summary("1.0.0");
    let line = s.lines().find(|l| l.starts_with("    Asset path:")).unwrap().to_owned();
    assert_eq!(line, format!("    Asset path: {:?}", c.asset_path));
    assert_eq!(line, "    Asset path: \"a\\\"b\\\\c\\nd\\te\\u{1b}f'\"");
}
