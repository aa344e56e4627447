//! Renderer configuration and its defaults.
use vstd::prelude::*;
use vstd::string::StringExecFns;

use crate::text::{debug_escape, decimal, push_decimal, push_escaped};

verus! {

/// How much the Vulkan validation layers report, from least to most.
#[derive(Debug, Clone, Copy, PartialEq, Eq, Structural)]
pub enum VulkanLogLevel {
    Error,
    Warning,
    PerformanceWarning,
    Information,
    Debug,
}

impl VulkanLogLevel {
    /// Position of the level, from 0 (`Error`) to 4 (`Debug`).
    pub open spec fn spec_rank(&self) -> u8 {
        match self {
            VulkanLogLevel::Error => 0,
            VulkanLogLevel::Warning => 1,
            VulkanLogLevel::PerformanceWarning => 2,
            VulkanLogLevel::Information => 3,
            VulkanLogLevel::Debug => 4,
        }
    }

    /// Position of the level, from 0 (`Error`) to 4 (`Debug`).
    pub fn rank(&self) -> (r: u8)
        ensures
            r == self.spec_rank(),
    {
        match self {
            VulkanLogLevel::Error => 0,
            VulkanLogLevel::Warning => 1,
            VulkanLogLevel::PerformanceWarning => 2,
            VulkanLogLevel::Information => 3,
            VulkanLogLevel::Debug => 4,
        }
    }

    /// Whether this level reports at least as much as `other`.
    pub fn at_least(&self, other: VulkanLogLevel) -> (r: bool)
        ensures
            r == (self.spec_rank() >= other.spec_rank()),
    {
        self.rank() >= other.rank()
    }
}

/// Debug-report flag: informational messages.
pub const DEBUG_REPORT_INFORMATION: u32 = 0x1;
/// Debug-report flag: warnings.
pub const DEBUG_REPORT_WARNING: u32 = 0x2;
/// Debug-report flag: performance warnings.
pub const DEBUG_REPORT_PERFORMANCE_WARNING: u32 = 0x4;
/// Debug-report flag: errors.
pub const DEBUG_REPORT_ERROR: u32 = 0x8;
/// Debug-report flag: debug messages.
pub const DEBUG_REPORT_DEBUG: u32 = 0x10;

/// The debug-report flags for a log level: errors always, and each kind of message
/// whose level is at or below the configured one.
pub open spec fn debug_report_flags_spec(level: VulkanLogLevel) -> u32 {
    let r = level.spec_rank();
    DEBUG_REPORT_ERROR
        | (if r >= 1 { DEBUG_REPORT_WARNING } else { 0 })
        | (if r >= 2 { DEBUG_REPORT_PERFORMANCE_WARNING } else { 0 })
        | (if r >= 3 { DEBUG_REPORT_INFORMATION } else { 0 })
        | (if r >= 4 { DEBUG_REPORT_DEBUG } else { 0 })
}

/// The debug-report flags to ask for at a log level.
pub fn debug_report_flags(level: VulkanLogLevel) -> (r: u32)
    ensures
        r == debug_report_flags_spec(level),
        r & DEBUG_REPORT_ERROR != 0,
{
    let mut flags = DEBUG_REPORT_ERROR;
    let w: u32 = if level.at_least(VulkanLogLevel::Warning) { DEBUG_REPORT_WARNING } else { 0 };
    let p: u32 = if level.at_least(VulkanLogLevel::PerformanceWarning) { DEBUG_REPORT_PERFORMANCE_WARNING } else { 0 };
    let i: u32 = if level.at_least(VulkanLogLevel::Information) { DEBUG_REPORT_INFORMATION } else { 0 };
    let d: u32 = if level.at_least(VulkanLogLevel::Debug) { DEBUG_REPORT_DEBUG } else { 0 };
    flags = flags | w;
    flags = flags | p;
    flags = flags | i;
    flags = flags | d;
    assert((((((8u32 | w) | p) | i) | d) & 8u32) != 0) by (bit_vector);
    flags
}

/// A kind of message is asked for exactly when the log level reaches it: errors always,
/// warnings from `Warning` on, performance warnings from `PerformanceWarning` on,
/// informational messages from `Information` on and debug messages only at `Debug`;
/// no other flag is ever set.
pub proof fn lemma_debug_report_flags(level: VulkanLogLevel)
    ensures
        debug_report_flags_spec(level) & DEBUG_REPORT_ERROR != 0,
        (debug_report_flags_spec(level) & DEBUG_REPORT_WARNING != 0) <==> level.spec_rank()
            >= VulkanLogLevel::Warning.spec_rank(),
        (debug_report_flags_spec(level) & DEBUG_REPORT_PERFORMANCE_WARNING != 0) <==> level.spec_rank()
            >= VulkanLogLevel::PerformanceWarning.spec_rank(),
        (debug_report_flags_spec(level) & DEBUG_REPORT_INFORMATION != 0) <==> level.spec_rank()
            >= VulkanLogLevel::Information.spec_rank(),
        (debug_report_flags_spec(level) & DEBUG_REPORT_DEBUG != 0) <==> level.spec_rank()
            >= VulkanLogLevel::Debug.spec_rank(),
        debug_report_flags_spec(level) & !0x1fu32 == 0,
{
    let f = debug_report_flags_spec(level);
    match level {
        VulkanLogLevel::Error => {
            assert(f == (8u32 | 0u32 | 0u32 | 0u32 | 0u32));
            assert(f & 8 != 0 && f & 2 == 0 && f & 4 == 0 && f & 1 == 0 && f & 16 == 0 && f & !0x1fu32 == 0) by (bit_vector)
                requires
                    f == (8u32 | 0u32 | 0u32 | 0u32 | 0u32),
            ;
        },
        VulkanLogLevel::Warning => {
            assert(f == (8u32 | 2u32 | 0u32 | 0u32 | 0u32));
            assert(f & 8 != 0 && f & 2 != 0 && f & 4 == 0 && f & 1 == 0 && f & 16 == 0 && f & !0x1fu32 == 0) by (bit_vector)
                requires
                    f == (8u32 | 2u32 | 0u32 | 0u32 | 0u32),
            ;
        },
        VulkanLogLevel::PerformanceWarning => {
            assert(f == (8u32 | 2u32 | 4u32 | 0u32 | 0u32));
            assert(f & 8 != 0 && f & 2 != 0 && f & 4 != 0 && f & 1 == 0 && f & 16 == 0 && f & !0x1fu32 == 0) by (bit_vector)
                requires
                    f == (8u32 | 2u32 | 4u32 | 0u32 | 0u32),
            ;
        },
        VulkanLogLevel::Information => {
            assert(f == (8u32 | 2u32 | 4u32 | 1u32 | 0u32));
            assert(f & 8 != 0 && f & 2 != 0 && f & 4 != 0 && f & 1 != 0 && f & 16 == 0 && f & !0x1fu32 == 0) by (bit_vector)
                requires
                    f == (8u32 | 2u32 | 4u32 | 1u32 | 0u32),
            ;
        },
        VulkanLogLevel::Debug => {
            assert(f == (8u32 | 2u32 | 4u32 | 1u32 | 16u32));
            assert(f & 8 != 0 && f & 2 != 0 && f & 4 != 0 && f & 1 != 0 && f & 16 != 0 && f & !0x1fu32 == 0) by (bit_vector)
                requires
                    f == (8u32 | 2u32 | 4u32 | 1u32 | 16u32),
            ;
        },
    }
}

/// How a validation message is logged.
#[derive(Debug, Clone, Copy, PartialEq, Eq, Structural)]
pub enum ReportSeverity {
    Error,
    Warning,
    Information,
    Debug,
    /// The message is not logged.
    Ignored,
}

/// How a validation message with the given debug-report flags is logged: by its most
/// severe flag (performance warnings as warnings); empty messages are not logged.
pub fn report_severity(flags: u32, message_is_empty: bool) -> (r: ReportSeverity)
    ensures
        message_is_empty ==> r == ReportSeverity::Ignored,
        !message_is_empty ==> r == (if flags & DEBUG_REPORT_ERROR != 0 {
            ReportSeverity::Error
        } else if flags & DEBUG_REPORT_WARNING != 0 || flags & DEBUG_REPORT_PERFORMANCE_WARNING != 0 {
            ReportSeverity::Warning
        } else if flags & DEBUG_REPORT_INFORMATION != 0 {
            ReportSeverity::Information
        } else if flags & DEBUG_REPORT_DEBUG != 0 {
            ReportSeverity::Debug
        } else {
            ReportSeverity::Ignored
        }),
{
    if message_is_empty {
        ReportSeverity::Ignored
    } else if flags & DEBUG_REPORT_ERROR != 0 {
        ReportSeverity::Error
    } else if flags & DEBUG_REPORT_WARNING != 0 {
        ReportSeverity::Warning
    } else if flags & DEBUG_REPORT_PERFORMANCE_WARNING != 0 {
        ReportSeverity::Warning
    } else if flags & DEBUG_REPORT_INFORMATION != 0 {
        ReportSeverity::Information
    } else if flags & DEBUG_REPORT_DEBUG != 0 {
        ReportSeverity::Debug
    } else {
        ReportSeverity::Ignored
    }
}

/// The tone mapper applied in the post pass.
#[derive(Debug, Clone, Copy, PartialEq, Eq, Structural)]
pub enum Tonemapper {
    Clamp,
    Reinhard,
    Exposure,
    HybridLogGamma,
    Falsecolor,
}

impl Tonemapper {
    /// The number that identifies the tone mapper to the shaders.
    pub fn value(&self) -> (r: u32)
        ensures
            *self == Tonemapper::Clamp ==> r == 0,
            *self == Tonemapper::Reinhard ==> r == 1,
            *self == Tonemapper::Exposure ==> r == 2,
            *self == Tonemapper::HybridLogGamma ==> r == 3,
            *self == Tonemapper::Falsecolor ==> r == 4,
    {
        match self {
            Tonemapper::Clamp => 0,
            Tonemapper::Reinhard => 1,
            Tonemapper::Exposure => 2,
            Tonemapper::HybridLogGamma => 3,
            Tonemapper::Falsecolor => 4,
        }
    }
}

/// Renderer configuration.
#[derive(Debug)]
pub struct Config {
    pub app_name: String,
    pub major_version: u32,
    pub minor_version: u32,
    pub patch_version: u32,
    /// Where shaders, meshes, textures and buffers are loaded from.
    pub asset_path: String,
    pub vulkan_debug_output: bool,
    pub vulkan_log_level: VulkanLogLevel,
    pub vulkan_layers: Vec<String>,
    /// Frames per second at most; 0 for no cap.
    pub fps_cap: u32,
    pub reversed_depth_buffer: bool,
    pub width: u32,
    pub height: u32,
    /// Maximum luminance of the display, in cd/m².
    pub display_luminance: u32,
    pub timing_setup: bool,
    pub tonemapper: Tonemapper,
}

pub fn default_app_name() -> (r: String)
    ensures
        r@ == "Unspecified"@,
{
    "Unspecified".to_owned()
}

pub fn default_major_version() -> (r: u32)
    ensures
        r == 0,
{
    0
}

pub fn default_minor_version() -> (r: u32)
    ensures
        r == 1,
{
    1
}

pub fn default_patch_version() -> (r: u32)
    ensures
        r == 0,
{
    0
}

pub fn default_asset_path() -> (r: String)
    ensures
        r@ == "assets"@,
{
    "assets".to_owned()
}

/// Debug output is on in debug builds.
pub fn default_vulkan_debug_output(debug_build: bool) -> (r: bool)
    ensures
        r == debug_build,
{
    debug_build
}

/// Debug builds log everything; release builds log up to performance warnings.
pub fn default_vulkan_log_level(debug_build: bool) -> (r: VulkanLogLevel)
    ensures
        debug_build ==> r == VulkanLogLevel::Debug,
        !debug_build ==> r == VulkanLogLevel::PerformanceWarning,
{
    if debug_build {
        VulkanLogLevel::Debug
    } else {
        VulkanLogLevel::PerformanceWarning
    }
}

pub fn default_vulkan_layers() -> (r: Vec<String>)
    ensures
        r@.len() == 0,
{
    Vec::new()
}

pub fn default_fps_cap() -> (r: u32)
    ensures
        r == 120,
{
    120
}

pub fn default_reversed_depth_buffer() -> (r: bool)
    ensures
        r,
{
    true
}

pub fn default_width() -> (r: u32)
    ensures
        r == 800,
{
    800
}

pub fn default_height() -> (r: u32)
    ensures
        r == 600,
{
    600
}

pub fn default_display_luminance() -> (r: u32)
    ensures
        r == 80,
{
    80
}

pub fn default_timing_setup() -> (r: bool)
    ensures
        !r,
{
    false
}

pub fn default_tonemapper() -> (r: Tonemapper)
    ensures
        r == Tonemapper::HybridLogGamma,
{
    Tonemapper::HybridLogGamma
}

impl Config {
    /// The default configuration for a debug or a release build.
    pub fn default_for(debug_build: bool) -> (c: Config)
        ensures
            c.app_name@ == "Unspecified"@,
            c.major_version == 0,
            c.minor_version == 1,
            c.patch_version == 0,
            c.asset_path@ == "assets"@,
            c.vulkan_debug_output == debug_build,
            c.vulkan_log_level == (if debug_build { VulkanLogLevel::Debug } else { VulkanLogLevel::PerformanceWarning }),
            c.vulkan_layers@.len() == 0,
            c.fps_cap == 120,
            c.reversed_depth_buffer,
            c.width == 800,
            c.height == 600,
            c.display_luminance == 80,
            !c.timing_setup,
            c.tonemapper == Tonemapper::HybridLogGamma,
    {
        Config {
            app_name: default_app_name(),
            major_version: default_major_version(),
            minor_version: default_minor_version(),
            patch_version: default_patch_version(),
            asset_path: default_asset_path(),
            vulkan_debug_output: default_vulkan_debug_output(debug_build),
            vulkan_log_level: default_vulkan_log_level(debug_build),
            vulkan_layers: default_vulkan_layers(),
            fps_cap: default_fps_cap(),
            reversed_depth_buffer: default_reversed_depth_buffer(),
            width: default_width(),
            height: default_height(),
            display_luminance: default_display_luminance(),
            timing_setup: default_timing_setup(),
            tonemapper: default_tonemapper(),
        }
    }
}


/// `true` or `false`.
pub open spec fn bool_text(b: bool) -> Seq<char> {
    if b { "true"@ } else { "false"@ }
}

fn bool_str(b: bool) -> (r: &'static str)
    ensures
        r@ == bool_text(b),
{
    if b { "true" } else { "false" }
}

/// The name of a log level.
pub open spec fn level_text(l: VulkanLogLevel) -> Seq<char> {
    match l {
        VulkanLogLevel::Error => "Error"@,
        VulkanLogLevel::Warning => "Warning"@,
        VulkanLogLevel::PerformanceWarning => "PerformanceWarning"@,
        VulkanLogLevel::Information => "Information"@,
        VulkanLogLevel::Debug => "Debug"@,
    }
}

fn level_str(l: VulkanLogLevel) -> (r: &'static str)
    ensures
        r@ == level_text(l),
{
    match l {
        VulkanLogLevel::Error => "Error",
        VulkanLogLevel::Warning => "Warning",
        VulkanLogLevel::PerformanceWarning => "PerformanceWarning",
        VulkanLogLevel::Information => "Information",
        VulkanLogLevel::Debug => "Debug",
    }
}

/// The name of a tone mapper.
pub open spec fn tonemapper_text(t: Tonemapper) -> Seq<char> {
    match t {
        Tonemapper::Clamp => "Clamp"@,
        Tonemapper::Reinhard => "Reinhard"@,
        Tonemapper::Exposure => "Exposure"@,
        Tonemapper::HybridLogGamma => "HybridLogGamma"@,
        Tonemapper::Falsecolor => "Falsecolor"@,
    }
}

fn tonemapper_str(t: Tonemapper) -> (r: &'static str)
    ensures
        r@ == tonemapper_text(t),
{
    match t {
        Tonemapper::Clamp => "Clamp",
        Tonemapper::Reinhard => "Reinhard",
        Tonemapper::Exposure => "Exposure",
        Tonemapper::HybridLogGamma => "HybridLogGamma",
        Tonemapper::Falsecolor => "Falsecolor",
    }
}

/// One line per validation layer.
pub open spec fn layers_text(layers: Seq<String>) -> Seq<char>
    decreases layers.len(),
{
    if layers.len() == 0 {
        Seq::empty()
    } else {
        layers_text(layers.drop_last()) + "      "@ + layers.last()@ + "\n"@
    }
}

/// The configuration summary logged at start-up, one setting per line; the asset path
/// is quoted and escaped as Rust's `Debug` writes a path (see `debug_escape`).
pub open spec fn config_text(c: Config, renderer_version: Seq<char>) -> Seq<char> {
    "    App name: "@ + c.app_name@ + "\n"@
        + "    App version: "@ + decimal(c.major_version as nat) + "."@ + decimal(c.minor_version as nat) + "."@
        + decimal(c.patch_version as nat) + "\n"@
        + "    Renderer version: "@ + renderer_version + "\n"@
        + "    Asset path: \""@ + debug_escape(c.asset_path@) + "\"\n"@
        + "    Vulkan debug output: "@ + bool_text(c.vulkan_debug_output) + "\n"@
        + "    Vulkan log level: "@ + level_text(c.vulkan_log_level) + "\n"@
        + "    Vulkan log layers:\n"@ + layers_text(c.vulkan_layers@)
        + "    Reversed depth buffer: "@ + bool_text(c.reversed_depth_buffer) + "\n"@
        + "    FPS cap: "@ + decimal(c.fps_cap as nat) + "\n"@
        + "    width: "@ + decimal(c.width as nat) + "\n"@
        + "    height: "@ + decimal(c.height as nat) + "\n"@
        + "    display luminance (max): "@ + decimal(c.display_luminance as nat) + " cd/m²\n"@
        + "    Timing Setup: "@ + bool_text(c.timing_setup) + "\n"@
        + "    Tone mapper: "@ + tonemapper_text(c.tonemapper) + "\n"@
}

impl Config {
    /// The configuration summary (see `config_text`), for a renderer of the given version.
    pub fn summary(&self, renderer_version: &str) -> (r: String)
        ensures
            r@ == config_text(*self, renderer_version@),
    {
        let mut s = "    App name: ".to_owned();
        s.append(self.app_name.as_str());
        s.append("\n");
        s.append("    App version: ");
        push_decimal(&mut s, self.major_version as u64);
        s.append(".");
        push_decimal(&mut s, self.minor_version as u64);
        s.append(".");
        push_decimal(&mut s, self.patch_version as u64);
        s.append("\n");
        s.append("    Renderer version: ");
        s.append(renderer_version);
        s.append("\n");
        s.append("    Asset path: \"");
        push_escaped(&mut s, self.asset_path.as_str());
        s.append("\"\n");
        s.append("    Vulkan debug output: ");
        s.append(bool_str(self.vulkan_debug_output));
        s.append("\n");
        s.append("    Vulkan log level: ");
        s.append(level_str(self.vulkan_log_level));
        s.append("\n");
        s.append("    Vulkan log layers:\n");
        let ghost head = s@;
        let mut i: usize = 0;
        while i < self.vulkan_layers.len()
            invariant
                0 <= i <= self.vulkan_layers@.len(),
                s@ == head + layers_text(self.vulkan_layers@.take(i as int)),
            decreases self.vulkan_layers@.len() - i,
        {
            s.append("      ");
            s.append(self.vulkan_layers[i].as_str());
            s.append("\n");
            proof {
                let t = self.vulkan_layers@.take(i as int + 1);
                assert(t.drop_last() =~= self.vulkan_layers@.take(i as int));
                assert(t.last() == self.vulkan_layers@[i as int]);
            }
            i = i + 1;
        }
        proof {
            assert(self.vulkan_layers@.take(i as int) =~= self.vulkan_layers@);
        }
        s.append("    Reversed depth buffer: ");
        s.append(bool_str(self.reversed_depth_buffer));
        s.append("\n");
        s.append("    FPS cap: ");
        push_decimal(&mut s, self.fps_cap as u64);
        s.append("\n");
        s.append("    width: ");
        push_decimal(&mut s, self.width as u64);
        s.append("\n");
        s.append("    height: ");
        push_decimal(&mut s, self.height as u64);
        s.append("\n");
        s.append("    display luminance (max): ");
        push_decimal(&mut s, self.display_luminance as u64);
        s.append(" cd/m²\n");
        s.append("    Timing Setup: ");
        s.append(bool_str(self.timing_setup));
        s.append("\n");
        s.append("    Tone mapper: ");
        s.append(tonemapper_str(self.tonemapper));
        s.append("\n");
        s
    }
}

} // verus!
