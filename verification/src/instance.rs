//! The instance extensions the renderer asks for.
use vstd::prelude::*;

use crate::error::{Error, ErrorView};

verus! {

/// The window systems a Vulkan surface can be created for.
#[derive(Debug, Clone, Copy, PartialEq, Eq, Structural)]
pub enum SurfaceKind {
    Xlib,
    Xcb,
    Wayland,
    Win32,
    Android,
}

/// The name of the surface extension for a window system.
pub open spec fn surface_extension_name(kind: SurfaceKind) -> Seq<char> {
    match kind {
        SurfaceKind::Xlib => "VK_KHR_xlib_surface"@,
        SurfaceKind::Xcb => "VK_KHR_xcb_surface"@,
        SurfaceKind::Wayland => "VK_KHR_wayland_surface"@,
        SurfaceKind::Win32 => "VK_KHR_win32_surface"@,
        SurfaceKind::Android => "VK_KHR_android_surface"@,
    }
}

/// The instance extensions required: the surface extension and the one for the
/// window system, then the debug-report extension when debug output is wanted.
pub open spec fn required_extensions(kind: SurfaceKind, debug_output: bool) -> Seq<Seq<char>> {
    seq!["VK_KHR_surface"@, surface_extension_name(kind)] + if debug_output {
        seq!["VK_EXT_debug_report"@]
    } else {
        Seq::empty()
    }
}

/// The names of a sequence of strings.
pub open spec fn names(v: Seq<String>) -> Seq<Seq<char>> {
    v.map_values(|s: String| s@)
}

/// The first required extension, from index `i` on, that is not available.
pub open spec fn first_missing(req: Seq<Seq<char>>, avail: Seq<Seq<char>>, i: int) -> Option<Seq<char>>
    decreases req.len() - i,
{
    if i < 0 || i >= req.len() {
        None
    } else if !avail.contains(req[i]) {
        Some(req[i])
    } else {
        first_missing(req, avail, i + 1)
    }
}

/// The search for a missing extension finds none exactly when every required extension
/// from `i` on is available; otherwise it names a required one that is not available, all
/// required before it being available.
pub proof fn lemma_first_missing(req: Seq<Seq<char>>, avail: Seq<Seq<char>>, i: int)
    requires
        0 <= i,
    ensures
        first_missing(req, avail, i) is None <==> forall|k: int| i <= k < req.len() ==> avail.contains(
            #[trigger] req[k]),
        first_missing(req, avail, i) matches Some(n) ==> exists|k: int| {
            &&& i <= k < req.len()
            &&& #[trigger] req[k] == n
            &&& !avail.contains(n)
            &&& forall|j: int| i <= j < k ==> avail.contains(#[trigger] req[j])
        },
    decreases req.len() - i,
{
    if i < req.len() {
        lemma_first_missing(req, avail, i + 1);
        if !avail.contains(req[i]) {
            assert(req[i] == req[i]);
        } else if let Some(n) = first_missing(req, avail, i + 1) {
            let k = choose|k: int| {
                &&& i + 1 <= k < req.len()
                &&& #[trigger] req[k] == n
                &&& !avail.contains(n)
                &&& forall|j: int| i + 1 <= j < k ==> avail.contains(#[trigger] req[j])
            };
            assert forall|j: int| i <= j < k implies avail.contains(#[trigger] req[j]) by {
                if j > i {
                    assert(i + 1 <= j < k);
                }
            }
        }
    }
}

/// The surface extensions for a window system.
pub fn get_required_surface_extensions(kind: SurfaceKind) -> (r: Vec<String>)
    ensures
        names(r@) == seq!["VK_KHR_surface"@, surface_extension_name(kind)],
{
    let mut required: Vec<String> = Vec::new();
    required.push("VK_KHR_surface".to_owned());
    let ext = match kind {
        SurfaceKind::Xlib => "VK_KHR_xlib_surface",
        SurfaceKind::Xcb => "VK_KHR_xcb_surface",
        SurfaceKind::Wayland => "VK_KHR_wayland_surface",
        SurfaceKind::Win32 => "VK_KHR_win32_surface",
        SurfaceKind::Android => "VK_KHR_android_surface",
    };
    required.push(ext.to_owned());
    assert(names(required@) =~= seq!["VK_KHR_surface"@, surface_extension_name(kind)]);
    required
}

/// Whether `avail` holds `name`.
fn holds(avail: &Vec<String>, name: &String) -> (r: bool)
    ensures
        r == names(avail@).contains(name@),
{
    let mut i: usize = 0;
    while i < avail.len()
        invariant
            0 <= i <= avail@.len(),
            forall|k: int| 0 <= k < i ==> names(avail@)[k] != name@,
        decreases avail.len() - i,
    {
        if avail[i] == *name {
            assert(names(avail@)[i as int] == name@);
            return true;
        }
        i = i + 1;
    }
    false
}

/// The instance extensions to enable, given the window system, whether debug output
/// is wanted and the extensions the driver offers; fails with `MissingExtensions`
/// naming the first required extension that is not offered.
pub fn get_extensions(kind: SurfaceKind, debug_output: bool, available: &Vec<String>) -> (r: Result<Vec<String>, Error>)
    ensures
        match first_missing(required_extensions(kind, debug_output), names(available@), 0) {
            None => r matches Ok(v) && names(v@) == required_extensions(kind, debug_output),
            Some(n) => r matches Err(e) && e@ == ErrorView::MissingExtensions(n),
        },
{
    let mut required = get_required_surface_extensions(kind);
    if debug_output {
        required.push("VK_EXT_debug_report".to_owned());
    }
    let ghost req = required_extensions(kind, debug_output);
    assert(names(required@) =~= req);
    let mut i: usize = 0;
    while i < required.len()
        invariant
            0 <= i <= required@.len(),
            names(required@) == req,
            req == required_extensions(kind, debug_output),
            first_missing(req, names(available@), 0) == first_missing(req, names(available@), i as int),
        decreases required.len() - i,
    {
        if !holds(available, &required[i]) {
            return Err(Error::MissingExtensions(required[i].clone()));
        }
        i = i + 1;
    }
    Ok(required)
}

} // verus!
