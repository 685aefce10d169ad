use vstd::prelude::*;

verus! {

/// Height of the reserved tab strip at the top of the host window, in logical units.
pub const TAB_STRIP_LOGICAL_HEIGHT: u64 = 76;

/// Scale factor assumed when the display does not report one, in thousandths (2.0).
pub const DEFAULT_SCALE_MILLIS: u32 = 2000;

/// Placement of a child view inside the host window, in physical pixels.
#[derive(Clone, Copy, Debug, PartialEq, Eq, Structural)]
pub struct Bounds {
    pub x: i32,
    pub y: i32,
    pub width: u32,
    pub height: u32,
}

/// What the layout needs to know of the host window: its inner size in physical
/// pixels and its scale factor in thousandths (`None` when the display gives none).
#[derive(Clone, Copy, Debug, PartialEq, Eq, Structural)]
pub struct HostWindow {
    pub width: u32,
    pub height: u32,
    pub scale_millis: Option<u32>,
}

/// `round(76 * s)` for the scale factor `s = scale_millis / 1000`, halves rounded up.
pub open spec fn strip_height_spec(scale_millis: nat) -> nat {
    ((TAB_STRIP_LOGICAL_HEIGHT * scale_millis + 500) / 1000) as nat
}

/// The scale factor that layout uses: the reported one, or the default.
pub open spec fn effective_scale(scale_millis: Option<u32>) -> nat {
    match scale_millis {
        Some(m) => m as nat,
        None => DEFAULT_SCALE_MILLIS as nat,
    }
}

/// Child bounds for a window of `width` x `height` physical pixels at the given scale:
/// below the strip, full width, and the remaining height (never below zero).
pub open spec fn bounds_spec(width: u32, height: u32, scale_millis: nat) -> Bounds {
    let strip = strip_height_spec(scale_millis);
    Bounds {
        x: 0,
        y: strip as i32,
        width,
        height: if height >= strip { (height - strip) as u32 } else { 0 },
    }
}

pub open spec fn window_bounds(w: HostWindow) -> Bounds {
    bounds_spec(w.width, w.height, effective_scale(w.scale_millis))
}

/// Physical height of the tab strip at the given scale factor (in thousandths).
pub fn strip_height(scale_millis: u32) -> (r: u32)
    ensures
        r as nat == strip_height_spec(scale_millis as nat),
        r <= 400_000_000,
{
    let scaled: u64 = TAB_STRIP_LOGICAL_HEIGHT * (scale_millis as u64) + 500;
    assert(scaled <= 76 * 0xffff_ffffu64 + 500);
    (scaled / 1000) as u32
}

/// Position and size of every child view for the host window's current size.
pub fn compute_child_bounds(window: &HostWindow) -> (r: Bounds)
    ensures
        r == window_bounds(*window),
        r.x == 0,
        r.y as nat == strip_height_spec(effective_scale(window.scale_millis)),
        r.width == window.width,
        r.height as int == if window.height as int >= r.y as int {
            window.height as int - r.y as int
        } else {
            0
        },
{
    let scale: u32 = match window.scale_millis {
        Some(m) => m,
        None => DEFAULT_SCALE_MILLIS,
    };
    let strip = strip_height(scale);
    Bounds {
        x: 0,
        y: strip as i32,
        width: window.width,
        height: window.height.saturating_sub(strip),
    }
}

} // verus!
