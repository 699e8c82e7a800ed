//! Where the planner's windows go on the screen.
use vstd::prelude::*;

verus! {

/// A window's place and size on the screen, in pixels.
#[derive(Debug, Clone, Copy, PartialEq, Eq, Structural)]
pub struct WindowGeometry {
    pub x: i32,
    pub y: i32,
    pub width: u32,
    pub height: u32,
}

/// Width of the dashboard window.
pub open spec fn dashboard_width() -> u32 {
    960
}

/// Height of the dashboard window.
pub open spec fn dashboard_height() -> u32 {
    700
}

/// Half of what is left of a screen side once the window side is taken off;
/// nothing when the window is larger.
pub open spec fn centered_offset(screen: u32, window: u32) -> int {
    if screen > window {
        (screen - window) / 2
    } else {
        0
    }
}

/// The dashboard's place: 960 by 700 pixels, centred on a screen of the given
/// size, or at the top left edge along a side where the screen is smaller.
pub fn dashboard_geometry(screen_width: u32, screen_height: u32) -> (g: WindowGeometry)
    ensures
        g.width == dashboard_width(),
        g.height == dashboard_height(),
        g.x == centered_offset(screen_width, dashboard_width()),
        g.y == centered_offset(screen_height, dashboard_height()),
{
    let w: u32 = 960;
    let h: u32 = 700;
    let free_x = if screen_width > w {
        screen_width - w
    } else {
        0
    };
    let free_y = if screen_height > h {
        screen_height - h
    } else {
        0
    };
    WindowGeometry { x: (free_x / 2) as i32, y: (free_y / 2) as i32, width: w, height: h }
}


} // verus!
