//! Size and placement of the overlay panel.

use vstd::prelude::*;

use crate::config::Position;

verus! {

/// The preferred panel width.
pub const PANEL_WIDTH: i32 = 380;

/// The gap between the panel and the screen edge.
pub const PANEL_MARGIN: i32 = 12;

/// `a / b` rounded toward zero, as integer division and float-to-integer casts round.
pub open spec fn trunc_div(a: int, b: int) -> int {
    if a >= 0 { a / b } else { -((-a) / b) }
}

pub open spec fn min_int(a: int, b: int) -> int {
    if a <= b { a } else { b }
}

pub open spec fn max_int(a: int, b: int) -> int {
    if a >= b { a } else { b }
}

/// Panel width: 32% of the screen width (toward zero), at most 380, at least 300.
pub open spec fn panel_width(screen_w: int) -> int {
    max_int(min_int(PANEL_WIDTH as int, trunc_div(screen_w * 32, 100)), 300)
}

/// Panel height: the screen height less both margins, at most 92% of the
/// screen height (toward zero), at least 400.
pub open spec fn panel_height(screen_h: int) -> int {
    max_int(min_int(screen_h - 2 * PANEL_MARGIN, trunc_div(screen_h * 92, 100)), 400)
}

fn trunc_div_i64(a: i64, b: i64) -> (r: i64)
    requires
        b > 0,
        a > i64::MIN,
    ensures
        r == trunc_div(a as int, b as int),
{
    if a >= 0 {
        a / b
    } else {
        -((-a) / b)
    }
}

/// The panel size for a screen of the given size.
pub fn panel_size(screen_w: i32, screen_h: i32) -> (r: (i32, i32))
    requires
        screen_h >= i32::MIN + 2 * PANEL_MARGIN,
    ensures
        r.0 == panel_width(screen_w as int),
        r.1 == panel_height(screen_h as int),
{
    let share_w = trunc_div_i64(screen_w as i64 * 32, 100);
    let share_h = trunc_div_i64(screen_h as i64 * 92, 100);
    let capped_w: i64 = if (PANEL_WIDTH as i64) <= share_w { PANEL_WIDTH as i64 } else { share_w };
    let width: i64 = if capped_w >= 300 { capped_w } else { 300 };
    let inner: i64 = screen_h as i64 - 2 * (PANEL_MARGIN as i64);
    let capped_h: i64 = if inner <= share_h { inner } else { share_h };
    let height: i64 = if capped_h >= 400 { capped_h } else { 400 };
    assert(share_h <= 0x7fff_ffff) by {
        if screen_h >= 0 {
            assert(share_h <= screen_h);
        }
    }
    (width as i32, height as i32)
}

/// The panel is between 300 and 380 pixels wide and at least 400 high.
pub proof fn lemma_panel_size_bounds(screen_w: int, screen_h: int)
    ensures
        300 <= panel_width(screen_w) <= PANEL_WIDTH,
        panel_height(screen_h) >= 400,
{
}

/// Edges a layer-shell panel is anchored to and its margins from them.
#[derive(Clone, Copy, Debug, PartialEq, Eq, Structural)]
pub struct LayerPlacement {
    pub anchor_left: bool,
    pub anchor_right: bool,
    pub anchor_top: bool,
    pub anchor_bottom: bool,
    pub margin_left: i32,
    pub margin_right: i32,
    pub margin_top: i32,
    pub margin_bottom: i32,
}

/// Offset that centres `size` within `total`, but never closer than the margin.
pub open spec fn centred(total: int, size: int) -> int {
    max_int(trunc_div(total - size, 2), PANEL_MARGIN as int)
}

/// Where a panel of `width` x `height` goes on a `mw` x `mh` monitor: left
/// and right panels hug their edge and are centred vertically, top and bottom
/// panels hug their edge and are centred horizontally, a centre panel is
/// centred both ways; unused edges are free with no margin.
pub open spec fn placement_for(position: Position, mw: int, mh: int, width: int, height: int) -> LayerPlacement {
    let none = LayerPlacement {
        anchor_left: false,
        anchor_right: false,
        anchor_top: false,
        anchor_bottom: false,
        margin_left: 0,
        margin_right: 0,
        margin_top: 0,
        margin_bottom: 0,
    };
    match position {
        Position::Left => LayerPlacement {
            anchor_left: true,
            anchor_top: true,
            margin_left: PANEL_MARGIN,
            margin_top: centred(mh, height) as i32,
            ..none
        },
        Position::Right => LayerPlacement {
            anchor_right: true,
            anchor_top: true,
            margin_right: PANEL_MARGIN,
            margin_top: centred(mh, height) as i32,
            ..none
        },
        Position::Top => LayerPlacement {
            anchor_top: true,
            anchor_left: true,
            margin_top: PANEL_MARGIN,
            margin_left: centred(mw, width) as i32,
            ..none
        },
        Position::Bottom => LayerPlacement {
            anchor_bottom: true,
            anchor_left: true,
            margin_bottom: PANEL_MARGIN,
            margin_left: centred(mw, width) as i32,
            ..none
        },
        Position::Center => LayerPlacement {
            anchor_left: true,
            anchor_top: true,
            margin_left: centred(mw, width) as i32,
            margin_top: centred(mh, height) as i32,
            ..none
        },
    }
}

fn centred_exec(total: i32, size: i32) -> (r: i32)
    requires
        i32::MIN <= total - size <= i32::MAX,
    ensures
        r == centred(total as int, size as int),
{
    let d = total - size;
    let half: i32 = if d >= 0 { d / 2 } else { -((-(d as i64) / 2) as i32) };
    if half >= PANEL_MARGIN { half } else { PANEL_MARGIN }
}

/// The layer-shell anchors and margins for the chosen position.
pub fn layer_placement(position: Position, mw: i32, mh: i32, width: i32, height: i32) -> (r: LayerPlacement)
    requires
        i32::MIN <= mw - width <= i32::MAX,
        i32::MIN <= mh - height <= i32::MAX,
    ensures
        r == placement_for(position, mw as int, mh as int, width as int, height as int),
{
    let none = LayerPlacement {
        anchor_left: false,
        anchor_right: false,
        anchor_top: false,
        anchor_bottom: false,
        margin_left: 0,
        margin_right: 0,
        margin_top: 0,
        margin_bottom: 0,
    };
    match position {
        Position::Left => LayerPlacement {
            anchor_left: true,
            anchor_top: true,
            margin_left: PANEL_MARGIN,
            margin_top: centred_exec(mh, height),
            ..none
        },
        Position::Right => LayerPlacement {
            anchor_right: true,
            anchor_top: true,
            margin_right: PANEL_MARGIN,
            margin_top: centred_exec(mh, height),
            ..none
        },
        Position::Top => LayerPlacement {
            anchor_top: true,
            anchor_left: true,
            margin_top: PANEL_MARGIN,
            margin_left: centred_exec(mw, width),
            ..none
        },
        Position::Bottom => LayerPlacement {
            anchor_bottom: true,
            anchor_left: true,
            margin_bottom: PANEL_MARGIN,
            margin_left: centred_exec(mw, width),
            ..none
        },
        Position::Center => LayerPlacement {
            anchor_left: true,
            anchor_top: true,
            margin_left: centred_exec(mw, width),
            margin_top: centred_exec(mh, height),
            ..none
        },
    }
}

/// Each position hugs its own edge and only that one: a left panel is
/// anchored to the left edge (not the right) at the panel margin, a right
/// panel to the right edge, a top panel to the top edge (not the bottom), a
/// bottom panel to the bottom edge, and a centre panel to neither far edge.
/// Left and right panels are mirror images with the same vertical offset, as
/// are top and bottom panels with the same horizontal offset, and every
/// offset keeps at least the panel margin from the edge it is measured from.
pub proof fn lemma_placement_edges(mw: int, mh: int, width: int, height: int)
    ensures
        ({
            let l = placement_for(Position::Left, mw, mh, width, height);
            l.anchor_left && !l.anchor_right && l.margin_left == PANEL_MARGIN && l.margin_right == 0
        }),
        ({
            let r = placement_for(Position::Right, mw, mh, width, height);
            r.anchor_right && !r.anchor_left && r.margin_right == PANEL_MARGIN && r.margin_left == 0
        }),
        ({
            let t = placement_for(Position::Top, mw, mh, width, height);
            t.anchor_top && !t.anchor_bottom && t.margin_top == PANEL_MARGIN && t.margin_bottom == 0
        }),
        ({
            let b = placement_for(Position::Bottom, mw, mh, width, height);
            b.anchor_bottom && !b.anchor_top && b.margin_bottom == PANEL_MARGIN && b.margin_top == 0
        }),
        ({
            let c = placement_for(Position::Center, mw, mh, width, height);
            !c.anchor_right && !c.anchor_bottom && c.margin_right == 0 && c.margin_bottom == 0
        }),
        placement_for(Position::Left, mw, mh, width, height).margin_top
            == placement_for(Position::Right, mw, mh, width, height).margin_top,
        placement_for(Position::Top, mw, mh, width, height).margin_left
            == placement_for(Position::Bottom, mw, mh, width, height).margin_left,
        placement_for(Position::Center, mw, mh, width, height).margin_left
            == placement_for(Position::Top, mw, mh, width, height).margin_left,
        placement_for(Position::Center, mw, mh, width, height).margin_top
            == placement_for(Position::Left, mw, mh, width, height).margin_top,
{
}

} // verus!
