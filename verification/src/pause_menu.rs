//! The pause menu's layout model.
//!
//! Every button and the spinner have a fixed design-time rectangle placed
//! around a virtual center; at render time each rectangle is re-centered
//! against the window's actual center, so the menu stays centered however
//! the window is resized. Centers fall on half-pixel positions, so placed
//! coordinates are kept doubled and exact; the caller halves them when it
//! draws.

use vstd::prelude::*;

verus! {

/// A design-time rectangle of the menu layout, in whole pixels.
#[derive(Clone, Copy, Debug, PartialEq, Eq, Structural)]
pub struct MenuRect {
    pub x: i64,
    pub y: i64,
    pub width: i64,
    pub height: i64,
}

/// A rectangle placed against a real window. `x2` and `y2` hold the
/// doubled coordinates of its top-left corner; width and height are the
/// design values, unchanged.
#[derive(Clone, Copy, Debug, PartialEq, Eq, Structural)]
pub struct PlacedRect {
    pub x2: i64,
    pub y2: i64,
    pub width: i64,
    pub height: i64,
}

/// The doubled horizontal position the re-centering transform gives a
/// design rectangle in a window `sw` pixels wide.
pub open spec fn spec_placed_x2(rec: MenuRect, sw: int) -> int {
    2 * (sw / 2) - (rec.x + rec.width)
}

/// The doubled vertical position of the transform, against height `sh`.
pub open spec fn spec_placed_y2(rec: MenuRect, sh: int) -> int {
    2 * (sh / 2) - (rec.y + rec.height)
}

/// A design rectangle small enough for the transform's arithmetic.
pub open spec fn spec_menu_rect_bounded(rec: MenuRect) -> bool {
    &&& -0x10000 <= rec.x <= 0x10000
    &&& -0x10000 <= rec.y <= 0x10000
    &&& 0 <= rec.width <= 0x10000
    &&& 0 <= rec.height <= 0x10000
}

/// Re-centers one design rectangle against the current window size.
pub fn move_middle(rec: &MenuRect, screen_width: i64, screen_height: i64) -> (r: PlacedRect)
    requires
        spec_menu_rect_bounded(*rec),
        0 <= screen_width <= 0x7FFF,
        0 <= screen_height <= 0x7FFF,
    ensures
        r.x2 == spec_placed_x2(*rec, screen_width as int),
        r.y2 == spec_placed_y2(*rec, screen_height as int),
        r.width == rec.width,
        r.height == rec.height,
{
    PlacedRect {
        x2: 2 * (screen_width / 2) - (rec.x + rec.width),
        y2: 2 * (screen_height / 2) - (rec.y + rec.height),
        width: rec.width,
        height: rec.height,
    }
}

/// Re-centering a design rectangle against two window sizes shifts its
/// center by exactly the difference of the two windows' centers, and its
/// width and height do not change. All quantities are doubled, so the
/// half-pixel centers are compared exactly.
pub proof fn lemma_recenter_shift(rec: MenuRect, w1: int, h1: int, w2: int, h2: int)
    ensures
        spec_placed_x2(rec, w1) + rec.width - (spec_placed_x2(rec, w2) + rec.width) == 2 * (w1 / 2)
            - 2 * (w2 / 2),
        spec_placed_y2(rec, h1) + rec.height - (spec_placed_y2(rec, h2) + rec.height) == 2 * (h1
            / 2) - 2 * (h2 / 2),
{
}

/// The menu's widget state: whether the spinner is in edit mode, and the
/// design rectangles of the seven buttons, the spinner, and one spare
/// slot.
pub struct GuiPauseMenuState {
    pub spinner_edit_mode: bool,
    pub layout_recs: [MenuRect; 9],
}

/// The design-time layout: seven buttons around the center, the spinner
/// above them, and the spare slot off to the side.
pub fn init_gui_pause_menu() -> (s: GuiPauseMenuState)
    ensures
        s.spinner_edit_mode == false,
        s.layout_recs[0] == (MenuRect { x: 1, y: 1, width: 120, height: 24 }),
        s.layout_recs[1] == (MenuRect { x: 1, y: 165, width: 120, height: 24 }),
        s.layout_recs[2] == (MenuRect { x: 1, y: 265, width: 120, height: 24 }),
        s.layout_recs[3] == (MenuRect { x: 256, y: 265, width: 120, height: 24 }),
        s.layout_recs[4] == (MenuRect { x: 256, y: 165, width: 120, height: 24 }),
        s.layout_recs[5] == (MenuRect { x: -256i64, y: 165, width: 120, height: 24 }),
        s.layout_recs[6] == (MenuRect { x: -256i64, y: 265, width: 120, height: 24 }),
        s.layout_recs[7] == (MenuRect { x: 1, y: -200i64, width: 240, height: 48 }),
        s.layout_recs[8] == (MenuRect { x: 528, y: 312, width: 120, height: 24 }),
        forall|i: int| 0 <= i < 9 ==> spec_menu_rect_bounded(s.layout_recs[i]),
{
    GuiPauseMenuState {
        spinner_edit_mode: false,
        layout_recs: [
            MenuRect { x: 1, y: 1, width: 120, height: 24 },
            MenuRect { x: 1, y: 165, width: 120, height: 24 },
            MenuRect { x: 1, y: 265, width: 120, height: 24 },
            MenuRect { x: 256, y: 265, width: 120, height: 24 },
            MenuRect { x: 256, y: 165, width: 120, height: 24 },
            MenuRect { x: -256, y: 165, width: 120, height: 24 },
            MenuRect { x: -256, y: 265, width: 120, height: 24 },
            MenuRect { x: 1, y: -200, width: 240, height: 48 },
            MenuRect { x: 528, y: 312, width: 120, height: 24 },
        ],
    }
}

/// Places the whole layout against the current window: one placed
/// rectangle per design slot, in order.
#[verifier::loop_isolation(false)]
pub fn menu_layout(state: &GuiPauseMenuState, screen_width: i64, screen_height: i64) -> (r: Vec<
    PlacedRect,
>)
    requires
        forall|i: int| 0 <= i < 9 ==> spec_menu_rect_bounded(state.layout_recs[i]),
        0 <= screen_width <= 0x7FFF,
        0 <= screen_height <= 0x7FFF,
    ensures
        r.len() == 9,
        forall|i: int|
            0 <= i < 9 ==> {
                &&& r[i].x2 == spec_placed_x2(state.layout_recs[i], screen_width as int)
                &&& r[i].y2 == spec_placed_y2(state.layout_recs[i], screen_height as int)
                &&& r[i].width == state.layout_recs[i].width
                &&& r[i].height == state.layout_recs[i].height
            },
{
    let mut r: Vec<PlacedRect> = Vec::new();
    let mut i: usize = 0;
    while i < 9
        invariant
            0 <= i <= 9,
            r.len() == i,
            forall|j: int|
                0 <= j < i ==> {
                    &&& r[j].x2 == spec_placed_x2(state.layout_recs[j], screen_width as int)
                    &&& r[j].y2 == spec_placed_y2(state.layout_recs[j], screen_height as int)
                    &&& r[j].width == state.layout_recs[j].width
                    &&& r[j].height == state.layout_recs[j].height
                },
        decreases 9 - i,
    {
        let placed: PlacedRect = move_middle(&state.layout_recs[i], screen_width, screen_height);
        r.push(placed);
        i = i + 1;
    }
    r
}

} // verus!
