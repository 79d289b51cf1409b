//! The application's state machine.
//!
//! One controller owns every mutable flag of the program: the paused
//! flag, the clear-background flag, the tile size, and the selected
//! effect. Menu buttons and key presses are events; each event's whole
//! outcome is stated in its method's contract.

use vstd::prelude::*;

verus! {

/// The effect the running screen draws.
#[derive(Clone, Copy, Debug, PartialEq, Eq, Structural)]
pub enum Effect {
    Static,
    Bars,
    Fade,
    Lerp,
    Spiral,
    WholeScreen,
    Scroll,
}

/// One of the pause menu's buttons.
#[derive(Clone, Copy, Debug, PartialEq, Eq, Structural)]
pub enum Button {
    Resume,
    Bars,
    Fade,
    Lerp,
    Spiral,
    Static,
    WholeScreen,
    Scroll,
}

/// The menu's selection rule: of the seven buttons, in menu order
/// (resume, bars, fade, lerp, spiral, static, whole-screen), the first
/// one clicked this frame wins; with no click there is no selection.
pub open spec fn spec_first_clicked(c: [bool; 7]) -> Option<Button> {
    if c[0] {
        Some(Button::Resume)
    } else if c[1] {
        Some(Button::Bars)
    } else if c[2] {
        Some(Button::Fade)
    } else if c[3] {
        Some(Button::Lerp)
    } else if c[4] {
        Some(Button::Spiral)
    } else if c[5] {
        Some(Button::Static)
    } else if c[6] {
        Some(Button::WholeScreen)
    } else {
        None
    }
}

/// Maps one frame's click reports, one flag per menu button, to the
/// button that takes effect: the first clicked one.
pub fn first_clicked(clicks: &[bool; 7]) -> (r: Option<Button>)
    ensures
        r == spec_first_clicked(*clicks),
{
    if clicks[0] {
        Some(Button::Resume)
    } else if clicks[1] {
        Some(Button::Bars)
    } else if clicks[2] {
        Some(Button::Fade)
    } else if clicks[3] {
        Some(Button::Lerp)
    } else if clicks[4] {
        Some(Button::Spiral)
    } else if clicks[5] {
        Some(Button::Static)
    } else if clicks[6] {
        Some(Button::WholeScreen)
    } else {
        None
    }
}

/// The smallest tile size the controls allow.
pub const MIN_ASPECT: i64 = 1;

/// The largest tile size the controls allow.
pub const MAX_ASPECT: i64 = 50;

/// The controller holding all of the program's mutable state.
#[derive(Clone, Copy, Debug, PartialEq, Eq, Structural)]
pub struct App {
    pub paused: bool,
    pub clear_screen: bool,
    pub aspect: i64,
    pub effect: Effect,
}

impl App {
    /// The tile size always stays within its clamped range.
    pub open spec fn wf(self) -> bool {
        MIN_ASPECT <= self.aspect <= MAX_ASPECT
    }

    /// The state the program starts in: running the static-noise effect,
    /// clearing the background, at tile size 30.
    pub fn new() -> (a: App)
        ensures
            a == (App { paused: false, clear_screen: true, aspect: 30, effect: Effect::Static }),
            a.wf(),
    {
        App { paused: false, clear_screen: true, aspect: 30, effect: Effect::Static }
    }

    /// The pause key: flips the paused flag and changes nothing else.
    pub fn toggle_paused(&mut self)
        ensures
            *final(self) == (App { paused: !old(self).paused, ..*old(self) }),
    {
        self.paused = !self.paused;
    }

    /// A button press. Every effect button selects its effect and turns
    /// background clearing on, except the fade button, which turns it off
    /// so frames accumulate; the resume button only leaves the pause
    /// state, keeping the selected effect.
    pub fn press_button(&mut self, b: Button)
        ensures
            *final(self) == (match b {
                Button::Resume => App { paused: false, ..*old(self) },
                Button::Bars => App { clear_screen: true, effect: Effect::Bars, ..*old(self) },
                Button::Fade => App { clear_screen: false, effect: Effect::Fade, ..*old(self) },
                Button::Lerp => App { clear_screen: true, effect: Effect::Lerp, ..*old(self) },
                Button::Spiral => App { clear_screen: true, effect: Effect::Spiral, ..*old(self) },
                Button::Static => App { clear_screen: true, effect: Effect::Static, ..*old(self) },
                Button::WholeScreen => App {
                    clear_screen: true,
                    effect: Effect::WholeScreen,
                    ..*old(self)
                },
                Button::Scroll => App { clear_screen: true, effect: Effect::Scroll, ..*old(self) },
            }),
    {
        match b {
            Button::Resume => {
                self.paused = false;
            },
            Button::Bars => {
                self.clear_screen = true;
                self.effect = Effect::Bars;
            },
            Button::Fade => {
                self.clear_screen = false;
                self.effect = Effect::Fade;
            },
            Button::Lerp => {
                self.clear_screen = true;
                self.effect = Effect::Lerp;
            },
            Button::Spiral => {
                self.clear_screen = true;
                self.effect = Effect::Spiral;
            },
            Button::Static => {
                self.clear_screen = true;
                self.effect = Effect::Static;
            },
            Button::WholeScreen => {
                self.clear_screen = true;
                self.effect = Effect::WholeScreen;
            },
            Button::Scroll => {
                self.clear_screen = true;
                self.effect = Effect::Scroll;
            },
        }
    }

    /// The right-arrow key: one step up in tile size, clamped at the top
    /// of the range; nothing else changes.
    pub fn increase_aspect(&mut self)
        requires
            old(self).wf(),
        ensures
            *final(self) == (App {
                aspect: if old(self).aspect < MAX_ASPECT {
                    (old(self).aspect + 1) as i64
                } else {
                    old(self).aspect
                },
                ..*old(self)
            }),
            final(self).wf(),
    {
        if self.aspect < MAX_ASPECT {
            self.aspect = self.aspect + 1;
        }
    }

    /// The left-arrow key: one step down in tile size, clamped at the
    /// bottom of the range; nothing else changes.
    pub fn decrease_aspect(&mut self)
        requires
            old(self).wf(),
        ensures
            *final(self) == (App {
                aspect: if old(self).aspect > MIN_ASPECT {
                    (old(self).aspect - 1) as i64
                } else {
                    old(self).aspect
                },
                ..*old(self)
            }),
            final(self).wf(),
    {
        if self.aspect > MIN_ASPECT {
            self.aspect = self.aspect - 1;
        }
    }
}

} // verus!
