//! The per-frame logic of the screen effects.
//!
//! Each effect turns the window's pixel size, the tile size and the shared
//! generator into the exact list of filled rectangles that make up one
//! frame; drawing them is the caller's business. The tile grid divides the
//! window into `width / aspect` columns and `height / aspect` rows of
//! `aspect`-sided squares.

use vstd::prelude::*;

verus! {

use vstd::arithmetic::div_mod::lemma_div_nonincreasing;
use vstd::arithmetic::div_mod::lemma_fundamental_div_mod;
use vstd::arithmetic::div_mod::lemma_fundamental_div_mod_converse;
use vstd::arithmetic::div_mod::lemma_mod_division_less_than_divisor;
use vstd::arithmetic::div_mod::lemma_multiply_divide_lt;
use vstd::arithmetic::mul::lemma_mul_upper_bound;
use crate::color::Rgba;
use crate::custom_random::Random;
use crate::custom_random::lemma_advance_n_add;
use crate::custom_random::spec_advance;
use crate::custom_random::spec_advance_n;
use crate::custom_random::spec_channel;
use crate::custom_random::spec_color_at;

use crate::state::MAX_ASPECT;

/// The largest window edge, in pixels, the effects accept.
pub const MAX_DIM: i64 = 0x7FFF;

/// One filled rectangle of one frame: position, extent and color.
#[derive(Clone, Copy, Debug, PartialEq, Eq, Structural)]
pub struct Tile {
    pub x: i64,
    pub y: i64,
    pub w: i64,
    pub h: i64,
    pub color: Rgba,
}

/// The tile the static-noise effect draws at flat grid index `i`
/// (columns outermost, rows innermost): a fresh color per tile.
pub open spec fn spec_static_tile(s: u64, height: i64, aspect: i64, i: int) -> Tile {
    let gh = height as int / aspect as int;
    Tile {
        x: ((i / gh) * aspect) as i64,
        y: ((i % gh) * aspect) as i64,
        w: aspect,
        h: aspect,
        color: spec_color_at(s, i as nat),
    }
}

/// Full-window independent noise: one freshly drawn color per grid tile.
#[verifier::loop_isolation(false)]
pub fn static_tiles(rng: &mut Random, width: i64, height: i64, aspect: i64) -> (tiles: Vec<Tile>)
    requires
        1 <= aspect <= MAX_ASPECT,
        0 <= width <= MAX_DIM,
        0 <= height <= MAX_DIM,
    ensures
        tiles.len() == (width / aspect) * (height / aspect),
        final(rng)@ == spec_advance_n(old(rng)@, (4 * tiles.len()) as nat),
        forall|i: int|
            0 <= i < tiles.len() ==> tiles[i] == spec_static_tile(old(rng)@, height, aspect, i),
{
    let ghost pre: u64 = rng@;
    let gw: i64 = width / aspect;
    let gh: i64 = height / aspect;
    proof {
        lemma_fundamental_div_mod(width as int, aspect as int);
        lemma_fundamental_div_mod(height as int, aspect as int);
        lemma_div_nonincreasing(width as int, aspect as int);
        lemma_div_nonincreasing(height as int, aspect as int);
        lemma_mul_upper_bound(gw as int, 0x7FFF, gh as int, 0x7FFF);
    }
    let count: i64 = gw * gh;
    let mut tiles: Vec<Tile> = Vec::new();
    let mut i: i64 = 0;
    while i < count
        invariant
            0 <= i <= count,
            tiles.len() == i,
            rng@ == spec_advance_n(pre, (4 * i) as nat),
            forall|j: int| 0 <= j < i ==> tiles[j] == spec_static_tile(pre, height, aspect, j),
        decreases count - i,
    {
        proof {
            assert(gh >= 1) by (nonlinear_arith)
                requires
                    0 <= i < count,
                    count == gw * gh,
                    gw >= 0,
                    gh >= 0,
            ;
            assert(i < gh * gw) by (nonlinear_arith)
                requires
                    i < count,
                    count == gw * gh,
            ;
            lemma_multiply_divide_lt(i as int, gh as int, gw as int);
            lemma_mod_division_less_than_divisor(i as int, gh as int);
        }
        let x: i64 = i / gh;
        let y: i64 = i % gh;
        proof {
            assert(x * aspect + aspect <= width) by (nonlinear_arith)
                requires
                    0 <= x < gw,
                    aspect >= 1,
                    width == aspect * gw + width % aspect,
                    width % aspect >= 0,
            ;
            assert(y * aspect + aspect <= height) by (nonlinear_arith)
                requires
                    0 <= y < gh,
                    aspect >= 1,
                    height == aspect * gh + height % aspect,
                    height % aspect >= 0,
            ;
        }
        let color: Rgba = rng.random_color();
        proof {
            lemma_advance_n_add(pre, (4 * i) as nat, 4);
        }
        tiles.push(Tile { x: x * aspect, y: y * aspect, w: aspect, h: aspect, color });
        i = i + 1;
    }
    tiles
}

/// The tile the fade effect draws at flat grid index `i`: one grayscale
/// draw, replicated to all three color channels and to alpha.
pub open spec fn spec_fade_tile(s: u64, height: i64, aspect: i64, i: int) -> Tile {
    let gh = height as int / aspect as int;
    let c = spec_channel(spec_advance_n(s, i as nat));
    Tile {
        x: ((i / gh) * aspect) as i64,
        y: ((i % gh) * aspect) as i64,
        w: aspect,
        h: aspect,
        color: Rgba { r: c, g: c, b: c, a: c },
    }
}

/// A flickering brightness field: one grayscale draw per grid tile. The
/// caller leaves the background unclear so successive frames accumulate.
#[verifier::loop_isolation(false)]
pub fn fade_tiles(rng: &mut Random, width: i64, height: i64, aspect: i64) -> (tiles: Vec<Tile>)
    requires
        1 <= aspect <= MAX_ASPECT,
        0 <= width <= MAX_DIM,
        0 <= height <= MAX_DIM,
    ensures
        tiles.len() == (width / aspect) * (height / aspect),
        final(rng)@ == spec_advance_n(old(rng)@, tiles.len() as nat),
        forall|i: int|
            0 <= i < tiles.len() ==> tiles[i] == spec_fade_tile(old(rng)@, height, aspect, i),
{
    let ghost pre: u64 = rng@;
    let gw: i64 = width / aspect;
    let gh: i64 = height / aspect;
    proof {
        lemma_fundamental_div_mod(width as int, aspect as int);
        lemma_fundamental_div_mod(height as int, aspect as int);
        lemma_div_nonincreasing(width as int, aspect as int);
        lemma_div_nonincreasing(height as int, aspect as int);
        lemma_mul_upper_bound(gw as int, 0x7FFF, gh as int, 0x7FFF);
    }
    let count: i64 = gw * gh;
    let mut tiles: Vec<Tile> = Vec::new();
    let mut i: i64 = 0;
    while i < count
        invariant
            0 <= i <= count,
            tiles.len() == i,
            rng@ == spec_advance_n(pre, i as nat),
            forall|j: int| 0 <= j < i ==> tiles[j] == spec_fade_tile(pre, height, aspect, j),
        decreases count - i,
    {
        proof {
            assert(gh >= 1) by (nonlinear_arith)
                requires
                    0 <= i < count,
                    count == gw * gh,
                    gw >= 0,
                    gh >= 0,
            ;
            assert(i < gh * gw) by (nonlinear_arith)
                requires
                    i < count,
                    count == gw * gh,
            ;
            lemma_multiply_divide_lt(i as int, gh as int, gw as int);
            lemma_mod_division_less_than_divisor(i as int, gh as int);
        }
        let x: i64 = i / gh;
        let y: i64 = i % gh;
        proof {
            assert(x * aspect + aspect <= width) by (nonlinear_arith)
                requires
                    0 <= x < gw,
                    aspect >= 1,
                    width == aspect * gw + width % aspect,
                    width % aspect >= 0,
            ;
            assert(y * aspect + aspect <= height) by (nonlinear_arith)
                requires
                    0 <= y < gh,
                    aspect >= 1,
                    height == aspect * gh + height % aspect,
                    height % aspect >= 0,
            ;
        }
        let c: u8 = rng.channel();
        proof {
            lemma_advance_n_add(pre, i as nat, 1);
            assert(spec_advance_n(spec_advance_n(pre, i as nat), 1) == spec_advance(
                spec_advance_n(spec_advance_n(pre, i as nat), 0),
            ));
        }
        tiles.push(
            Tile {
                x: x * aspect,
                y: y * aspect,
                w: aspect,
                h: aspect,
                color: Rgba { r: c, g: c, b: c, a: c },
            },
        );
        i = i + 1;
    }
    tiles
}

/// How many vertical bars the scanline effect draws: one per multiple of
/// the tile size below the window width.
pub open spec fn spec_bar_count(width: int, aspect: int) -> int {
    if width <= 0 {
        0
    } else {
        (width - 1) / aspect + 1
    }
}

/// Scanline bars: one full-height bar of a fresh color at every multiple
/// of the tile size across the window width.
#[verifier::loop_isolation(false)]
pub fn crt_tiles(rng: &mut Random, width: i64, height: i64, aspect: i64) -> (tiles: Vec<Tile>)
    requires
        1 <= aspect <= MAX_ASPECT,
        0 <= width <= MAX_DIM,
        0 <= height <= MAX_DIM,
    ensures
        tiles.len() == spec_bar_count(width as int, aspect as int),
        final(rng)@ == spec_advance_n(old(rng)@, (4 * tiles.len()) as nat),
        forall|i: int|
            0 <= i < tiles.len() ==> tiles[i] == (Tile {
                x: (i * aspect) as i64,
                y: 0i64,
                w: aspect,
                h: height,
                color: spec_color_at(old(rng)@, i as nat),
            }),
{
    let ghost pre: u64 = rng@;
    let mut tiles: Vec<Tile> = Vec::new();
    let mut x: i64 = 0;
    let mut bars: i64 = 0;
    while x < width
        invariant
            0 <= bars <= x,
            x == bars * aspect,
            bars == 0 || (bars - 1) * aspect < width,
            x < width + aspect,
            tiles.len() == bars,
            rng@ == spec_advance_n(pre, (4 * bars) as nat),
            forall|j: int|
                0 <= j < bars ==> tiles[j] == (Tile {
                    x: (j * aspect) as i64,
                    y: 0i64,
                    w: aspect,
                    h: height,
                    color: spec_color_at(pre, j as nat),
                }),
        decreases width + aspect - x,
    {
        let color: Rgba = rng.random_color();
        proof {
            lemma_advance_n_add(pre, (4 * bars) as nat, 4);
            assert((bars + 1) * aspect == bars * aspect + aspect) by (nonlinear_arith);
        }
        tiles.push(Tile { x, y: 0, w: aspect, h: height, color });
        bars = bars + 1;
        x = x + aspect;
    }
    proof {
        if width > 0 {
            assert(bars >= 1) by (nonlinear_arith)
                requires
                    x >= width,
                    width > 0,
                    x == bars * aspect,
                    aspect >= 1,
                    bars >= 0,
            ;
            assert(width - 1 == (bars - 1) * aspect + (width - 1 - (bars - 1) * aspect));
            assert(0 <= width - 1 - (bars - 1) * aspect < aspect) by (nonlinear_arith)
                requires
                    (bars - 1) * aspect < width,
                    width <= bars * aspect,
                    aspect >= 1,
            ;
            lemma_fundamental_div_mod_converse(
                width as int - 1,
                aspect as int,
                bars as int - 1,
                width - 1 - (bars - 1) * aspect,
            );
        }
    }
    tiles
}

/// One position of the square-spiral walk: coordinates, the direction of
/// travel (right, down, left, up), the length of the current leg, how many
/// steps of that leg are already taken, and how many legs are complete.
pub struct SpiralState {
    pub x: int,
    pub y: int,
    pub dir: int,
    pub len: int,
    pub step: int,
    pub legs: int,
}

/// Where the spiral starts: the window center, heading right, on a leg of
/// length one.
pub open spec fn spec_spiral_init(width: int, height: int) -> SpiralState {
    SpiralState { x: width / 2, y: height / 2, dir: 0, len: 1, step: 0, legs: 0 }
}

/// One step of the walk: move one tile in the current direction; at the
/// end of a leg turn clockwise, count the leg, and lengthen every second
/// leg.
pub open spec fn spec_spiral_next(st: SpiralState, aspect: int) -> SpiralState {
    let x2 = if st.dir == 0 {
        st.x + aspect
    } else if st.dir == 2 {
        st.x - aspect
    } else {
        st.x
    };
    let y2 = if st.dir == 1 {
        st.y + aspect
    } else if st.dir == 3 {
        st.y - aspect
    } else {
        st.y
    };
    if st.step + 1 < st.len {
        SpiralState { x: x2, y: y2, dir: st.dir, len: st.len, step: st.step + 1, legs: st.legs }
    } else {
        let d2 = (st.dir + 1) % 4;
        SpiralState {
            x: x2,
            y: y2,
            dir: d2,
            len: if d2 % 2 == 0 {
                st.len + 1
            } else {
                st.len
            },
            step: 0,
            legs: st.legs + 1,
        }
    }
}

/// The walk's state after `n` steps.
pub open spec fn spec_spiral_at(width: int, height: int, aspect: int, n: nat) -> SpiralState
    decreases n,
{
    if n == 0 {
        spec_spiral_init(width, height)
    } else {
        spec_spiral_next(spec_spiral_at(width, height, aspect, (n - 1) as nat), aspect)
    }
}

/// The tile the spiral draws at step `j`: a square at the walk's `j`-th
/// position, colored with one fresh color per leg.
pub open spec fn spec_spiral_tile(s: u64, width: i64, height: i64, aspect: i64, j: int) -> Tile {
    let st = spec_spiral_at(width as int, height as int, aspect as int, j as nat);
    Tile {
        x: st.x as i64,
        y: st.y as i64,
        w: aspect,
        h: aspect,
        color: spec_color_at(s, st.legs as nat),
    }
}

/// An outward square spiral from the window center: legs of tiles in one
/// color each, walked until at least `width * height` squares are drawn,
/// always finishing the current leg.
#[verifier::loop_isolation(false)]
#[verifier::rlimit(80)]
pub fn spiral_tiles(rng: &mut Random, width: i64, height: i64, aspect: i64) -> (tiles: Vec<Tile>)
    requires
        1 <= aspect <= MAX_ASPECT,
        0 <= width <= MAX_DIM,
        0 <= height <= MAX_DIM,
    ensures
        width * height <= 0 ==> tiles.len() == 0,
        width * height > 0 ==> tiles.len() >= width * height,
        spec_spiral_at(width as int, height as int, aspect as int, tiles.len() as nat).step == 0,
        forall|m: nat|
            0 < m < tiles.len() && spec_spiral_at(
                width as int,
                height as int,
                aspect as int,
                m,
            ).step == 0 ==> m < width * height,
        forall|j: int|
            0 <= j < tiles.len() ==> tiles[j] == spec_spiral_tile(
                old(rng)@,
                width,
                height,
                aspect,
                j,
            ),
        final(rng)@ == spec_advance_n(
            old(rng)@,
            (4 * (spec_spiral_at(
                width as int,
                height as int,
                aspect as int,
                tiles.len() as nat,
            ).legs + 1)) as nat,
        ),
{
    let ghost pre: u64 = rng@;
    proof {
        lemma_mul_upper_bound(width as int, 0x7FFF, height as int, 0x7FFF);
    }
    let total: i64 = width * height;
    let mut x: i64 = width / 2;
    let mut y: i64 = height / 2;
    let mut dir: i64 = 0;
    let mut len: i64 = 1;
    let mut step: i64 = 0;
    let mut legs: i64 = 0;
    let mut drawn: i64 = 0;
    let mut color: Rgba = rng.random_color();
    let mut tiles: Vec<Tile> = Vec::new();
    while drawn < total || step != 0
        invariant
            0 <= drawn <= 2 * total + 2,
            tiles.len() == drawn,
            ({
                let st = spec_spiral_at(width as int, height as int, aspect as int, drawn as nat);
                x == st.x && y == st.y && dir == st.dir && len == st.len && step == st.step
                    && legs == st.legs
            }),
            0 <= dir <= 3,
            0 <= step < len,
            len <= drawn - step + 2,
            step != 0 ==> drawn - step < total,
            total <= 0 ==> drawn == 0,
            0 <= legs <= drawn,
            width / 2 - 50 * drawn <= x <= width / 2 + 50 * drawn,
            height / 2 - 50 * drawn <= y <= height / 2 + 50 * drawn,
            color == spec_color_at(pre, legs as nat),
            rng@ == spec_advance_n(pre, (4 * (legs + 1)) as nat),
            forall|m: nat|
                0 < m < drawn && spec_spiral_at(
                    width as int,
                    height as int,
                    aspect as int,
                    m,
                ).step == 0 ==> m < total,
            forall|j: int|
                0 <= j < drawn ==> tiles[j] == spec_spiral_tile(pre, width, height, aspect, j),
        decreases 2 * total + 2 - drawn,
    {
        tiles.push(Tile { x, y, w: aspect, h: aspect, color });
        proof {
            assert(spec_spiral_at(width as int, height as int, aspect as int, (drawn + 1) as nat)
                == spec_spiral_next(
                spec_spiral_at(width as int, height as int, aspect as int, drawn as nat),
                aspect as int,
            ));
        }
        if dir == 0 {
            x = x + aspect;
        } else if dir == 1 {
            y = y + aspect;
        } else if dir == 2 {
            x = x - aspect;
        } else {
            y = y - aspect;
        }
        if step + 1 < len {
            step = step + 1;
        } else {
            dir = (dir + 1) % 4;
            if dir % 2 == 0 {
                len = len + 1;
            }
            step = 0;
            legs = legs + 1;
            proof {
                lemma_advance_n_add(pre, (4 * legs) as nat, 4);
            }
            color = rng.random_color();
        }
        drawn = drawn + 1;
    }
    tiles
}

/// The cross-frame state of the whole-screen wash: the color the previous
/// frame settled on.
pub struct WsEffect {
    pub last: Rgba,
}

impl WsEffect {
    /// The wash starts from opaque black.
    pub fn new() -> (e: WsEffect)
        ensures
            e.last == (Rgba { r: 0u8, g: 0u8, b: 0u8, a: 255u8 }),
    {
        WsEffect { last: Rgba::black() }
    }

    /// One frame of the wash: a fresh color blended half-way toward the
    /// previous frame's color, which becomes the new carried color. The
    /// caller paints the whole window with it.
    pub fn frame_color(&mut self, rng: &mut Random) -> (c: Rgba)
        ensures
            c == crate::color::spec_midpoint(old(self).last, spec_color_at(old(rng)@, 0)),
            final(self).last == c,
            final(rng)@ == spec_advance_n(old(rng)@, 4),
    {
        let fresh: Rgba = rng.random_color();
        let c: Rgba = self.last.midpoint(&fresh);
        self.last = c;
        c
    }
}

/// The tile the scrolling effect draws at flat grid index `i`: its color
/// is read from the rolling buffer at the current view offset, row by
/// row with stride `gw`.
pub open spec fn spec_scroll_tile(
    pixels: Seq<Rgba>,
    view: int,
    gw: int,
    gh: int,
    aspect: int,
    i: int,
) -> Tile {
    Tile {
        x: ((i / gh) * aspect) as i64,
        y: ((i % gh) * aspect) as i64,
        w: aspect as i64,
        h: aspect as i64,
        color: pixels[view + (i % gh) * gw + i / gh],
    }
}

/// The cross-frame state of the scrolling effect: a rolling buffer of
/// random colors holding two windows' worth of grid cells, and the offset
/// of the window currently shown. Advancing the offset each frame slides
/// the window over the buffer, so color appears to flow across the
/// screen.
pub struct ScrollEffect {
    pub pixels: Vec<Rgba>,
    pub view: usize,
}

impl ScrollEffect {
    /// An empty buffer; it must be regenerated before the first frame.
    pub fn new() -> (e: ScrollEffect)
        ensures
            e.pixels.len() == 0,
            e.view == 0,
    {
        ScrollEffect { pixels: Vec::new(), view: 0 }
    }

    /// Whether the buffer no longer fits a grid of `gw` by `gh` cells and
    /// must be rebuilt; so after any resize that changes the cell count.
    pub fn needs_regen(&self, gw: usize, gh: usize) -> (r: bool)
        requires
            gw <= 0x7FFF,
            gh <= 0x7FFF,
        ensures
            r == (self.pixels.len() != 2 * gw * gh),
    {
        proof {
            lemma_mul_upper_bound(2 * gw as int, 0xFFFE, gh as int, 0x7FFF);
        }
        self.pixels.len() != 2 * gw * gh
    }

    /// Discards the buffer and refills it with `2 * gw * gh` fresh colors
    /// for the new grid, resetting the view offset to zero.
    #[verifier::loop_isolation(false)]
    pub fn regenerate(&mut self, rng: &mut Random, gw: usize, gh: usize)
        requires
            gw <= 0x7FFF,
            gh <= 0x7FFF,
        ensures
            final(self).pixels.len() == 2 * gw * gh,
            final(self).view == 0,
            forall|i: int|
                0 <= i < 2 * gw * gh ==> final(self).pixels[i] == spec_color_at(
                    old(rng)@,
                    i as nat,
                ),
            final(rng)@ == spec_advance_n(old(rng)@, (8 * gw * gh) as nat),
    {
        let ghost pre: u64 = rng@;
        proof {
            lemma_mul_upper_bound(2 * gw as int, 0xFFFE, gh as int, 0x7FFF);
        }
        let total: usize = 2 * gw * gh;
        self.pixels = Vec::new();
        self.view = 0;
        let mut i: usize = 0;
        while i < total
            invariant
                0 <= i <= total,
                self.pixels.len() == i,
                self.view == 0,
                rng@ == spec_advance_n(pre, (4 * i) as nat),
                forall|j: int| 0 <= j < i ==> self.pixels[j] == spec_color_at(pre, j as nat),
            decreases total - i,
        {
            let c: Rgba = rng.random_color();
            proof {
                lemma_advance_n_add(pre, (4 * i) as nat, 4);
            }
            self.pixels.push(c);
            i = i + 1;
        }
        proof {
            assert(4 * ((2 * gw) * gh) == (8 * gw) * gh) by (nonlinear_arith);
        }
    }

    /// The tiles of one steady-state frame: the window of `gw * gh` cells
    /// at the current view offset, painted as a grid of squares.
    #[verifier::loop_isolation(false)]
    pub fn frame_tiles(&self, gw: usize, gh: usize, aspect: i64) -> (tiles: Vec<Tile>)
        requires
            1 <= aspect <= MAX_ASPECT,
            gw <= 0x7FFF,
            gh <= 0x7FFF,
            self.pixels.len() == 2 * gw * gh,
            self.view <= gw * gh,
        ensures
            tiles.len() == gw * gh,
            forall|i: int|
                0 <= i < gw * gh ==> tiles[i] == spec_scroll_tile(
                    self.pixels@,
                    self.view as int,
                    gw as int,
                    gh as int,
                    aspect as int,
                    i,
                ),
    {
        proof {
            lemma_mul_upper_bound(gw as int, 0x7FFF, gh as int, 0x7FFF);
        }
        let count: usize = gw * gh;
        let mut tiles: Vec<Tile> = Vec::new();
        let mut i: usize = 0;
        while i < count
            invariant
                0 <= i <= count,
                tiles.len() == i,
                forall|j: int|
                    0 <= j < i ==> tiles[j] == spec_scroll_tile(
                        self.pixels@,
                        self.view as int,
                        gw as int,
                        gh as int,
                        aspect as int,
                        j,
                    ),
            decreases count - i,
        {
            proof {
                assert(gh >= 1) by (nonlinear_arith)
                    requires
                        0 <= i < count,
                        count == gw * gh,
                ;
                assert(i < gh * gw) by (nonlinear_arith)
                    requires
                        i < count,
                        count == gw * gh,
                ;
                lemma_multiply_divide_lt(i as int, gh as int, gw as int);
                lemma_mod_division_less_than_divisor(i as int, gh as int);
            }
            let x: usize = i / gh;
            let y: usize = i % gh;
            proof {
                assert(self.view + y * gw + x < 2 * gw * gh) by (nonlinear_arith)
                    requires
                        0 <= x < gw,
                        0 <= y < gh,
                        self.view <= gw * gh,
                ;
                lemma_mul_upper_bound(x as int, 0x7FFE, aspect as int, 50);
                lemma_mul_upper_bound(y as int, 0x7FFE, aspect as int, 50);
            }
            let idx: usize = self.view + y * gw + x;
            let color: Rgba = self.pixels[idx];
            tiles.push(
                Tile {
                    x: (x as i64) * aspect,
                    y: (y as i64) * aspect,
                    w: aspect,
                    h: aspect,
                    color,
                },
            );
            i = i + 1;
        }
        tiles
    }

    /// Slides the view one cell forward, wrapping at one window's worth
    /// of cells.
    pub fn advance_view(&mut self, gw: usize, gh: usize)
        requires
            gw <= 0x7FFF,
            gh <= 0x7FFF,
            gw * gh >= 1,
            old(self).pixels.len() == 2 * gw * gh,
            old(self).view < gw * gh,
        ensures
            final(self).view == (old(self).view + 1) % (gw * gh),
            final(self).pixels@ == old(self).pixels@,
    {
        proof {
            lemma_mul_upper_bound(gw as int, 0x7FFF, gh as int, 0x7FFF);
        }
        let count: usize = gw * gh;
        self.view = (self.view + 1) % count;
    }
}

} // verus!
