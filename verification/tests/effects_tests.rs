use tv_static::color::Rgba;
use tv_static::custom_random::Random;
use tv_static::effects::ScrollEffect;
use tv_static::effects::WsEffect;
use tv_static::effects::crt_tiles;
use tv_static::effects::fade_tiles;
use tv_static::effects::spiral_tiles;
use tv_static::effects::static_tiles;

fn seeded(seed: u64) -> Random {
    let mut r = Random::new();
    r.set_seed(seed);
    r
}

fn rgba(r: u8, g: u8, b: u8, a: u8) -> Rgba {
    Rgba { r, g, b, a }
}

#[test]
fn static_grid_positions_and_colors() {
    let mut r = seeded(42);
    let tiles = static_tiles(&mut r, 8, 8, 4);
    assert_eq!(tiles.len(), 4);
    let expect = [
        (0, 0, rgba(186, 13, 174, 12)),
        (0, 4, rgba(79, 241, 70, 181)),
        (4, 0, rgba(170, 23, 231, 115)),
        (4, 4, rgba(94, 97, 70, 176)),
    ];
    for (t, &(x, y, c)) in tiles.iter().zip(expect.iter()) {
        assert_eq!((t.x, t.y, t.w, t.h), (x, y, 4, 4));
        assert_eq!(t.color, c);
    }
}

#[test]
fn static_grid_matches_a_twin_generator() {
    let mut r = seeded(5);
    let tiles = static_tiles(&mut r, 30, 20, 10);
    let mut twin = seeded(5);
    assert_eq!(tiles.len(), 6);
    for t in &tiles {
        assert_eq!(t.color, twin.random_color());
    }
}

#[test]
fn fade_replicates_one_gray_draw() {
    let mut r = seeded(42);
    let tiles = fade_tiles(&mut r, 8, 8, 4);
    assert_eq!(tiles.len(), 4);
    let grays = [186u8, 13, 174, 12];
    for (t, &g) in tiles.iter().zip(grays.iter()) {
        assert_eq!(t.color, rgba(g, g, g, g));
    }
}

#[test]
fn crt_bars_cover_the_width() {
    let mut r = seeded(42);
    let tiles = crt_tiles(&mut r, 10, 6, 4);
    assert_eq!(tiles.len(), 3);
    let mut twin = seeded(42);
    for (i, t) in tiles.iter().enumerate() {
        assert_eq!((t.x, t.y, t.w, t.h), (4 * i as i64, 0, 4, 6));
        assert_eq!(t.color, twin.random_color());
    }
}

#[test]
fn spiral_walks_out_from_the_center() {
    let mut r = seeded(42);
    let tiles = spiral_tiles(&mut r, 2, 2, 1);
    assert_eq!(tiles.len(), 4);
    let expect = [
        (1, 1, rgba(186, 13, 174, 12)),
        (2, 1, rgba(79, 241, 70, 181)),
        (2, 2, rgba(170, 23, 231, 115)),
        (1, 2, rgba(170, 23, 231, 115)),
    ];
    for (t, &(x, y, c)) in tiles.iter().zip(expect.iter()) {
        assert_eq!((t.x, t.y, t.w, t.h), (x, y, 1, 1));
        assert_eq!(t.color, c);
    }
}

#[test]
fn spiral_draws_at_least_the_window_area() {
    let mut r = seeded(8);
    let tiles = spiral_tiles(&mut r, 9, 7, 2);
    assert!(tiles.len() >= 63);
    for t in &tiles {
        assert_eq!((t.w, t.h), (2, 2));
    }
}

#[test]
fn whole_screen_wash_blends_toward_the_fresh_color() {
    let mut ws = WsEffect::new();
    assert_eq!(ws.last, rgba(0, 0, 0, 255));
    let mut r = seeded(42);
    let c = ws.frame_color(&mut r);
    assert_eq!(c, rgba(93, 6, 87, 133));
    assert_eq!(ws.last, c);
    let mut r2 = seeded(42);
    let mut twin = seeded(42);
    let mut ws2 = WsEffect::new();
    let first = ws2.frame_color(&mut r2);
    let second = ws2.frame_color(&mut r2);
    let _ = twin.random_color();
    let fresh = twin.random_color();
    assert_eq!(second.r, ((first.r as u16 + fresh.r as u16) / 2) as u8);
}

#[test]
fn resize_regenerates_the_buffer_and_resets_the_view() {
    let mut r = seeded(42);
    let mut scroll = ScrollEffect::new();
    scroll.regenerate(&mut r, 3, 2);
    assert_eq!(scroll.pixels.len(), 12);
    assert_eq!(scroll.view, 0);
    scroll.advance_view(3, 2);
    assert_eq!(scroll.view, 1);
    assert!(!scroll.needs_regen(3, 2));
    assert!(scroll.needs_regen(2, 2));
    scroll.regenerate(&mut r, 2, 2);
    assert_eq!(scroll.pixels.len(), 8);
    assert_eq!(scroll.view, 0);
}

#[test]
fn scroll_frame_reads_the_buffer_window() {
    let mut r = seeded(42);
    let mut scroll = ScrollEffect::new();
    scroll.regenerate(&mut r, 2, 2);
    let mut twin = seeded(42);
    let colors: Vec<Rgba> = (0..8).map(|_| twin.random_color()).collect();
    assert_eq!(scroll.pixels, colors);
    let tiles = scroll.frame_tiles(2, 2, 10);
    assert_eq!(tiles.len(), 4);
    for (i, t) in tiles.iter().enumerate() {
        let x = i / 2;
        let y = i % 2;
        assert_eq!((t.x, t.y, t.w, t.h), (10 * x as i64, 10 * y as i64, 10, 10));
        assert_eq!(t.color, colors[y * 2 + x]);
    }
}

#[test]
fn scroll_view_wraps_after_one_window() {
    let mut r = seeded(1);
    let mut scroll = ScrollEffect::new();
    scroll.regenerate(&mut r, 2, 2);
    for _ in 0..3 {
        scroll.advance_view(2, 2);
    }
    assert_eq!(scroll.view, 3);
    scroll.advance_view(2, 2);
    assert_eq!(scroll.view, 0);
}
