use tv_static::pause_menu::MenuRect;
use tv_static::pause_menu::init_gui_pause_menu;
use tv_static::pause_menu::menu_layout;
use tv_static::pause_menu::move_middle;

#[test]
fn layout_starts_with_the_design_rectangles() {
    let s = init_gui_pause_menu();
    assert!(!s.spinner_edit_mode);
    assert_eq!(s.layout_recs[0], MenuRect { x: 1, y: 1, width: 120, height: 24 });
    assert_eq!(s.layout_recs[5], MenuRect { x: -256, y: 165, width: 120, height: 24 });
    assert_eq!(s.layout_recs[7], MenuRect { x: 1, y: -200, width: 240, height: 48 });
    assert_eq!(s.layout_recs[8], MenuRect { x: 528, y: 312, width: 120, height: 24 });
}

#[test]
fn placement_centers_against_the_window() {
    let rec = MenuRect { x: 1, y: 1, width: 120, height: 24 };
    let p = move_middle(&rec, 600, 600);
    assert_eq!((p.x2, p.y2), (2 * 300 - 121, 2 * 300 - 25));
    assert_eq!((p.width, p.height), (120, 24));
}

#[test]
fn recentering_shifts_by_the_window_center_delta() {
    let rec = MenuRect { x: -256, y: 165, width: 120, height: 24 };
    let a = move_middle(&rec, 600, 600);
    let b = move_middle(&rec, 800, 400);
    assert_eq!((a.width, a.height), (b.width, b.height));
    let center_shift_x2 = (a.x2 + a.width) - (b.x2 + b.width);
    let center_shift_y2 = (a.y2 + a.height) - (b.y2 + b.height);
    assert_eq!(center_shift_x2, 2 * (600 / 2) - 2 * (800 / 2));
    assert_eq!(center_shift_y2, 2 * (600 / 2) - 2 * (400 / 2));
}

#[test]
fn the_whole_menu_is_placed_at_once() {
    let s = init_gui_pause_menu();
    let placed = menu_layout(&s, 640, 480);
    assert_eq!(placed.len(), 9);
    for (i, p) in placed.iter().enumerate() {
        let single = move_middle(&s.layout_recs[i], 640, 480);
        assert_eq!(*p, single);
    }
}
