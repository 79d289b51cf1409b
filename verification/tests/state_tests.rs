use tv_static::state::first_clicked;
use tv_static::state::App;
use tv_static::state::Button;
use tv_static::state::Effect;

#[test]
fn spinner_clamps_at_bottom() {
    let mut a = App::new();
    a.aspect = 1;
    a.decrease_aspect();
    assert_eq!(a.aspect, 1);
}

#[test]
fn spinner_clamps_at_top() {
    let mut a = App::new();
    a.aspect = 50;
    a.increase_aspect();
    assert_eq!(a.aspect, 50);
}

#[test]
fn spinner_steps_inside_range() {
    let mut a = App::new();
    assert_eq!(a.aspect, 30);
    a.increase_aspect();
    assert_eq!(a.aspect, 31);
    a.decrease_aspect();
    a.decrease_aspect();
    assert_eq!(a.aspect, 29);
}

#[test]
fn fade_button_disables_clearing() {
    let mut a = App::new();
    a.press_button(Button::Fade);
    assert_eq!(a.clear_screen, false);
    assert_eq!(a.effect, Effect::Fade);
}

#[test]
fn other_effect_buttons_enable_clearing() {
    let cases = [
        (Button::Static, Effect::Static),
        (Button::Bars, Effect::Bars),
        (Button::Lerp, Effect::Lerp),
        (Button::Spiral, Effect::Spiral),
        (Button::WholeScreen, Effect::WholeScreen),
        (Button::Scroll, Effect::Scroll),
    ];
    for &(b, e) in &cases {
        let mut a = App::new();
        a.press_button(Button::Fade);
        a.press_button(b);
        assert_eq!(a.clear_screen, true);
        assert_eq!(a.effect, e);
    }
}

#[test]
fn resume_keeps_the_active_effect() {
    let mut a = App::new();
    a.press_button(Button::Spiral);
    a.toggle_paused();
    assert!(a.paused);
    a.press_button(Button::Resume);
    assert!(!a.paused);
    assert_eq!(a.effect, Effect::Spiral);
    assert_eq!(a.clear_screen, true);
}

#[test]
fn first_clicked_button_wins() {
    assert_eq!(first_clicked(&[false; 7]), None);
    assert_eq!(
        first_clicked(&[false, false, true, false, false, true, false]),
        Some(Button::Fade)
    );
    assert_eq!(
        first_clicked(&[true, true, true, true, true, true, true]),
        Some(Button::Resume)
    );
    assert_eq!(
        first_clicked(&[false, false, false, false, false, false, true]),
        Some(Button::WholeScreen)
    );
    let mut a = App::new();
    if let Some(b) = first_clicked(&[false, true, false, false, false, false, false]) {
        a.press_button(b);
    }
    assert_eq!(a.effect, Effect::Bars);
    assert_eq!(a.clear_screen, true);
}

#[test]
fn pause_toggles_back_and_forth() {
    let mut a = App::new();
    assert!(!a.paused);
    a.toggle_paused();
    assert!(a.paused);
    a.toggle_paused();
    assert!(!a.paused);
    assert_eq!(a.effect, Effect::Static);
}
