use serial_debugger::ui::components::{button_has_shadow, button_palette, ButtonTone};
use serial_debugger::ui::theme::{INK, PINK, SURFACE, WHITE, YELLOW, YELLOW_HOVER};

#[test]
fn tones_have_their_colours() {
    let p = button_palette(ButtonTone::Primary);
    assert_eq!((p.background, p.hover, p.active, p.foreground), (YELLOW, YELLOW_HOVER, YELLOW_HOVER, INK));
    let s = button_palette(ButtonTone::Secondary);
    assert_eq!((s.background, s.active), (SURFACE, YELLOW));
    assert_eq!(button_palette(ButtonTone::Dark).hover, 0x333333);
    assert_eq!(button_palette(ButtonTone::Danger).background, PINK);
    assert_eq!(button_palette(ButtonTone::Accent).foreground, WHITE);
}

#[test]
fn only_secondary_buttons_have_no_shadow() {
    assert!(!button_has_shadow(ButtonTone::Secondary));
    assert!(button_has_shadow(ButtonTone::Primary));
    assert!(button_has_shadow(ButtonTone::Danger));
}
