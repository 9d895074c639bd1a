use mde_shell::palette::{FontWeight, Palette, Rgba, Theme, FONT_DISPLAY_BODY, FONT_MONO};

#[test]
fn accent_matches_q2_lock() {
    let p = Palette::dark();
    assert_eq!(p.accent.r, 0x5b);
    assert_eq!(p.accent.g, 0x6a);
    assert_eq!(p.accent.b, 0xf5);
}

#[test]
fn accent_is_identical_in_both_themes() {
    assert_eq!(Palette::dark().accent, Palette::light().accent);
}

#[test]
fn dark_background_matches_q3_charcoal() {
    let bg = Palette::dark().background;
    assert_eq!((bg.r, bg.g, bg.b), (0x1d, 0x1d, 0x1f));
}

#[test]
fn border_is_adaptive_per_q7() {
    // Alpha is in thousandths: 200 is 0.2, 100 is 0.10.
    assert!(Palette::dark().border.a < 200);
    assert!(Palette::light().border.a >= 100);
}

#[test]
fn hover_tint_uses_accent_at_8pct() {
    let p = Palette::dark();
    let h = p.hover_tint();
    assert_eq!(h.r, p.accent.r);
    assert_eq!(h.a, 80);
}

#[test]
fn medium_weight_is_500() {
    assert_eq!(FontWeight::defaults().medium, 500);
}

#[test]
fn font_family_is_geologica() {
    assert_eq!(FONT_DISPLAY_BODY, "Geologica");
}

#[test]
fn mono_is_ibm_plex_mono() {
    assert_eq!(FONT_MONO, "IBM Plex Mono");
}

#[test]
fn theme_selects_palette_and_tints() {
    assert_eq!(Palette::for_theme(Theme::Dark), Palette::dark());
    assert_eq!(Palette::for_theme(Theme::Light), Palette::light());
    assert_eq!(Palette::light().background, Rgba::rgb(0xf5, 0xf5, 0xf7));
    assert_eq!(Palette::light().active_tint(), Rgba::rgba(0x5b, 0x6a, 0xf5, 120));
    assert_eq!(FontWeight::defaults().regular, 400);
}
