//! Colour and typography tokens of the desktop theme: the two palettes
//! (dark and light), the hover and active tints, and the font families
//! and weights.
use vstd::prelude::*;

verus! {

/// An sRGB colour with alpha. The alpha is kept in thousandths
/// (`1000` = opaque), so `0.08` is `80`.
#[derive(Clone, Copy, Debug, PartialEq, Eq, Structural)]
pub struct Rgba {
    pub r: u8,
    pub g: u8,
    pub b: u8,
    /// Alpha in thousandths, `0..=1000`.
    pub a: u16,
}

impl Rgba {
    /// An opaque colour.
    pub fn rgb(r: u8, g: u8, b: u8) -> (c: Self)
        ensures
            c == (Rgba { r, g, b, a: 1000 }),
    {
        Rgba { r, g, b, a: 1000 }
    }

    /// A colour with alpha `a` (thousandths).
    pub fn rgba(r: u8, g: u8, b: u8, a: u16) -> (c: Self)
        requires
            a <= 1000,
        ensures
            c == (Rgba { r, g, b, a }),
    {
        Rgba { r, g, b, a }
    }

    /// The same colour at alpha `a` (thousandths).
    pub fn with_alpha(self, a: u16) -> (c: Self)
        requires
            a <= 1000,
        ensures
            c == (Rgba { r: self.r, g: self.g, b: self.b, a }),
    {
        Rgba { r: self.r, g: self.g, b: self.b, a }
    }
}

/// The two themes.
#[derive(Clone, Copy, Debug, PartialEq, Eq, Structural)]
pub enum Theme {
    Dark,
    Light,
}

/// A complete palette for one theme: all eight tokens.
#[derive(Clone, Copy, Debug, PartialEq, Eq, Structural)]
pub struct Palette {
    /// Lowest surface in the elevation stack.
    pub background: Rgba,
    /// Standard surface — cards, panels, sidebars.
    pub surface: Rgba,
    /// Raised surface — modals, popovers, command palette.
    pub raised: Rgba,
    /// Overlay surface — tooltips, dropdown menus.
    pub overlay: Rgba,
    /// The single accent, the same in both themes.
    pub accent: Rgba,
    /// Hairline border in dark mode; solid border in light mode.
    pub border: Rgba,
    /// Primary text colour.
    pub text: Rgba,
    /// Muted / secondary text colour.
    pub text_muted: Rgba,
}

pub open spec fn opaque(r: u8, g: u8, b: u8) -> Rgba {
    Rgba { r, g, b, a: 1000 }
}

pub open spec fn tinted(r: u8, g: u8, b: u8, a: u16) -> Rgba {
    Rgba { r, g, b, a }
}

/// The indigo accent `#5b6af5`.
pub open spec fn accent_color() -> Rgba {
    opaque(0x5b, 0x6a, 0xf5)
}

/// The dark palette.
pub open spec fn dark_palette() -> Palette {
    Palette {
        background: opaque(0x1d, 0x1d, 0x1f),
        surface: opaque(0x2a, 0x2a, 0x2c),
        raised: opaque(0x38, 0x38, 0x3a),
        overlay: opaque(0x48, 0x48, 0x4a),
        accent: accent_color(),
        border: tinted(0xff, 0xff, 0xff, 80),
        text: tinted(0xff, 0xff, 0xff, 920),
        text_muted: tinted(0xff, 0xff, 0xff, 550),
    }
}

/// The light palette.
pub open spec fn light_palette() -> Palette {
    Palette {
        background: opaque(0xf5, 0xf5, 0xf7),
        surface: opaque(0xff, 0xff, 0xff),
        raised: opaque(0xf0, 0xf0, 0xf2),
        overlay: opaque(0xe5, 0xe5, 0xe7),
        accent: accent_color(),
        border: tinted(0x00, 0x00, 0x00, 120),
        text: tinted(0x00, 0x00, 0x00, 880),
        text_muted: tinted(0x00, 0x00, 0x00, 550),
    }
}

impl Palette {
    /// Resolve the palette for a given theme.
    pub fn for_theme(theme: Theme) -> (p: Self)
        ensures
            p == match theme {
                Theme::Dark => dark_palette(),
                Theme::Light => light_palette(),
            },
    {
        match theme {
            Theme::Dark => Self::dark(),
            Theme::Light => Self::light(),
        }
    }

    /// Dark-theme palette.
    pub fn dark() -> (p: Self)
        ensures
            p == dark_palette(),
    {
        Palette {
            background: Rgba::rgb(0x1d, 0x1d, 0x1f),
            surface: Rgba::rgb(0x2a, 0x2a, 0x2c),
            raised: Rgba::rgb(0x38, 0x38, 0x3a),
            overlay: Rgba::rgb(0x48, 0x48, 0x4a),
            accent: Rgba::rgb(0x5b, 0x6a, 0xf5),
            border: Rgba::rgba(0xff, 0xff, 0xff, 80),
            text: Rgba::rgba(0xff, 0xff, 0xff, 920),
            text_muted: Rgba::rgba(0xff, 0xff, 0xff, 550),
        }
    }

    /// Light-theme palette.
    pub fn light() -> (p: Self)
        ensures
            p == light_palette(),
    {
        Palette {
            background: Rgba::rgb(0xf5, 0xf5, 0xf7),
            surface: Rgba::rgb(0xff, 0xff, 0xff),
            raised: Rgba::rgb(0xf0, 0xf0, 0xf2),
            overlay: Rgba::rgb(0xe5, 0xe5, 0xe7),
            accent: Rgba::rgb(0x5b, 0x6a, 0xf5),
            border: Rgba::rgba(0x00, 0x00, 0x00, 120),
            text: Rgba::rgba(0x00, 0x00, 0x00, 880),
            text_muted: Rgba::rgba(0x00, 0x00, 0x00, 550),
        }
    }

    /// Hover wash: the accent at 8 % opacity.
    pub fn hover_tint(&self) -> (c: Rgba)
        ensures
            c == (Rgba { r: self.accent.r, g: self.accent.g, b: self.accent.b, a: 80 }),
    {
        self.accent.with_alpha(80)
    }

    /// Active (mouse-down) wash: the accent at 12 % opacity.
    pub fn active_tint(&self) -> (c: Rgba)
        ensures
            c == (Rgba { r: self.accent.r, g: self.accent.g, b: self.accent.b, a: 120 }),
    {
        self.accent.with_alpha(120)
    }
}

/// Both themes share the single accent; the dark border is a hairline
/// (under 20 % opacity) and the light border a solid line (at least
/// 10 %).
pub proof fn law_palettes_agree_on_accent()
    ensures
        dark_palette().accent == light_palette().accent,
        dark_palette().border.a < 200,
        light_palette().border.a >= 100,
{
}

// ───────────────────────── typography ─────────────────────────

/// Display + body font family.
pub const FONT_DISPLAY_BODY: &'static str = "Geologica";

/// Monospace font family.
pub const FONT_MONO: &'static str = "IBM Plex Mono";

/// Font weights: regular for body and captions, medium for titles.
#[derive(Clone, Copy, Debug, PartialEq, Eq, Structural)]
pub struct FontWeight {
    /// 400 — body, caption.
    pub regular: u16,
    /// 500 — display, headings, section titles, button labels.
    pub medium: u16,
}

impl FontWeight {
    /// Defaults: 400 / 500.
    pub fn defaults() -> (w: Self)
        ensures
            w.regular == 400 && w.medium == 500,
    {
        FontWeight { regular: 400, medium: 500 }
    }
}


/// Primary text contrasts with its background: the light theme's text is
/// black on a light background, the dark theme's white on a dark one, each
/// mostly opaque.
pub proof fn law_text_contrasts_with_background()
    ensures
        light_palette().text.r == 0 && light_palette().text.g == 0 && light_palette().text.b == 0,
        light_palette().background.r >= 0xf0 && light_palette().background.g >= 0xf0
            && light_palette().background.b >= 0xf0,
        dark_palette().text.r == 0xff && dark_palette().text.g == 0xff && dark_palette().text.b
            == 0xff,
        dark_palette().background.r <= 0x20 && dark_palette().background.g <= 0x20
            && dark_palette().background.b <= 0x20,
        light_palette().text.a >= 800 && dark_palette().text.a >= 800,
{
}

} // verus!
