//! Colours of the interface: the two theme palettes and the colours of channels and
//! arrows, which are the same in both themes.

use vstd::prelude::*;

verus! {

/// An RGB colour.
#[derive(Clone, Copy, PartialEq, Eq, Structural, Debug)]
pub struct Rgb {
    /// Red
    pub r: u8,
    /// Green
    pub g: u8,
    /// Blue
    pub b: u8,
}

/// The colour `(r, g, b)`.
pub open spec fn rgb(r: u8, g: u8, b: u8) -> Rgb {
    Rgb { r, g, b }
}

/// Palette of a theme.
#[derive(Clone, Copy, PartialEq, Eq, Structural, Debug)]
pub struct ThemeColors {
    /// Primary text
    pub text: Rgb,
    /// Emphasized text
    pub text_strong: Rgb,
    /// Secondary text
    pub text_weak: Rgb,
    /// Headers and highlights
    pub accent: Rgb,
    /// Success
    pub success: Rgb,
    /// Warning
    pub warning: Rgb,
    /// Error
    pub error: Rgb,
    /// Background of inactive elements
    pub inactive_bg: Rgb,
    /// Section headers
    pub header: Rgb,
}

impl ThemeColors {
    /// The palette of the theme (dark or light).
    pub fn for_mode(dark_mode: bool) -> (r: Self)
        ensures
            dark_mode ==> r == ThemeColors::spec_dark(),
            !dark_mode ==> r == ThemeColors::spec_light(),
    {
        if dark_mode {
            Self::dark()
        } else {
            Self::light()
        }
    }

    /// The light palette.
    pub open spec fn spec_light() -> Self {
        ThemeColors {
            text: rgb(30, 30, 30),
            text_strong: rgb(0, 0, 0),
            text_weak: rgb(100, 100, 100),
            accent: rgb(0, 100, 150),
            success: rgb(40, 160, 40),
            warning: rgb(200, 140, 0),
            error: rgb(200, 50, 50),
            inactive_bg: rgb(240, 240, 240),
            header: rgb(0, 100, 150),
        }
    }

    /// The dark palette.
    pub open spec fn spec_dark() -> Self {
        ThemeColors {
            text: rgb(220, 220, 220),
            text_strong: rgb(255, 255, 255),
            text_weak: rgb(160, 160, 160),
            accent: rgb(100, 180, 255),
            success: rgb(100, 220, 100),
            warning: rgb(255, 200, 80),
            error: rgb(255, 100, 100),
            inactive_bg: rgb(60, 60, 60),
            header: rgb(100, 180, 255),
        }
    }

    /// Light mode palette.
    pub fn light() -> (r: Self)
        ensures
            r == ThemeColors::spec_light(),
    {
        ThemeColors {
            text: Rgb { r: 30, g: 30, b: 30 },
            text_strong: Rgb { r: 0, g: 0, b: 0 },
            text_weak: Rgb { r: 100, g: 100, b: 100 },
            accent: Rgb { r: 0, g: 100, b: 150 },
            success: Rgb { r: 40, g: 160, b: 40 },
            warning: Rgb { r: 200, g: 140, b: 0 },
            error: Rgb { r: 200, g: 50, b: 50 },
            inactive_bg: Rgb { r: 240, g: 240, b: 240 },
            header: Rgb { r: 0, g: 100, b: 150 },
        }
    }

    /// Dark mode palette.
    pub fn dark() -> (r: Self)
        ensures
            r == ThemeColors::spec_dark(),
    {
        ThemeColors {
            text: Rgb { r: 220, g: 220, b: 220 },
            text_strong: Rgb { r: 255, g: 255, b: 255 },
            text_weak: Rgb { r: 160, g: 160, b: 160 },
            accent: Rgb { r: 100, g: 180, b: 255 },
            success: Rgb { r: 100, g: 220, b: 100 },
            warning: Rgb { r: 255, g: 200, b: 80 },
            error: Rgb { r: 255, g: 100, b: 100 },
            inactive_bg: Rgb { r: 60, g: 60, b: 60 },
            header: Rgb { r: 100, g: 180, b: 255 },
        }
    }
}

/// Colours of the channel labels (coloured backgrounds with dark text).
pub struct ChannelColors;

impl ChannelColors {
    /// Red: broadcast channels
    pub fn red() -> (r: Rgb)
        ensures
            r == rgb(255, 84, 84),
    {
        Rgb { r: 255, g: 84, b: 84 }
    }

    /// Blue: common channels
    pub fn blue() -> (r: Rgb)
        ensures
            r == rgb(68, 143, 255),
    {
        Rgb { r: 68, g: 143, b: 255 }
    }

    /// Orange: dedicated channels
    pub fn orange() -> (r: Rgb)
        ensures
            r == rgb(255, 181, 68),
    {
        Rgb { r: 255, g: 181, b: 68 }
    }

    /// Green: traffic channels
    pub fn green() -> (r: Rgb)
        ensures
            r == rgb(90, 235, 100),
    {
        Rgb { r: 90, g: 235, b: 100 }
    }

    /// Text on coloured backgrounds
    pub fn text_on_color() -> (r: Rgb)
        ensures
            r == rgb(30, 30, 30),
    {
        Rgb { r: 30, g: 30, b: 30 }
    }
}

/// Colours of the arrows of the diagrams.
pub struct ArrowColors;

impl ArrowColors {
    /// Active or highlighted arrow (green)
    pub fn active() -> (r: Rgb)
        ensures
            r == rgb(110, 255, 110),
    {
        Rgb { r: 110, g: 255, b: 110 }
    }

    /// Secondary highlight (blue)
    pub fn highlight() -> (r: Rgb)
        ensures
            r == rgb(68, 143, 255),
    {
        Rgb { r: 68, g: 143, b: 255 }
    }

    /// Current selection (bright blue)
    pub fn current() -> (r: Rgb)
        ensures
            r == rgb(50, 120, 220),
    {
        Rgb { r: 50, g: 120, b: 220 }
    }

    /// Related items (lighter blue)
    pub fn related() -> (r: Rgb)
        ensures
            r == rgb(130, 180, 240),
    {
        Rgb { r: 130, g: 180, b: 240 }
    }
}

} // verus!
