//! Button tones and the colours each tone is drawn with.

use crate::ui::theme::{
    BLUE, BLUE_HOVER, DARK_ACTIVE, DARK_HOVER, INK, PINK, PINK_HOVER, SURFACE, SURFACE_ALT, WHITE,
    YELLOW, YELLOW_HOVER,
};
use vstd::prelude::*;

verus! {

/// The kinds of button of the interface.
#[derive(Debug, Clone, Copy, PartialEq, Eq, Structural)]
pub enum ButtonTone {
    Primary,
    Secondary,
    Accent,
    Dark,
    Danger,
}

/// Colours of a button: background, hover, pressed, text.
#[derive(Debug, Clone, Copy, PartialEq, Eq, Structural)]
pub struct ButtonPalette {
    pub background: u32,
    pub hover: u32,
    pub active: u32,
    pub foreground: u32,
}

/// The colours of each tone.
pub open spec fn palette_of(tone: ButtonTone) -> ButtonPalette {
    match tone {
        ButtonTone::Primary => ButtonPalette {
            background: YELLOW,
            hover: YELLOW_HOVER,
            active: YELLOW_HOVER,
            foreground: INK,
        },
        ButtonTone::Secondary => ButtonPalette {
            background: SURFACE,
            hover: SURFACE_ALT,
            active: YELLOW,
            foreground: INK,
        },
        ButtonTone::Accent => ButtonPalette {
            background: BLUE,
            hover: BLUE_HOVER,
            active: BLUE_HOVER,
            foreground: WHITE,
        },
        ButtonTone::Dark => ButtonPalette {
            background: INK,
            hover: DARK_HOVER,
            active: DARK_ACTIVE,
            foreground: WHITE,
        },
        ButtonTone::Danger => ButtonPalette {
            background: PINK,
            hover: PINK_HOVER,
            active: PINK_HOVER,
            foreground: INK,
        },
    }
}

/// The colours a button of the given tone is drawn with.
pub fn button_palette(tone: ButtonTone) -> (p: ButtonPalette)
    ensures
        p == palette_of(tone),
{
    match tone {
        ButtonTone::Primary => ButtonPalette {
            background: YELLOW,
            hover: YELLOW_HOVER,
            active: YELLOW_HOVER,
            foreground: INK,
        },
        ButtonTone::Secondary => ButtonPalette {
            background: SURFACE,
            hover: SURFACE_ALT,
            active: YELLOW,
            foreground: INK,
        },
        ButtonTone::Accent => ButtonPalette {
            background: BLUE,
            hover: BLUE_HOVER,
            active: BLUE_HOVER,
            foreground: WHITE,
        },
        ButtonTone::Dark => ButtonPalette {
            background: INK,
            hover: DARK_HOVER,
            active: DARK_ACTIVE,
            foreground: WHITE,
        },
        ButtonTone::Danger => ButtonPalette {
            background: PINK,
            hover: PINK_HOVER,
            active: PINK_HOVER,
            foreground: INK,
        },
    }
}

/// Every tone but the secondary one casts a hard shadow.
pub fn button_has_shadow(tone: ButtonTone) -> (b: bool)
    ensures
        b == (tone != ButtonTone::Secondary),
{
    match tone {
        ButtonTone::Secondary => false,
        _ => true,
    }
}

} // verus!
