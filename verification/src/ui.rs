//! Look of the interface: the palette and the button tones.

pub mod components;
pub mod theme;
