//! Domain logic of a serial-port debugging assistant: payload encodings,
//! receive framing, the bounded message log, export formats and the
//! decisions that drive the connection, sending and preset commands.

pub mod app;
pub mod backend;
pub mod components;
pub mod export;
pub mod serial;
pub mod services;
pub mod state;
pub mod text;
pub mod ui;
