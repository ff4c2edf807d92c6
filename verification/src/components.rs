//! What the web front-end's panels decide: the serial panel, the receive and
//! send tab, the command library and the status bar.

pub mod command_manager_tab;
pub mod receive_send_tab;
pub mod serial_panel;
pub mod status_bar;
