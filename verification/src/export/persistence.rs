//! The settings that survive a restart: the port configuration and the
//! preset commands.

use crate::state::{is_default_port_config, PortConfig, PresetCommand};
use vstd::prelude::*;

verus! {

/// What is written to the settings file.
#[derive(Debug, Clone)]
pub struct SavedSettings {
    pub port_config: PortConfig,
    pub presets: Vec<PresetCommand>,
}

impl Default for SavedSettings {
    fn default() -> (s: Self)
        ensures
            is_default_port_config(s.port_config),
            s.presets@.len() == 0,
    {
        SavedSettings { port_config: PortConfig::default(), presets: Vec::new() }
    }
}

} // verus!
