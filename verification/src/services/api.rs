//! The arguments of the store calls the web front-end makes to keep its
//! preset commands, and what a load yields.

use crate::state::PresetCommand;
use vstd::prelude::*;
use vstd::string::{StrSliceExecFns, StringExecFns};

verus! {

/// The store file of the preset commands.
pub const PRESET_COMMANDS_STORE_PATH: &'static str = "preset-commands.json";

/// The key the preset commands are kept under.
pub const PRESET_COMMANDS_KEY: &'static str = "preset_commands";

/// Arguments of `plugin:store|load`; no options are passed.
#[derive(Debug)]
pub struct StoreLoadArgs {
    pub path: String,
}

/// Arguments of `plugin:store|get` and of `plugin:store|set` besides the value.
#[derive(Debug)]
pub struct StoreKeyArgs {
    pub rid: u32,
    pub key: String,
}

/// Arguments of `plugin:store|save`.
#[derive(Debug)]
pub struct StoreResourceArgs {
    pub rid: u32,
}

pub fn preset_store_load_args() -> (a: StoreLoadArgs)
    ensures
        a.path@ == PRESET_COMMANDS_STORE_PATH@,
{
    StoreLoadArgs { path: String::from_str(PRESET_COMMANDS_STORE_PATH) }
}

pub fn preset_store_get_args(rid: u32) -> (a: StoreKeyArgs)
    ensures
        a.rid == rid,
        a.key@ == PRESET_COMMANDS_KEY@,
{
    StoreKeyArgs { rid, key: String::from_str(PRESET_COMMANDS_KEY) }
}

pub fn store_resource_args(rid: u32) -> (a: StoreResourceArgs)
    ensures
        a.rid == rid,
{
    StoreResourceArgs { rid }
}

/// What loading the presets yields: nothing stored means no presets; a
/// stored value that does not parse is an error.
pub fn stored_presets(exists: bool, parsed: Result<Vec<PresetCommand>, String>) -> (r: Result<
    Vec<PresetCommand>,
    String,
>)
    ensures
        !exists ==> (r matches Ok(p) && p@.len() == 0),
        exists ==> match parsed {
            Ok(p) => r == Ok::<Vec<PresetCommand>, String>(p),
            Err(e) => r matches Err(m) && m@ == "解析预设指令失败: "@ + e@,
        },
{
    if !exists {
        return Ok(Vec::new());
    }
    match parsed {
        Ok(p) => Ok(p),
        Err(e) => {
            let mut m = String::from_str("解析预设指令失败: ");
            m.append(e.as_str());
            Err(m)
        },
    }
}

} // verus!
