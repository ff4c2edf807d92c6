//! The command library of the web front-end: saving and deleting commands.

use crate::app::{lemma_preset_index_from, preset_index, preset_index_from, presets_without};
use crate::state::{is_uuid_v4_text, new_preset_command_id, Encoding, PresetCommand};
use crate::text::str_equal;
use vstd::pervasive::VecAdditionalExecFns;
use vstd::prelude::*;
use vstd::string::StrSliceExecFns;

verus! {

fn find_command(commands: &Vec<PresetCommand>, id: &str) -> (r: Option<usize>)
    ensures
        match preset_index(commands@, id@) {
            Some(k) => r matches Some(j) && j as int == k,
            None => r is None,
        },
        r matches Some(j) ==> j < commands@.len(),
{
    proof {
        lemma_preset_index_from(commands@, id@, 0);
    }
    let mut i: usize = 0;
    while i < commands.len()
        invariant
            i <= commands@.len(),
            preset_index(commands@, id@) == preset_index_from(commands@, id@, i as int),
        decreases commands@.len() - i,
    {
        if str_equal(commands[i].id.as_str(), id) {
            return Some(i);
        }
        i += 1;
    }
    None
}

/// The save button: name and content must not be empty. With an id, the
/// command of that id (if still there) takes the name, content and
/// encoding; without one, a new command with a fresh id is added.
pub fn save_command(
    commands: &mut Vec<PresetCommand>,
    id: Option<String>,
    name: String,
    content: String,
    encoding: Encoding,
) -> (saved: bool)
    ensures
        saved == (name@.len() > 0 && content@.len() > 0),
        !saved ==> final(commands)@ == old(commands)@,
        saved ==> match id {
            Some(x) => match preset_index(old(commands)@, x@) {
                Some(k) => final(commands)@ == old(commands)@.update(
                    k,
                    PresetCommand { id: old(commands)@[k].id, name, content, encoding },
                ),
                None => final(commands)@ == old(commands)@,
            },
            None => {
                let last = final(commands)@.last();
                &&& final(commands)@ == old(commands)@.push(last)
                &&& is_uuid_v4_text(last.id@)
                &&& last.name == name
                &&& last.content == content
                &&& last.encoding == encoding
            },
        },
{
    if name.as_str().unicode_len() == 0 || content.as_str().unicode_len() == 0 {
        return false;
    }
    match id {
        Some(existing) => {
            if let Some(k) = find_command(commands, existing.as_str()) {
                let kept = commands[k].id.clone();
                commands.set(k, PresetCommand { id: kept, name, content, encoding });
            }
        },
        None => {
            commands.push(PresetCommand { id: new_preset_command_id(), name, content, encoding });
        },
    }
    true
}

/// The delete button: every command with that id goes.
pub fn delete_command(commands: &mut Vec<PresetCommand>, id: &str)
    ensures
        final(commands)@ == presets_without(old(commands)@, id@),
{
    let mut kept: Vec<PresetCommand> = Vec::new();
    let mut all: Vec<PresetCommand> = Vec::new();
    std::mem::swap(&mut all, commands);
    let ghost ps = all@;
    for p in it: all
        invariant
            it.seq() == ps,
            kept@ == presets_without(ps.take(it.index() as int), id@),
    {
        let ghost k = it.index();
        proof {
            assert(ps.take(k + 1).drop_last() == ps.take(k as int));
            assert(ps.take(k + 1).last() == p);
        }
        if !str_equal(p.id.as_str(), id) {
            kept.push(p);
        }
    }
    proof {
        assert(ps.take(ps.len() as int) == ps);
    }
    *commands = kept;
}

} // verus!
