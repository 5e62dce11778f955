//! The text of the command that switches one device to one layout.

use vstd::prelude::*;
use crate::decimal::{decimal, signed_decimal, unsigned_decimal};

verus! {

/// The command that switches `device` to the layout at `index`:
/// `input <device> xkb_switch_layout <index>`.
pub open spec fn switch_command(device: Seq<char>, index: int) -> Seq<char> {
    "input "@ + device + " xkb_switch_layout "@ + decimal(index)
}

fn command_text(device: &str, index_text: &str) -> (command: String)
    ensures
        command@ == "input "@ + device@ + " xkb_switch_layout "@ + index_text@,
{
    let mut command = String::from_str("input ");
    command.append(device);
    command.append(" xkb_switch_layout ");
    command.append(index_text);
    command
}

/// The command that switches `device` to a recorded layout index.
pub fn switch_to_index(device: &str, index: i32) -> (command: String)
    ensures
        command@ == switch_command(device@, index as int),
{
    let index_text = signed_decimal(index as i64);
    command_text(device, index_text.as_str())
}

/// The command that switches `device` to the layout at `position` of its
/// list of layout names.
pub fn switch_to_position(device: &str, position: usize) -> (command: String)
    ensures
        command@ == switch_command(device@, position as int),
{
    let index_text = unsigned_decimal(position as u64);
    command_text(device, index_text.as_str())
}

} // verus!
