//! Switching keyboards to a default layout chosen by name.

use vstd::prelude::*;
use crate::command::{switch_command, switch_to_position};
use crate::device::{devices, InputDevice, InputDeviceView};
use crate::text::{same_text, texts};

verus! {

/// One command for each position of `names` that holds `layout`, in order:
/// the command that switches `device` to that position.
pub open spec fn matching_commands(
    device: Seq<char>,
    names: Seq<Seq<char>>,
    layout: Seq<char>,
) -> Seq<Seq<char>>
    decreases names.len(),
{
    if names.len() == 0 {
        Seq::empty()
    } else {
        let earlier = matching_commands(device, names.drop_last(), layout);
        if names.last() == layout {
            earlier.push(switch_command(device, names.len() - 1))
        } else {
            earlier
        }
    }
}

/// The commands that switch every keyboard among `inputs` that has a layout
/// named `layout` to that layout, device by device in the order of `inputs`.
pub open spec fn default_commands(layout: Seq<char>, inputs: Seq<InputDeviceView>) -> Seq<
    Seq<char>,
>
    decreases inputs.len(),
{
    if inputs.len() == 0 {
        Seq::empty()
    } else {
        let earlier = default_commands(layout, inputs.drop_last());
        let device = inputs.last();
        if device.is_keyboard() {
            earlier + matching_commands(device.identifier, device.xkb_layout_names, layout)
        } else {
            earlier
        }
    }
}

/// A device without a layout named `layout` gets no command.
pub proof fn lemma_no_matching_name(device: Seq<char>, names: Seq<Seq<char>>, layout: Seq<char>)
    requires
        !names.contains(layout),
    ensures
        matching_commands(device, names, layout) == Seq::<Seq<char>>::empty(),
    decreases names.len(),
{
    if names.len() > 0 {
        let earlier = names.drop_last();
        assert(names.last() == names[names.len() - 1]);
        assert forall|i: int| 0 <= i < earlier.len() implies earlier[i] != layout by {
            assert(earlier[i] == names[i]);
        }
        lemma_no_matching_name(device, earlier, layout);
    }
}

/// A device with one layout named `layout`, at `position`, gets one
/// command: the switch to `position`.
pub proof fn lemma_single_matching_name(
    device: Seq<char>,
    names: Seq<Seq<char>>,
    layout: Seq<char>,
    position: int,
)
    requires
        0 <= position < names.len(),
        names[position] == layout,
        forall|i: int| 0 <= i < names.len() && i != position ==> names[i] != layout,
    ensures
        matching_commands(device, names, layout) == seq![switch_command(device, position)],
    decreases names.len(),
{
    let earlier = names.drop_last();
    if position == names.len() - 1 {
        assert forall|i: int| 0 <= i < earlier.len() implies earlier[i] != layout by {
            assert(earlier[i] == names[i]);
        }
        assert(!earlier.contains(layout));
        lemma_no_matching_name(device, earlier, layout);
        assert(Seq::<Seq<char>>::empty().push(switch_command(device, position))
            =~= seq![switch_command(device, position)]);
    } else {
        assert(earlier[position] == names[position]);
        assert forall|i: int| 0 <= i < earlier.len() && i != position implies earlier[i]
            != layout by {
            assert(earlier[i] == names[i]);
        }
        lemma_single_matching_name(device, earlier, layout, position);
    }
}

/// Where no keyboard among `inputs` has a layout named `layout`, no
/// command is issued.
pub proof fn lemma_no_keyboard_has_layout(layout: Seq<char>, inputs: Seq<InputDeviceView>)
    requires
        forall|i: int|
            0 <= i < inputs.len() && (#[trigger] inputs[i]).is_keyboard()
                ==> !inputs[i].xkb_layout_names.contains(layout),
    ensures
        default_commands(layout, inputs) == Seq::<Seq<char>>::empty(),
    decreases inputs.len(),
{
    if inputs.len() > 0 {
        let earlier = inputs.drop_last();
        assert forall|i: int| 0 <= i < earlier.len() && (#[trigger] earlier[i]).is_keyboard()
            implies !earlier[i].xkb_layout_names.contains(layout) by {
            assert(earlier[i] == inputs[i]);
        }
        lemma_no_keyboard_has_layout(layout, earlier);
        let device = inputs.last();
        assert(device == inputs[inputs.len() - 1]);
        if device.is_keyboard() {
            lemma_no_matching_name(device.identifier, device.xkb_layout_names, layout);
        }
    }
}

/// The device at the end of the list adds its own commands after those of
/// the devices before it; a device of another type adds none.
pub proof fn lemma_default_commands_push(
    layout: Seq<char>,
    inputs: Seq<InputDeviceView>,
    device: InputDeviceView,
)
    ensures
        default_commands(layout, inputs.push(device)) == if device.is_keyboard() {
            default_commands(layout, inputs) + matching_commands(
                device.identifier,
                device.xkb_layout_names,
                layout,
            )
        } else {
            default_commands(layout, inputs)
        },
{
    assert(inputs.push(device).drop_last() =~= inputs);
}

/// The commands that switch every keyboard among `inputs` that has a layout
/// named `layout` to that layout.
pub fn default_layout_commands(layout: &str, inputs: &Vec<InputDevice>) -> (commands: Vec<String>)
    ensures
        texts(commands@) == default_commands(layout@, devices(inputs@)),
{
    let mut commands: Vec<String> = Vec::new();
    let mut i: usize = 0;
    assert(devices(inputs@).take(0) =~= Seq::empty());
    assert(texts(commands@) =~= Seq::empty());
    while i < inputs.len()
        invariant
            i <= inputs.len(),
            texts(commands@) == default_commands(layout@, devices(inputs@).take(i as int)),
        decreases inputs.len() - i,
    {
        let input = &inputs[i];
        let ghost earlier = texts(commands@);
        let ghost names = texts(input.xkb_layout_names@);
        proof {
            let upto = devices(inputs@).take(i + 1);
            assert(upto.drop_last() =~= devices(inputs@).take(i as int));
            assert(upto.last() == input@);
        }
        if input.is_keyboard() {
            let mut j: usize = 0;
            assert(names.take(0) =~= Seq::empty());
            assert(earlier + Seq::<Seq<char>>::empty() =~= earlier);
            while j < input.xkb_layout_names.len()
                invariant
                    j <= input.xkb_layout_names.len(),
                    names == texts(input.xkb_layout_names@),
                    texts(commands@) == earlier + matching_commands(
                        input.identifier@,
                        names.take(j as int),
                        layout@,
                    ),
                decreases input.xkb_layout_names.len() - j,
            {
                proof {
                    let upto = names.take(j + 1);
                    assert(upto.drop_last() =~= names.take(j as int));
                    assert(upto.last() == input.xkb_layout_names@[j as int]@);
                }
                if same_text(input.xkb_layout_names[j].as_str(), layout) {
                    let ghost before = texts(commands@);
                    let command = switch_to_position(input.identifier.as_str(), j);
                    commands.push(command);
                    assert(texts(commands@) =~= before.push(command@));
                    assert(texts(commands@) =~= earlier + matching_commands(
                        input.identifier@,
                        names.take(j + 1),
                        layout@,
                    ));
                }
                j += 1;
            }
            assert(names.take(names.len() as int) =~= names);
        }
        i += 1;
    }
    assert(devices(inputs@).take(inputs@.len() as int) =~= devices(inputs@));
    commands
}

} // verus!
