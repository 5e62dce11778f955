//! Capturing the active layout of every keyboard.

use vstd::prelude::*;
use crate::device::{devices, InputDevice, InputDeviceView};
use crate::layout_map::{
    distinct_devices, lemma_record_distinct, lemma_record_recorded, record, recorded,
    InputLayoutMap,
};

verus! {

/// Every keyboard among `inputs` reports an active layout index.
pub open spec fn keyboards_report_layout(inputs: Seq<InputDeviceView>) -> bool {
    forall|i: int|
        0 <= i < inputs.len() && (#[trigger] inputs[i]).is_keyboard()
            ==> inputs[i].xkb_active_layout_index is Some
}

/// The active layout index of each keyboard among `inputs`, by identifier.
/// Devices of other types are left out; where an identifier occurs on
/// several keyboards, the last one decides.
pub open spec fn snapshot(inputs: Seq<InputDeviceView>) -> Seq<(Seq<char>, i32)>
    decreases inputs.len(),
{
    if inputs.len() == 0 {
        Seq::empty()
    } else {
        let earlier = snapshot(inputs.drop_last());
        let device = inputs.last();
        if device.is_keyboard() && device.xkb_active_layout_index is Some {
            record(earlier, device.identifier, device.xkb_active_layout_index->0)
        } else {
            earlier
        }
    }
}

/// A snapshot holds no device twice.
pub proof fn lemma_snapshot_distinct(inputs: Seq<InputDeviceView>)
    ensures
        distinct_devices(snapshot(inputs)),
    decreases inputs.len(),
{
    if inputs.len() > 0 {
        lemma_snapshot_distinct(inputs.drop_last());
        let device = inputs.last();
        if device.is_keyboard() && device.xkb_active_layout_index is Some {
            lemma_record_distinct(
                snapshot(inputs.drop_last()),
                device.identifier,
                device.xkb_active_layout_index->0,
            );
        }
    }
}

/// Whether the device at `i` of `inputs` is a keyboard named `device` that
/// reports an active layout index.
pub open spec fn reports_at(inputs: Seq<InputDeviceView>, i: int, device: Seq<char>) -> bool {
    &&& 0 <= i < inputs.len()
    &&& inputs[i].is_keyboard()
    &&& inputs[i].identifier == device
    &&& inputs[i].xkb_active_layout_index is Some
}

/// A snapshot holds no index for a device that no keyboard among `inputs`
/// reports one for.
pub proof fn lemma_snapshot_leaves_out(inputs: Seq<InputDeviceView>, device: Seq<char>)
    requires
        forall|i: int| !reports_at(inputs, i, device),
    ensures
        recorded(snapshot(inputs), device) is None,
    decreases inputs.len(),
{
    if inputs.len() > 0 {
        let earlier = inputs.drop_last();
        assert forall|i: int| !reports_at(earlier, i, device) by {
            if reports_at(earlier, i, device) {
                assert(reports_at(inputs, i, device));
            }
        }
        lemma_snapshot_leaves_out(earlier, device);
        lemma_snapshot_distinct(earlier);
        let last = inputs.last();
        assert(!reports_at(inputs, inputs.len() - 1, device));
        if last.is_keyboard() && last.xkb_active_layout_index is Some {
            lemma_record_recorded(
                snapshot(earlier),
                last.identifier,
                last.xkb_active_layout_index->0,
                device,
            );
        }
    }
}

/// A snapshot holds for a device the index that the last keyboard of that
/// name among `inputs` reports.
pub proof fn lemma_snapshot_last_wins(inputs: Seq<InputDeviceView>, device: Seq<char>, last: int)
    requires
        reports_at(inputs, last, device),
        forall|i: int| last < i ==> !reports_at(inputs, i, device),
    ensures
        recorded(snapshot(inputs), device) == inputs[last].xkb_active_layout_index,
    decreases inputs.len(),
{
    let earlier = inputs.drop_last();
    let end = inputs.last();
    lemma_snapshot_distinct(earlier);
    if end.is_keyboard() && end.xkb_active_layout_index is Some {
        lemma_record_recorded(
            snapshot(earlier),
            end.identifier,
            end.xkb_active_layout_index->0,
            device,
        );
    }
    if last < inputs.len() - 1 {
        assert(!reports_at(inputs, inputs.len() - 1, device));
        assert(reports_at(earlier, last, device));
        assert forall|i: int| last < i implies !reports_at(earlier, i, device) by {
            if reports_at(earlier, i, device) {
                assert(reports_at(inputs, i, device));
            }
        }
        lemma_snapshot_last_wins(earlier, device, last);
    }
}

/// Whether every keyboard among `inputs` reports an active layout index.
pub fn all_keyboards_report_layout(inputs: &Vec<InputDevice>) -> (all: bool)
    ensures
        all == keyboards_report_layout(devices(inputs@)),
{
    let mut i: usize = 0;
    while i < inputs.len()
        invariant
            i <= inputs.len(),
            forall|j: int|
                0 <= j < i && (#[trigger] devices(inputs@)[j]).is_keyboard() ==> devices(
                    inputs@,
                )[j].xkb_active_layout_index is Some,
        decreases inputs.len() - i,
    {
        if inputs[i].is_keyboard() && inputs[i].xkb_active_layout_index.is_none() {
            assert(devices(inputs@)[i as int].is_keyboard());
            return false;
        }
        i += 1;
    }
    true
}

/// Records the active layout index of every keyboard among `inputs`.
pub fn snapshot_keyboard_layouts(inputs: &Vec<InputDevice>) -> (map: InputLayoutMap)
    requires
        keyboards_report_layout(devices(inputs@)),
    ensures
        map@ == snapshot(devices(inputs@)),
{
    let mut map = InputLayoutMap::new();
    let mut i: usize = 0;
    assert(devices(inputs@).take(0) =~= Seq::empty());
    while i < inputs.len()
        invariant
            i <= inputs.len(),
            keyboards_report_layout(devices(inputs@)),
            map@ == snapshot(devices(inputs@).take(i as int)),
        decreases inputs.len() - i,
    {
        let input = &inputs[i];
        proof {
            let upto = devices(inputs@).take(i + 1);
            assert(upto.drop_last() =~= devices(inputs@).take(i as int));
            assert(upto.last() == input@);
            assert(devices(inputs@)[i as int] == input@);
        }
        if input.is_keyboard() {
            match input.xkb_active_layout_index {
                Some(index) => {
                    map.insert(input.identifier.clone(), index);
                },
                None => {},
            }
        }
        i += 1;
    }
    assert(devices(inputs@).take(inputs@.len() as int) =~= devices(inputs@));
    map
}

} // verus!
