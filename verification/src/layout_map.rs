//! The layout every keyboard was set to at one moment.

use vstd::prelude::*;
use crate::command::{switch_command, switch_to_index};
use crate::text::{same_text, texts};

verus! {

/// Whether `entries` holds a layout index for `device`.
pub open spec fn records(entries: Seq<(Seq<char>, i32)>, device: Seq<char>) -> bool {
    exists|i: int| 0 <= i < entries.len() && (#[trigger] entries[i]).0 == device
}

/// A position at which `entries` holds `device`.
pub open spec fn slot_of(entries: Seq<(Seq<char>, i32)>, device: Seq<char>) -> int {
    choose|i: int| 0 <= i < entries.len() && (#[trigger] entries[i]).0 == device
}

/// The layout index that `entries` holds for `device`, if any.
pub open spec fn recorded(entries: Seq<(Seq<char>, i32)>, device: Seq<char>) -> Option<i32> {
    if records(entries, device) {
        Some(entries[slot_of(entries, device)].1)
    } else {
        None
    }
}

/// No device occurs twice in `entries`.
pub open spec fn distinct_devices(entries: Seq<(Seq<char>, i32)>) -> bool {
    forall|i: int, j: int|
        0 <= i < j < entries.len() ==> (#[trigger] entries[i]).0 != (#[trigger] entries[j]).0
}

/// `entries` after `device` was set to `index`: a device already held keeps
/// its place and gets the new index, a new device goes to the end.
pub open spec fn record(entries: Seq<(Seq<char>, i32)>, device: Seq<char>, index: i32) -> Seq<
    (Seq<char>, i32),
> {
    if records(entries, device) {
        entries.update(slot_of(entries, device), (device, index))
    } else {
        entries.push((device, index))
    }
}

/// The commands that put every device of `entries` back to its index, in the
/// order of `entries`.
pub open spec fn restore_commands(entries: Seq<(Seq<char>, i32)>) -> Seq<Seq<char>> {
    Seq::new(entries.len(), |i: int| switch_command(entries[i].0, entries[i].1 as int))
}

/// Recording keeps the devices distinct.
pub proof fn lemma_record_distinct(entries: Seq<(Seq<char>, i32)>, device: Seq<char>, index: i32)
    requires
        distinct_devices(entries),
    ensures
        distinct_devices(record(entries, device, index)),
{
    let after = record(entries, device, index);
    if records(entries, device) {
        let k = slot_of(entries, device);
        assert forall|i: int, j: int| 0 <= i < j < after.len() implies (#[trigger] after[i]).0 != (
        #[trigger] after[j]).0 by {
            assert(after[i].0 == entries[i].0);
            assert(after[j].0 == entries[j].0);
        }
    } else {
        assert forall|i: int, j: int| 0 <= i < j < after.len() implies (#[trigger] after[i]).0 != (
        #[trigger] after[j]).0 by {
            if j < entries.len() {
                assert(after[i] == entries[i]);
                assert(after[j] == entries[j]);
            } else {
                assert(after[i] == entries[i]);
            }
        }
    }
}

/// After recording, `device` has `index` and every other device has what it had.
pub proof fn lemma_record_recorded(
    entries: Seq<(Seq<char>, i32)>,
    device: Seq<char>,
    index: i32,
    other: Seq<char>,
)
    requires
        distinct_devices(entries),
    ensures
        recorded(record(entries, device, index), other) == if other == device {
            Some(index)
        } else {
            recorded(entries, other)
        },
{
    let after = record(entries, device, index);
    lemma_record_distinct(entries, device, index);
    let place = if records(entries, device) {
        slot_of(entries, device)
    } else {
        entries.len() as int
    };
    assert(after[place] == (device, index));
    assert(forall|i: int| 0 <= i < entries.len() && i != place ==> after[i] == entries[i]);
    if other == device {
        assert(records(after, other));
        let s = slot_of(after, other);
        if s != place {
            if s < place {
                assert(after[s].0 != after[place].0);
            } else {
                assert(after[place].0 != after[s].0);
            }
        }
    } else if records(entries, other) {
        let k = slot_of(entries, other);
        assert(after[k] == entries[k]);
        assert(records(after, other));
        let s = slot_of(after, other);
        assert(s != place);
        assert(after[s] == entries[s]);
        if s != k {
            if s < k {
                assert(entries[s].0 != entries[k].0);
            } else {
                assert(entries[k].0 != entries[s].0);
            }
        }
    } else {
        if records(after, other) {
            let s = slot_of(after, other);
            assert(s != place);
            assert(after[s] == entries[s]);
            assert(records(entries, other));
        }
    }
}

/// A record of the layout index of each keyboard, by device identifier.
///
/// Devices are kept in the order in which they were first inserted, and each
/// occurs once.
#[derive(Debug)]
pub struct InputLayoutMap {
    entries: Vec<(String, i32)>,
}

impl View for InputLayoutMap {
    type V = Seq<(Seq<char>, i32)>;

    closed spec fn view(&self) -> Seq<(Seq<char>, i32)> {
        held(self.entries@)
    }
}

spec fn held(entries: Seq<(String, i32)>) -> Seq<(Seq<char>, i32)> {
    Seq::new(entries.len(), |i: int| (entries[i].0@, entries[i].1))
}

impl InputLayoutMap {
    #[verifier::type_invariant]
    spec fn devices_occur_once(&self) -> bool {
        distinct_devices(self@)
    }

    /// A record that holds no device.
    pub fn new() -> (map: Self)
        ensures
            map@ == Seq::<(Seq<char>, i32)>::empty(),
    {
        let map = InputLayoutMap { entries: Vec::new() };
        assert(map@ =~= Seq::<(Seq<char>, i32)>::empty());
        map
    }

    /// The number of devices held.
    pub fn len(&self) -> (n: usize)
        ensures
            n == self@.len(),
            distinct_devices(self@),
    {
        proof {
            use_type_invariant(self);
        }
        self.entries.len()
    }

    /// Sets `device` to `index`, replacing the index it had.
    pub fn insert(&mut self, device: String, index: i32)
        ensures
            final(self)@ == record(old(self)@, device@, index),
            distinct_devices(final(self)@),
    {
        proof {
            use_type_invariant(&*self);
            lemma_record_distinct(self@, device@, index);
        }
        let ghost before = self@;
        let mut entries: Vec<(String, i32)> = Vec::new();
        std::mem::swap(&mut entries, &mut self.entries);
        let mut i: usize = 0;
        while i < entries.len()
            invariant
                i <= entries.len(),
                before == old(self)@,
                before == held(entries@),
                self.entries@.len() == 0,
                forall|j: int| 0 <= j < i ==> (#[trigger] before[j]).0 != device@,
                distinct_devices(before),
                distinct_devices(record(before, device@, index)),
            decreases entries.len() - i,
        {
            if same_text(entries[i].0.as_str(), device.as_str()) {
                assert(before[i as int].0 == device@);
                proof {
                    let s = slot_of(before, device@);
                    if s < i {
                        assert(before[s].0 != before[i as int].0);
                    } else if s > i {
                        assert(before[i as int].0 != before[s].0);
                    }
                }
                entries.set(i, (device, index));
                assert(held(entries@) =~= record(before, device@, index));
                self.entries = entries;
                return ;
            }
            i += 1;
        }
        assert(!records(before, device@));
        entries.push((device, index));
        assert(held(entries@) =~= record(before, device@, index));
        self.entries = entries;
    }

    /// The layout index held for `device`.
    pub fn get(&self, device: &str) -> (index: Option<i32>)
        ensures
            index == recorded(self@, device@),
    {
        proof {
            use_type_invariant(self);
        }
        let mut i: usize = 0;
        while i < self.entries.len()
            invariant
                i <= self.entries.len(),
                forall|j: int| 0 <= j < i ==> (#[trigger] self@[j]).0 != device@,
                distinct_devices(self@),
            decreases self.entries.len() - i,
        {
            if same_text(self.entries[i].0.as_str(), device) {
                assert(self@[i as int].0 == device@);
                proof {
                    let s = slot_of(self@, device@);
                    if s < i {
                        assert(self@[s].0 != self@[i as int].0);
                    } else if s > i {
                        assert(self@[i as int].0 != self@[s].0);
                    }
                }
                return Some(self.entries[i].1);
            }
            i += 1;
        }
        None
    }

    /// The devices held with their indices, in order.
    pub fn entries(&self) -> (list: Vec<(String, i32)>)
        ensures
            list@.len() == self@.len(),
            forall|i: int| 0 <= i < list@.len() ==> (list@[i].0@, list@[i].1) == self@[i],
            distinct_devices(self@),
    {
        proof {
            use_type_invariant(self);
        }
        let mut list: Vec<(String, i32)> = Vec::new();
        let mut i: usize = 0;
        while i < self.entries.len()
            invariant
                i <= self.entries.len(),
                list@.len() == i,
                forall|j: int| 0 <= j < i ==> (list@[j].0@, list@[j].1) == self@[j],
            decreases self.entries.len() - i,
        {
            list.push((self.entries[i].0.clone(), self.entries[i].1));
            i += 1;
        }
        list
    }

    /// The commands that put every device held back to its index.
    pub fn switch_commands(&self) -> (commands: Vec<String>)
        ensures
            texts(commands@) == restore_commands(self@),
    {
        let mut commands: Vec<String> = Vec::new();
        let mut i: usize = 0;
        while i < self.entries.len()
            invariant
                i <= self.entries.len(),
                commands@.len() == i,
                forall|j: int| 0 <= j < i ==> commands@[j]@ == restore_commands(self@)[j],
            decreases self.entries.len() - i,
        {
            let command = switch_to_index(self.entries[i].0.as_str(), self.entries[i].1);
            commands.push(command);
            i += 1;
        }
        assert(texts(commands@) =~= restore_commands(self@));
        commands
    }
}

} // verus!
