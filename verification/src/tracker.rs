//! The focus tracker: which window has focus, and what each window was left with.

use vstd::prelude::*;
use crate::cache::LayoutCache;
use crate::device::{devices, InputDevice, InputDeviceView};
use crate::event::{WindowChange, WindowEvent, WindowEventView};
use crate::fallback::{default_commands, default_layout_commands};
use crate::key::{derive_key, window_key};
use crate::layout_map::{restore_commands, InputLayoutMap};
use crate::snapshot::{keyboards_report_layout, snapshot, snapshot_keyboard_layouts};
use crate::text::{optional_text, same_text, texts};

verus! {

/// The tracker's state as mathematical values.
pub struct LayoutStateView {
    /// The name of the layout given to windows that have no entry.
    pub default_lang: Option<Seq<char>>,
    /// The key of the window that has focus.
    pub prev_id: Option<Seq<char>>,
    /// The layouts recorded for each window key.
    pub state: Map<Seq<char>, Seq<(Seq<char>, i32)>>,
    /// The applications whose windows are keyed by title too.
    pub tabbed: Seq<Seq<char>>,
}

impl LayoutStateView {
    /// The state a new tracker starts in.
    pub open spec fn initial(
        default_lang: Option<Seq<char>>,
        tabbed: Seq<Seq<char>>,
    ) -> LayoutStateView {
        LayoutStateView { default_lang, prev_id: None, state: Map::empty(), tabbed }
    }

    /// The key of the window that `event` is about.
    pub open spec fn key_of(self, event: WindowEventView) -> Seq<char> {
        window_key(event.window_id, event.app_id, event.window_name, self.tabbed)
    }

    /// The cache once the layouts of the window that loses focus are saved:
    /// the snapshot of `inputs` stands under the focused key, if there is one.
    pub open spec fn saved(self, inputs: Seq<InputDeviceView>) -> Map<
        Seq<char>,
        Seq<(Seq<char>, i32)>,
    > {
        match self.prev_id {
            Some(prev) => self.state.insert(prev, snapshot(inputs)),
            None => self.state,
        }
    }

    /// The commands for a window that gets focus, read from the cache as it
    /// stands: what is recorded for `key`, or else the default layout on
    /// every keyboard that has it.
    pub open spec fn arrival_commands(self, key: Seq<char>, inputs: Seq<InputDeviceView>) -> Seq<
        Seq<char>,
    > {
        if self.state.contains_key(key) {
            restore_commands(self.state[key])
        } else {
            match self.default_lang {
                Some(layout) => default_commands(layout, inputs),
                None => Seq::empty(),
            }
        }
    }

    /// The commands issued when focus moves to `key`: the save comes first,
    /// then the cache is read.
    pub open spec fn focus_commands(self, key: Seq<char>, inputs: Seq<InputDeviceView>) -> Seq<
        Seq<char>,
    > {
        LayoutStateView { state: self.saved(inputs), ..self }.arrival_commands(key, inputs)
    }

    /// The state after focus moved to `key`.
    pub open spec fn focus(self, key: Seq<char>, inputs: Seq<InputDeviceView>) -> LayoutStateView {
        LayoutStateView { prev_id: Some(key), state: self.saved(inputs), ..self }
    }

    /// The state after the window `key` closed.
    pub open spec fn close(self, key: Seq<char>) -> LayoutStateView {
        LayoutStateView {
            prev_id: if self.prev_id == Some(key) {
                None
            } else {
                self.prev_id
            },
            state: self.state.remove(key),
            ..self
        }
    }

    /// Whether moving focus takes a snapshot of the keyboards.
    pub open spec fn focus_takes_snapshot(self) -> bool {
        self.prev_id is Some
    }

    /// Whether moving focus to `key` reads the device list at all.
    pub open spec fn focus_reads_devices(self, key: Seq<char>) -> bool {
        self.prev_id is Some || (!self.state.contains_key(key) && self.default_lang is Some)
    }

    /// Whether handling `event` takes a snapshot of the keyboards.
    pub open spec fn takes_snapshot(self, event: WindowEventView) -> bool {
        event.moves_focus() && self.focus_takes_snapshot()
    }

    /// Whether handling `event` reads the device list at all.
    pub open spec fn reads_devices(self, event: WindowEventView) -> bool {
        event.moves_focus() && self.focus_reads_devices(self.key_of(event))
    }

    /// The state after `event`.
    pub open spec fn step(self, event: WindowEventView, inputs: Seq<InputDeviceView>) -> LayoutStateView {
        match event.change {
            WindowChange::Focus | WindowChange::Title => self.focus(self.key_of(event), inputs),
            WindowChange::Close => self.close(self.key_of(event)),
            WindowChange::Other => self,
        }
    }

    /// The commands issued for `event`.
    pub open spec fn step_commands(
        self,
        event: WindowEventView,
        inputs: Seq<InputDeviceView>,
    ) -> Seq<Seq<char>> {
        match event.change {
            WindowChange::Focus | WindowChange::Title => self.focus_commands(
                self.key_of(event),
                inputs,
            ),
            WindowChange::Close => Seq::empty(),
            WindowChange::Other => Seq::empty(),
        }
    }
}

/// Closing a window twice is closing it once: after the first close the
/// cache has no entry for it and it does not have focus.
pub proof fn lemma_close_idempotent(state: LayoutStateView, key: Seq<char>)
    ensures
        state.close(key).close(key) == state.close(key),
        !state.close(key).state.contains_key(key),
        state.close(key).prev_id != Some(key),
        state.prev_id == Some(key) ==> state.close(key).prev_id is None,
        state.prev_id != Some(key) ==> state.close(key).prev_id == state.prev_id,
{
    assert(state.state.remove(key).remove(key) =~= state.state.remove(key));
}

/// Closing a window touches no other window's entry and issues no command.
pub proof fn lemma_close_keeps_others(state: LayoutStateView, key: Seq<char>, other: Seq<char>)
    requires
        other != key,
    ensures
        state.close(key).state.contains_key(other) == state.state.contains_key(other),
        state.state.contains_key(other) ==> state.close(key).state[other] == state.state[other],
        state.close(key).default_lang == state.default_lang,
        state.close(key).tabbed == state.tabbed,
{
}

/// The save comes before the restore: when focus leaves a window, the
/// layouts that the keyboards had stand under that window's key, and the
/// commands for the window that gets focus are read from the cache after that.
pub proof fn lemma_save_precedes_restore(
    state: LayoutStateView,
    prev: Seq<char>,
    key: Seq<char>,
    inputs: Seq<InputDeviceView>,
)
    requires
        state.prev_id == Some(prev),
    ensures
        state.focus(key, inputs).state.contains_key(prev),
        state.focus(key, inputs).state[prev] == snapshot(inputs),
        state.focus(key, inputs).prev_id == Some(key),
        key == prev ==> state.focus_commands(key, inputs) == restore_commands(snapshot(inputs)),
        key != prev && state.state.contains_key(key) ==> state.focus_commands(key, inputs)
            == restore_commands(state.state[key]),
        key != prev && state.state.contains_key(key) ==> state.focus(key, inputs).state[key]
            == state.state[key],
{
}

/// Moving focus writes no entry but that of the window that had focus.
pub proof fn lemma_focus_keeps_others(
    state: LayoutStateView,
    key: Seq<char>,
    inputs: Seq<InputDeviceView>,
    other: Seq<char>,
)
    requires
        state.prev_id != Some(other),
    ensures
        state.focus(key, inputs).state.contains_key(other) == state.state.contains_key(other),
        state.state.contains_key(other) ==> state.focus(key, inputs).state[other]
            == state.state[other],
{
}

/// A window that has no entry and does not have focus gets the default
/// layout: the commands for every keyboard that has a layout of that name,
/// and no command where no default is configured.
pub proof fn lemma_unseen_window_gets_default(
    state: LayoutStateView,
    key: Seq<char>,
    inputs: Seq<InputDeviceView>,
)
    requires
        !state.state.contains_key(key),
        state.prev_id != Some(key),
    ensures
        state.focus_commands(key, inputs) == match state.default_lang {
            Some(layout) => default_commands(layout, inputs),
            None => Seq::empty(),
        },
{
}

/// A window whose key was closed is treated like one never seen: when the
/// key gets focus again, the commands are those of the default layout.
pub proof fn lemma_closed_window_is_unseen(
    state: LayoutStateView,
    key: Seq<char>,
    inputs: Seq<InputDeviceView>,
)
    ensures
        state.close(key).focus_commands(key, inputs) == match state.default_lang {
            Some(layout) => default_commands(layout, inputs),
            None => Seq::empty(),
        },
{
    lemma_close_idempotent(state, key);
    lemma_unseen_window_gets_default(state.close(key), key, inputs);
}

/// Where handling an event does not read the device list, neither the
/// next state nor the commands depend on it.
pub proof fn lemma_unread_devices(
    state: LayoutStateView,
    event: WindowEventView,
    inputs_a: Seq<InputDeviceView>,
    inputs_b: Seq<InputDeviceView>,
)
    requires
        !state.reads_devices(event),
    ensures
        state.step(event, inputs_a) == state.step(event, inputs_b),
        state.step_commands(event, inputs_a) == state.step_commands(event, inputs_b),
{
}

/// The focus tracker.
#[derive(Debug)]
pub struct LayoutState {
    default_lang: Option<String>,
    prev_id: Option<String>,
    state: LayoutCache,
    tabbed: Vec<String>,
}

impl View for LayoutState {
    type V = LayoutStateView;

    closed spec fn view(&self) -> LayoutStateView {
        LayoutStateView {
            default_lang: optional_text(self.default_lang),
            prev_id: optional_text(self.prev_id),
            state: self.state@,
            tabbed: texts(self.tabbed@),
        }
    }
}

impl LayoutState {
    /// A tracker in which no window has focus and nothing is cached.
    pub fn new(default_lang: Option<String>, tabbed: Vec<String>) -> (tracker: Self)
        ensures
            tracker@ == LayoutStateView::initial(optional_text(default_lang), texts(tabbed@)),
    {
        LayoutState { default_lang, prev_id: None, state: LayoutCache::new(), tabbed }
    }

    /// The key of the window that has focus.
    pub fn focused(&self) -> (key: Option<&String>)
        ensures
            match key {
                Some(key) => self@.prev_id == Some(key@),
                None => self@.prev_id is None,
            },
    {
        self.prev_id.as_ref()
    }

    /// The name of the layout given to windows that have no entry.
    pub fn default_lang(&self) -> (layout: Option<&String>)
        ensures
            match layout {
                Some(layout) => self@.default_lang == Some(layout@),
                None => self@.default_lang is None,
            },
    {
        self.default_lang.as_ref()
    }

    /// The applications whose windows are keyed by title too.
    pub fn tabbed(&self) -> (apps: &Vec<String>)
        ensures
            texts(apps@) == self@.tabbed,
    {
        &self.tabbed
    }

    /// The layouts recorded for `key`.
    pub fn cached(&self, key: &str) -> (layouts: Option<&InputLayoutMap>)
        ensures
            match layouts {
                Some(map) => self@.state.contains_key(key@) && map@ == self@.state[key@],
                None => !self@.state.contains_key(key@),
            },
    {
        self.state.get(key)
    }

    /// The cache key of the window that `event` is about.
    pub fn make_map_key(&self, event: &WindowEvent) -> (key: String)
        ensures
            key@ == self@.key_of(event@),
    {
        derive_key(event.window_id, &event.app_id, &event.window_name, &self.tabbed)
    }

    /// Whether moving focus takes a snapshot of the keyboards.
    pub fn focus_takes_snapshot(&self) -> (taken: bool)
        ensures
            taken == self@.focus_takes_snapshot(),
    {
        self.prev_id.is_some()
    }

    /// Whether moving focus to `key` reads the device list at all.
    pub fn focus_reads_devices(&self, key: &str) -> (read: bool)
        ensures
            read == self@.focus_reads_devices(key@),
    {
        self.prev_id.is_some() || (!self.state.contains_key(key) && self.default_lang.is_some())
    }

    /// Whether handling `event` takes a snapshot of the keyboards.
    pub fn takes_snapshot(&self, event: &WindowEvent) -> (taken: bool)
        ensures
            taken == self@.takes_snapshot(event@),
    {
        match event.change {
            WindowChange::Focus | WindowChange::Title => self.focus_takes_snapshot(),
            _ => false,
        }
    }

    /// Whether handling `event` reads the device list at all.
    pub fn reads_devices(&self, event: &WindowEvent) -> (read: bool)
        ensures
            read == self@.reads_devices(event@),
    {
        match event.change {
            WindowChange::Focus | WindowChange::Title => {
                let key = self.make_map_key(event);
                self.focus_reads_devices(key.as_str())
            },
            _ => false,
        }
    }

    /// The commands for the window `key` that gets focus: the layouts
    /// recorded for it, or else the default layout on every keyboard that
    /// has it.
    pub fn restore_or_default(&self, key: &str, inputs: &Vec<InputDevice>) -> (commands: Vec<
        String,
    >)
        ensures
            texts(commands@) == self@.arrival_commands(key@, devices(inputs@)),
    {
        match self.state.get(key) {
            Some(layouts) => layouts.switch_commands(),
            None => {
                match &self.default_lang {
                    Some(layout) => default_layout_commands(layout.as_str(), inputs),
                    None => {
                        let commands: Vec<String> = Vec::new();
                        assert(texts(commands@) =~= Seq::<Seq<char>>::empty());
                        commands
                    },
                }
            },
        }
    }

    /// Moves focus to the window `key`.
    ///
    /// The layouts in `inputs` are saved for the window that had focus, then
    /// the commands for `key` are worked out, then `key` has focus. `inputs`
    /// is the device list as it stood before any of the commands is sent.
    pub fn on_focus(&mut self, key: &str, inputs: &Vec<InputDevice>) -> (commands: Vec<String>)
        requires
            old(self)@.focus_takes_snapshot() ==> keyboards_report_layout(devices(inputs@)),
        ensures
            final(self)@ == old(self)@.focus(key@, devices(inputs@)),
            texts(commands@) == old(self)@.focus_commands(key@, devices(inputs@)),
    {
        match &self.prev_id {
            Some(prev) => {
                let layouts = snapshot_keyboard_layouts(inputs);
                self.state.insert(prev.clone(), layouts);
            },
            None => {},
        }
        let commands = self.restore_or_default(key, inputs);
        self.prev_id = Some(String::from_str(key));
        commands
    }

    /// Forgets the window `key`: its entry leaves the cache, and no window
    /// has focus any more if it had.
    pub fn on_close(&mut self, key: &str)
        ensures
            final(self)@ == old(self)@.close(key@),
    {
        self.state.remove(key);
        let had_focus = match &self.prev_id {
            Some(prev) => same_text(prev.as_str(), key),
            None => false,
        };
        if had_focus {
            self.prev_id = None;
        }
    }

    /// Handles one window notification and returns the commands to send.
    pub fn handle_event(&mut self, event: &WindowEvent, inputs: &Vec<InputDevice>) -> (commands:
        Vec<String>)
        requires
            old(self)@.takes_snapshot(event@) ==> keyboards_report_layout(devices(inputs@)),
        ensures
            final(self)@ == old(self)@.step(event@, devices(inputs@)),
            texts(commands@) == old(self)@.step_commands(event@, devices(inputs@)),
    {
        match event.change {
            WindowChange::Focus | WindowChange::Title => {
                let key = self.make_map_key(event);
                self.on_focus(key.as_str(), inputs)
            },
            WindowChange::Close => {
                let key = self.make_map_key(event);
                self.on_close(key.as_str());
                let commands: Vec<String> = Vec::new();
                assert(texts(commands@) =~= Seq::<Seq<char>>::empty());
                commands
            },
            WindowChange::Other => {
                let commands: Vec<String> = Vec::new();
                assert(texts(commands@) =~= Seq::<Seq<char>>::empty());
                commands
            },
        }
    }
}

} // verus!
