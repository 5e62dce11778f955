//! Window notifications as the tracker reads them.

use vstd::prelude::*;
use crate::text::optional_text;

verus! {

/// What happened to a window.
#[derive(Debug, Clone, Copy, PartialEq, Eq, Structural)]
pub enum WindowChange {
    /// The window gained input focus.
    Focus,
    /// The window's title changed.
    Title,
    /// The window was closed.
    Close,
    /// Any other change.
    Other,
}

/// One notification about one window.
#[derive(Debug)]
pub struct WindowEvent {
    /// The kind of change.
    pub change: WindowChange,
    /// The id the window manager gave the window.
    pub window_id: i64,
    /// The identifier of the application that owns the window.
    pub app_id: Option<String>,
    /// The window's current title.
    pub window_name: Option<String>,
}

/// What a [`WindowEvent`] holds, as mathematical values.
pub struct WindowEventView {
    pub change: WindowChange,
    pub window_id: int,
    pub app_id: Option<Seq<char>>,
    pub window_name: Option<Seq<char>>,
}

impl View for WindowEvent {
    type V = WindowEventView;

    open spec fn view(&self) -> WindowEventView {
        WindowEventView {
            change: self.change,
            window_id: self.window_id as int,
            app_id: optional_text(self.app_id),
            window_name: optional_text(self.window_name),
        }
    }
}

impl WindowEventView {
    /// Whether the event moves focus to its window: a focus gain or a
    /// title change.
    pub open spec fn moves_focus(self) -> bool {
        self.change == WindowChange::Focus || self.change == WindowChange::Title
    }
}

} // verus!
