//! Input devices as the window manager reports them.

use vstd::prelude::*;
use crate::text::{same_text, texts};

verus! {

/// One input device of the session.
#[derive(Debug)]
pub struct InputDevice {
    /// The identifier by which commands address the device.
    pub identifier: String,
    /// The kind of device; keyboards have `keyboard`.
    pub input_type: String,
    /// The position of the active layout in `xkb_layout_names`.
    pub xkb_active_layout_index: Option<i32>,
    /// The names of the layouts configured for the device, in order.
    pub xkb_layout_names: Vec<String>,
}

/// What an [`InputDevice`] holds, as mathematical values.
pub struct InputDeviceView {
    pub identifier: Seq<char>,
    pub input_type: Seq<char>,
    pub xkb_active_layout_index: Option<i32>,
    pub xkb_layout_names: Seq<Seq<char>>,
}

impl InputDeviceView {
    /// Whether the device is of keyboard type.
    pub open spec fn is_keyboard(self) -> bool {
        self.input_type == "keyboard"@
    }
}

impl View for InputDevice {
    type V = InputDeviceView;

    open spec fn view(&self) -> InputDeviceView {
        InputDeviceView {
            identifier: self.identifier@,
            input_type: self.input_type@,
            xkb_active_layout_index: self.xkb_active_layout_index,
            xkb_layout_names: texts(self.xkb_layout_names@),
        }
    }
}

/// The views of a list of devices.
pub open spec fn devices(inputs: Seq<InputDevice>) -> Seq<InputDeviceView> {
    Seq::new(inputs.len(), |i: int| inputs[i]@)
}

impl InputDevice {
    /// Whether the device is of keyboard type.
    pub fn is_keyboard(&self) -> (keyboard: bool)
        ensures
            keyboard == self@.is_keyboard(),
    {
        same_text(self.input_type.as_str(), "keyboard")
    }
}

} // verus!
