//! The hotkey picker: it records the next key combination as the hotkey
//! picked, and says what the button shows.

use crate::models::group::hotkey_id_of;
use crate::models::hotkey::{
    code_name, hotkey_id, hotkey_text, names_modifier, normalized, Hotkey, KeyCode, Modifiers,
};
use crate::os::interface::ModifierFormatInterface;
use crate::os::macos::modifiers::ModifierFormat;
use vstd::prelude::*;
use vstd::string::StringExecFns;

verus! {

/// What the picker is told.
#[derive(Clone, Copy, Debug)]
pub enum Message {
    /// The button was pressed: record the next key combination.
    StartRecording,
    /// This key combination was pressed.
    KeyPress(Hotkey),
}

/// A picker as a value: whether it is recording, and the id of the hotkey
/// picked, where one is.
pub struct PickerView {
    pub recording: bool,
    pub picked: Option<u32>,
}

/// The hotkey picker.
#[derive(Clone, Copy, Debug)]
pub struct HotkeyPicker {
    recording: bool,
    picked: Option<Hotkey>,
}

impl View for HotkeyPicker {
    type V = PickerView;

    closed spec fn view(&self) -> PickerView {
        PickerView { recording: self.recording, picked: hotkey_id_of(self.picked) }
    }
}

/// The picker after a key combination was pressed while it was recording:
/// Escape picks nothing, any other key picks the combination.
pub open spec fn recorded(hotkey: u32, key_name: Seq<char>) -> PickerView {
    PickerView {
        recording: false,
        picked: if key_name == "Escape"@ {
            None
        } else {
            Some(hotkey)
        },
    }
}

impl HotkeyPicker {
    /// The text of the hotkey picked, as macOS writes it.
    pub closed spec fn picked_text(&self) -> Seq<char> {
        match self.picked {
            Some(hotkey) => hotkey_text(
                ModifierFormat::labels(),
                hotkey.mods_spec(),
                code_name(hotkey.key_spec()),
            ),
            None => "None"@,
        }
    }

    /// What the button shows.
    pub open spec fn label_text(&self) -> Seq<char> {
        if self@.recording {
            "Recording..."@
        } else {
            self.picked_text()
        }
    }

    /// A picker that shows this hotkey and is not recording.
    pub fn new(picked: Option<Hotkey>) -> (r: HotkeyPicker)
        ensures
            r@ == (PickerView { recording: false, picked: hotkey_id_of(picked) }),
    {
        HotkeyPicker { recording: false, picked }
    }

    /// Whether the picker is recording. Record mode is to be armed exactly
    /// while it is.
    pub fn recording(&self) -> (r: bool)
        ensures
            r == self@.recording,
    {
        self.recording
    }

    /// The hotkey picked, where one is.
    pub fn picked(&self) -> (r: Option<Hotkey>)
        ensures
            hotkey_id_of(r) == self@.picked,
    {
        self.picked
    }

    /// Starts recording.
    pub fn start_recording(&mut self)
        ensures
            final(self)@ == (PickerView { recording: true, picked: old(self)@.picked }),
    {
        self.recording = true;
    }

    /// Takes a press of a hotkey that is registered already, which record
    /// mode handed over: recording ends, and that hotkey is picked.
    pub fn record_registered(&mut self, hotkey: Hotkey)
        ensures
            final(self)@ == (PickerView { recording: false, picked: Some(hotkey@) }),
    {
        self.recording = false;
        self.picked = Some(hotkey);
    }

    /// Takes a key that went down while the button had the focus. While the
    /// picker is not recording, and for a key that is itself a modifier,
    /// nothing happens. Else recording ends: Escape picks nothing, any other
    /// key picks the combination of the modifiers held and the key.
    pub fn record_unregistered(&mut self, modifiers: Modifiers, code: KeyCode)
        ensures
            final(self)@ == if !old(self)@.recording || names_modifier(code_name(code@)) {
                old(self)@
            } else {
                recorded(hotkey_id(normalized(modifiers@), code@), code_name(code@))
            },
    {
        if !self.recording || code.is_modifier() {
            return ;
        }
        self.recording = false;
        self.picked = if code.is_escape() {
            None
        } else {
            Some(Hotkey::new(modifiers, code))
        };
    }

    /// Takes a message. A request to record starts recording. A key
    /// combination counts only while the picker is recording: it ends the
    /// recording, and Escape picks nothing while any other key picks the
    /// combination. Says whether the hotkey picked is to be bound now.
    pub fn update(&mut self, message: Message) -> (bind: bool)
        ensures
            final(self)@ == match message {
                Message::StartRecording => PickerView {
                    recording: true,
                    picked: old(self)@.picked,
                },
                Message::KeyPress(hotkey) => if old(self)@.recording {
                    recorded(hotkey@, code_name(hotkey.key_spec()))
                } else {
                    old(self)@
                },
            },
            bind == (message is KeyPress && old(self)@.recording && final(self)@.picked is Some),
    {
        match message {
            Message::StartRecording => {
                self.recording = true;
                false
            },
            Message::KeyPress(hotkey) => {
                if self.recording {
                    self.recording = false;
                    if hotkey.key().is_escape() {
                        self.picked = None;
                        return false;
                    }
                    self.picked = Some(hotkey);
                    true
                } else {
                    false
                }
            },
        }
    }

    /// What the button shows: that the picker is recording, or the hotkey
    /// picked, or `None`.
    pub fn label(&self) -> (r: String)
        ensures
            r@ == self.label_text(),
    {
        if self.recording {
            String::from_str("Recording...")
        } else {
            match self.picked {
                None => String::from_str("None"),
                Some(key) => key.to_string(),
            }
        }
    }

    /// The colour of what the button shows: gray for `None`, black else.
    pub fn label_color(&self) -> (r: &'static str)
        ensures
            r@ == if self.label_text() == "None"@ {
                "gray"@
            } else {
                "black"@
            },
    {
        if self.label() == String::from_str("None") {
            "gray"
        } else {
            "black"
        }
    }
}

} // verus!
