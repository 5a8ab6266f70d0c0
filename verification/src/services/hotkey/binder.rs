//! The binder: the system's registry of global shortcuts, as the core sees it,
//! and the rule by which a key press is handed on.

use crate::models::action::Action;
use crate::models::hotkey::Hotkey;
use crate::services::hotkey::registry::Registry;
use vstd::prelude::*;

verus! {

/// Why the system did not register a shortcut.
#[derive(Clone, Copy, Debug, PartialEq, Eq, Structural)]
pub enum BinderError {
    /// The shortcut is registered already, by this process or by another.
    AlreadyRegistered,
    /// The system refused for another reason.
    PlatformRefused,
}

/// The system's registry of global shortcuts. What a call does there, and
/// whether a registration succeeds, is the system's to say: the methods
/// promise nothing, and the core states of its own functions which calls
/// they made.
pub trait HotkeyBinder {
    /// Registers `hotkey`, so that pressing it sets off `action`.
    fn bind_hotkey(&mut self, hotkey: Hotkey, action: &Action) -> Result<(), BinderError>;

    /// Takes the registration of `hotkey` back, where there is one.
    fn unbind_hotkey(&mut self, hotkey: Hotkey);
}

/// Whether a binder that holds the hotkeys of `held` takes a request to
/// register `hotkey`: it refuses a hotkey that it holds already, and takes
/// any other.
pub fn may_bind(held: &Registry, hotkey: Hotkey) -> (r: Result<(), BinderError>)
    ensures
        r == if held@.dom().contains(hotkey@) {
            Err::<(), BinderError>(BinderError::AlreadyRegistered)
        } else {
            Ok::<(), BinderError>(())
        },
{
    match held.group_of(hotkey.id()) {
        Some(_) => Err(BinderError::AlreadyRegistered),
        None => Ok(()),
    }
}

/// What a recording binder was asked, the hotkey given by its id.
#[derive(Clone, Copy, Debug, PartialEq, Eq, Structural)]
pub enum BinderEvent {
    /// To register this hotkey for this action.
    Register(u32, Action),
    /// To take the registration of this hotkey back.
    Unregister(u32),
}

/// A binder that registers nothing with any system: it takes every request
/// and keeps a record of what it was asked, the oldest first. Its view is
/// that record.
#[derive(Debug)]
pub struct RecordingBinder {
    events: Vec<BinderEvent>,
}

impl View for RecordingBinder {
    type V = Seq<BinderEvent>;

    closed spec fn view(&self) -> Seq<BinderEvent> {
        self.events@
    }
}

impl RecordingBinder {
    /// A binder that was asked nothing yet.
    pub fn new() -> (r: RecordingBinder)
        ensures
            r@ == Seq::<BinderEvent>::empty(),
    {
        RecordingBinder { events: Vec::new() }
    }

    /// What the binder was asked, the oldest first.
    pub fn events(&self) -> (r: &Vec<BinderEvent>)
        ensures
            r@ == self@,
    {
        &self.events
    }
}

impl HotkeyBinder for RecordingBinder {
    fn bind_hotkey(&mut self, hotkey: Hotkey, action: &Action) -> (r: Result<(), BinderError>)
        ensures
            r is Ok,
            final(self)@ == old(self)@.push(BinderEvent::Register(hotkey@, *action)),
    {
        self.events.push(BinderEvent::Register(hotkey.id(), *action));
        Ok(())
    }

    fn unbind_hotkey(&mut self, hotkey: Hotkey)
        ensures
            final(self)@ == old(self)@.push(BinderEvent::Unregister(hotkey@)),
    {
        self.events.push(BinderEvent::Unregister(hotkey.id()));
    }
}

/// What happened to a key.
#[derive(Clone, Copy, Debug, PartialEq, Eq, Structural)]
pub enum KeyState {
    /// The key went down.
    Pressed,
    /// The key came up.
    Released,
}

/// Where an event of a registered hotkey goes.
#[derive(Clone, Copy, Debug)]
pub enum Delivery {
    /// To the recorder, which is told the hotkey.
    Record(Hotkey),
    /// To the dispatcher, which carries out the action.
    Dispatch(Action),
    /// Nowhere.
    Ignore,
}

/// Where an event of the registered hotkey with this id goes: a press goes to
/// the recorder while record mode is armed and sets off the action otherwise;
/// nothing else goes anywhere.
pub open spec fn routed(state: KeyState, armed: bool, hotkey: u32, action: Action) -> Target {
    match state {
        KeyState::Pressed => if armed {
            Target::Recorder(hotkey)
        } else {
            Target::Dispatcher(action)
        },
        KeyState::Released => Target::Nobody,
    }
}

/// Where an event goes, the hotkey given by its id.
#[derive(Clone, Copy, Debug, PartialEq, Eq, Structural)]
pub enum Target {
    /// The recorder, told the hotkey with this id.
    Recorder(u32),
    /// The dispatcher, handed this action.
    Dispatcher(Action),
    /// Nobody.
    Nobody,
}

impl Delivery {
    /// The delivery with its hotkey given by its id.
    pub open spec fn target(self) -> Target {
        match self {
            Delivery::Record(hotkey) => Target::Recorder(hotkey@),
            Delivery::Dispatch(action) => Target::Dispatcher(action),
            Delivery::Ignore => Target::Nobody,
        }
    }
}

/// Decides where an event of a registered hotkey goes. `armed` says whether
/// record mode is armed at the time of the event.
pub fn triage(state: KeyState, armed: bool, hotkey: Hotkey, action: Action) -> (r: Delivery)
    ensures
        r.target() == routed(state, armed, hotkey@, action),
{
    match state {
        KeyState::Pressed => if armed {
            Delivery::Record(hotkey)
        } else {
            Delivery::Dispatch(action)
        },
        KeyState::Released => Delivery::Ignore,
    }
}

} // verus!
