//! Record mode: while it is armed, a press of a registered hotkey goes to
//! the recorder in place of setting off its action.

use crate::models::action::Action;
use crate::models::hotkey::Hotkey;
use crate::services::hotkey::binder::{routed, triage, Delivery, KeyState, Target};
use vstd::prelude::*;

verus! {

/// The record mode switch: the handler that takes the next press of a
/// registered hotkey, where one is armed. `H` is the handler.
pub struct RecordRegistered<H> {
    handler: Option<H>,
}

impl<H> View for RecordRegistered<H> {
    type V = Option<H>;

    closed spec fn view(&self) -> Option<H> {
        self.handler
    }
}

impl<H> RecordRegistered<H> {
    /// A switch that is not armed.
    pub fn new() -> (r: RecordRegistered<H>)
        ensures
            r@ is None,
    {
        RecordRegistered { handler: None }
    }

    /// Arms the switch with this handler, or disarms it with none. A handler
    /// that was armed before is dropped.
    pub fn set(&mut self, callback: Option<H>)
        ensures
            final(self)@ == callback,
    {
        self.handler = callback;
    }

    /// Arms the switch with this handler.
    pub fn arm(&mut self, handler: H)
        ensures
            final(self)@ == Some(handler),
    {
        self.handler = Some(handler);
    }

    /// Disarms the switch.
    pub fn disarm(&mut self)
        ensures
            final(self)@ is None,
    {
        self.handler = None;
    }

    /// The handler that is armed, where one is.
    pub fn get(&self) -> (r: Option<&H>)
        ensures
            match r {
                Some(handler) => self@ == Some(*handler),
                None => self@ is None,
            },
    {
        self.handler.as_ref()
    }

    /// Whether the switch is armed.
    pub fn is_armed(&self) -> (r: bool)
        ensures
            r == self@ is Some,
    {
        self.handler.is_some()
    }

    /// Decides where an event of a registered hotkey goes, as the switch
    /// stands now.
    pub fn route(&self, state: KeyState, hotkey: Hotkey, action: Action) -> (r: Delivery)
        ensures
            r.target() == routed(state, self@ is Some, hotkey@, action),
    {
        triage(state, self.is_armed(), hotkey, action)
    }
}

/// While the switch is armed, a press of a registered hotkey goes to the
/// recorder and not to the dispatcher; once it is disarmed, the press sets
/// off the action again.
pub proof fn lemma_record_mode_redirects<H>(
    switch: RecordRegistered<H>,
    handler: H,
    hotkey: u32,
    action: Action,
)
    ensures
        switch@ == Some(handler) ==> routed(KeyState::Pressed, switch@ is Some, hotkey, action)
            == Target::Recorder(hotkey),
        switch@ is None ==> routed(KeyState::Pressed, switch@ is Some, hotkey, action)
            == Target::Dispatcher(action),
{
}

} // verus!
