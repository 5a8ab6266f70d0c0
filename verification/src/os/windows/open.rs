//! Launching on Windows.

use crate::open::OpenAppError;
use crate::os::interface::OpenInterface;
use crate::os::macos::App;
use vstd::prelude::*;

verus! {

/// The Windows launcher, which takes every request and reports success.
#[derive(Clone, Copy, Debug)]
pub struct Launcher;

impl Default for Launcher {
    fn default() -> (r: Launcher) {
        Launcher
    }
}

impl OpenInterface for Launcher {
    fn open(&self, app: &App) -> (r: Result<(), OpenAppError>)
        ensures
            r is Ok,
    {
        Ok(())
    }
}

} // verus!
