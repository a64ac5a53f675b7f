//! No-op system integration: a stand-in used where the host platform
//! offers no tray, notifications, or service installation.  Every
//! operation succeeds and does nothing.
use vstd::prelude::*;

use crate::errors::Error;

verus! {

/// A message for the user, shown outside the chat.
pub struct Notification {
    pub title: String,
    pub message: String,
}

impl Notification {
    pub fn new(title: String, message: String) -> (r: Notification)
        ensures
            r.title == title,
            r.message == message,
    {
        Notification { title, message }
    }
}

/// The no-op system handle.
#[derive(Clone, Copy)]
pub struct System;

impl System {
    /// Clear any displayed state; nothing is displayed, so nothing happens.
    pub fn clear(&self) {
    }

    /// Report an error to the user; dropped.
    pub fn error(&self, _error: String) {
    }

    /// Show a notification; dropped.
    pub fn notification(&self, _n: Notification) {
    }

    /// The no-op system is always running.
    pub fn is_running(&self) -> (r: bool)
        ensures
            r,
    {
        true
    }

    /// Wait for the system to finish; it already has.
    pub fn join(&self) -> (r: Result<(), Error>)
        ensures
            r is Ok,
    {
        Ok(())
    }

    /// The no-op system counts as installed.
    pub fn is_installed(&self) -> (r: Result<bool, Error>)
        ensures
            r == Result::<bool, Error>::Ok(true),
    {
        Ok(true)
    }

    /// Install the system integration; nothing to do.
    pub fn install(&self) -> (r: Result<(), Error>)
        ensures
            r is Ok,
    {
        Ok(())
    }

    /// Remove the system integration; nothing to do.
    pub fn uninstall(&self) -> (r: Result<(), Error>)
        ensures
            r is Ok,
    {
        Ok(())
    }
}

/// Set up the no-op system integration; the root and log locations are
/// accepted and ignored.
pub fn setup(_root: &str, _log_file: &str) -> (r: Result<System, Error>)
    ensures
        r is Ok,
{
    Ok(System)
}

} // verus!
