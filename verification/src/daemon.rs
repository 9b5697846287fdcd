//! The signal daemon's rule: which signals make the process quit, and which
//! are ignored when it runs detached from a terminal.

use vstd::prelude::*;

verus! {

/// What can wake the daemon.
#[derive(Clone, Copy, Debug, PartialEq, Eq, Structural)]
pub enum DaemonSignal {
    /// The controlling terminal went away.
    Hangup,
    /// An interrupt from the keyboard.
    Interrupt,
    /// A quit from the keyboard.
    Quit,
    /// A request to terminate.
    Terminate,
    /// Somebody else in the process asked for it to quit.
    QuitRequested,
}

/// What the daemon does about a signal.
#[derive(Clone, Copy, Debug, PartialEq, Eq, Structural)]
pub enum DaemonAction {
    /// Keep listening.
    Ignore,
    /// Ask the rest of the process to quit, then stop listening.
    RequestQuit,
    /// Stop listening; the process is quitting already.
    Stop,
}

/// The daemon that turns signals into a request to quit.
#[derive(Clone, Copy, Debug, PartialEq, Eq, Structural)]
pub struct Daemon {
    headless: bool,
}

impl Default for Daemon {
    /// A daemon that is attached to a terminal.
    fn default() -> (daemon: Daemon)
        ensures
            !daemon.headless_spec(),
    {
        Daemon { headless: false }
    }
}

impl Daemon {
    /// Whether the daemon runs detached from a terminal.
    pub closed spec fn headless_spec(&self) -> bool {
        self.headless
    }

    /// What the daemon does about a signal. A hangup is ignored by a
    /// headless daemon; every other signal from outside makes the process
    /// quit.
    pub open spec fn reaction(&self, signal: DaemonSignal) -> DaemonAction {
        match signal {
            DaemonSignal::Hangup => if self.headless_spec() {
                DaemonAction::Ignore
            } else {
                DaemonAction::RequestQuit
            },
            DaemonSignal::Interrupt => DaemonAction::RequestQuit,
            DaemonSignal::Quit => DaemonAction::RequestQuit,
            DaemonSignal::Terminate => DaemonAction::RequestQuit,
            DaemonSignal::QuitRequested => DaemonAction::Stop,
        }
    }

    pub fn new(headless: bool) -> (daemon: Self)
        ensures
            daemon.headless_spec() == headless,
    {
        Daemon { headless }
    }

    #[verifier::when_used_as_spec(headless_spec)]
    pub fn headless(&self) -> (headless: bool)
        ensures
            headless == self.headless_spec(),
    {
        self.headless
    }

    /// Decides what to do about a signal that arrived.
    pub fn on_signal(&self, signal: DaemonSignal) -> (action: DaemonAction)
        ensures
            action == self.reaction(signal),
    {
        match signal {
            DaemonSignal::Hangup => {
                if self.headless {
                    DaemonAction::Ignore
                } else {
                    DaemonAction::RequestQuit
                }
            },
            DaemonSignal::QuitRequested => DaemonAction::Stop,
            _ => DaemonAction::RequestQuit,
        }
    }
}

} // verus!
