//! The playback lifecycle as a state machine: `Uninitialized -> Stopped ->
//! Playing <-> Paused`. The machine decides which device request comes next;
//! the caller performs it and reports whether it succeeded.

use vstd::prelude::*;

verus! {

#[derive(Clone, Copy, Debug, PartialEq, Eq, Structural)]
pub enum PlaybackState {
    /// No output stream has been built yet.
    Uninitialized,
    /// A stream exists but has never been started.
    Stopped,
    Playing,
    Paused,
}

/// What the caller asked the engine to do.
#[derive(Clone, Copy, Debug, PartialEq, Eq, Structural)]
pub enum Command {
    Play,
    Pause,
}

/// The device request that a command needs next.
#[derive(Clone, Copy, Debug, PartialEq, Eq, Structural)]
pub enum DeviceAction {
    /// The command is complete; nothing is asked of the device.
    Nothing,
    /// Build the output stream and bind the real-time callback to it.
    BuildStream,
    /// Ask the device to start emitting.
    Start,
    /// Ask the device to suspend emission, keeping buffered samples.
    Suspend,
}

/// The next request for `cmd` in state `s`.
pub open spec fn next_action_spec(s: PlaybackState, cmd: Command) -> DeviceAction {
    match cmd {
        Command::Play => match s {
            PlaybackState::Uninitialized => DeviceAction::BuildStream,
            PlaybackState::Playing => DeviceAction::Nothing,
            _ => DeviceAction::Start,
        },
        Command::Pause => match s {
            PlaybackState::Uninitialized => DeviceAction::Nothing,
            PlaybackState::Paused => DeviceAction::Nothing,
            _ => DeviceAction::Suspend,
        },
    }
}

/// The state after request `a` in state `s` succeeded (`ok`) or failed.
pub open spec fn after_spec(s: PlaybackState, a: DeviceAction, ok: bool) -> PlaybackState {
    if !ok {
        s
    } else {
        match a {
            DeviceAction::Nothing => s,
            DeviceAction::BuildStream => PlaybackState::Stopped,
            DeviceAction::Start => PlaybackState::Playing,
            DeviceAction::Suspend => PlaybackState::Paused,
        }
    }
}

/// The lifecycle of one output session.
#[derive(Debug)]
pub struct PlaybackControl {
    state: PlaybackState,
}

impl PlaybackControl {
    pub closed spec fn view(&self) -> PlaybackState {
        self.state
    }

    /// A session whose stream is not built yet.
    pub fn new() -> (r: Self)
        ensures
            r@ == PlaybackState::Uninitialized,
    {
        PlaybackControl { state: PlaybackState::Uninitialized }
    }

    pub fn state(&self) -> (r: PlaybackState)
        ensures
            r == self@,
    {
        self.state
    }

    /// The device request that `cmd` needs next; `Nothing` once it is complete.
    pub fn next_action(&self, cmd: Command) -> (r: DeviceAction)
        ensures
            r == next_action_spec(self@, cmd),
    {
        match cmd {
            Command::Play => match self.state {
                PlaybackState::Uninitialized => DeviceAction::BuildStream,
                PlaybackState::Playing => DeviceAction::Nothing,
                _ => DeviceAction::Start,
            },
            Command::Pause => match self.state {
                PlaybackState::Uninitialized => DeviceAction::Nothing,
                PlaybackState::Paused => DeviceAction::Nothing,
                _ => DeviceAction::Suspend,
            },
        }
    }

    /// Records the outcome of request `a`: success moves the state on, failure keeps it.
    pub fn complete(&mut self, a: DeviceAction, ok: bool)
        ensures
            final(self)@ == after_spec(old(self)@, a, ok),
    {
        if ok {
            match a {
                DeviceAction::Nothing => {},
                DeviceAction::BuildStream => {
                    self.state = PlaybackState::Stopped;
                },
                DeviceAction::Start => {
                    self.state = PlaybackState::Playing;
                },
                DeviceAction::Suspend => {
                    self.state = PlaybackState::Paused;
                },
            }
        }
    }
}

/// From any state, `Play` completes after at most two successful requests and
/// leaves the session `Playing`; a stream is built first only where none exists.
pub proof fn lemma_play_reaches_playing(s: PlaybackState)
    ensures
        ({
            let a1 = next_action_spec(s, Command::Play);
            let s1 = after_spec(s, a1, true);
            let a2 = next_action_spec(s1, Command::Play);
            let s2 = after_spec(s1, a2, true);
            &&& s2 == PlaybackState::Playing
            &&& next_action_spec(s2, Command::Play) == DeviceAction::Nothing
            &&& (a1 == DeviceAction::BuildStream <==> s == PlaybackState::Uninitialized)
        }),
{
}

/// Without a stream, `Pause` asks nothing of the device and leaves the state as it is.
pub proof fn lemma_pause_without_stream(ok: bool)
    ensures
        next_action_spec(PlaybackState::Uninitialized, Command::Pause) == DeviceAction::Nothing,
        after_spec(PlaybackState::Uninitialized, DeviceAction::Nothing, ok) == PlaybackState::Uninitialized,
{
}

/// A failed request never changes the state.
pub proof fn lemma_failure_keeps_state(s: PlaybackState, a: DeviceAction)
    ensures
        after_spec(s, a, false) == s,
{
}

} // verus!
