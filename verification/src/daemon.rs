//! The decisions the daemon takes while it starts: how long it waits for
//! Hyprland, whether it offers to restore the saved session, how long it
//! waits for the restore prompt, and where the prompt's launch script is.
//! The caller sleeps, polls and spawns as these decisions say.
use vstd::prelude::*;
use crate::text::{concat, owned};

verus! {

/// How many times the daemon tries again to reach Hyprland, a second apart.
pub const CONNECT_RETRIES: u32 = 30;

/// How many one-second waits the daemon allows the restore prompt.
pub const PROMPT_WAIT_LIMIT: u32 = 300;

/// What to do after an attempt to reach Hyprland.
#[derive(Clone, Copy, Debug, PartialEq, Eq, Structural)]
pub enum ConnectStep {
    /// Hyprland answered: run the session manager.
    Run,
    /// Wait a second and try again, with this many retries left.
    Retry(u32),
    /// Give up with the last error.
    GiveUp,
}

/// The next step after an attempt to reach Hyprland, with `retries_left`
/// retries left before it.
pub fn connect_step(retries_left: u32, connected: bool) -> (r: ConnectStep)
    ensures
        r == (if connected {
            ConnectStep::Run
        } else if retries_left > 0 {
            ConnectStep::Retry((retries_left - 1) as u32)
        } else {
            ConnectStep::GiveUp
        }),
{
    if connected {
        ConnectStep::Run
    } else if retries_left > 0 {
        ConnectStep::Retry(retries_left - 1)
    } else {
        ConnectStep::GiveUp
    }
}

/// Whether the daemon offers to restore the saved session on start.
pub fn should_offer_restore(auto_restore: bool, session_found: bool) -> (r: bool)
    ensures
        r == (auto_restore && session_found),
{
    auto_restore && session_found
}

/// What to do after one second of waiting for the restore prompt.
#[derive(Clone, Copy, Debug, PartialEq, Eq, Structural)]
pub enum PromptWait {
    /// The prompt has closed: start tracking the session.
    Closed,
    /// The prompt took too long: start tracking the session anyway.
    TimedOut,
    /// Wait another second, having waited this many seconds.
    Waiting(u32),
}

/// The next step after the `waited`-th wait for the restore prompt, given
/// whether the prompt's process was found still running
/// (`None` when looking for the process failed).
pub fn prompt_wait_step(waited: u32, prompt_running: Option<bool>) -> (r: PromptWait)
    ensures
        r == (if prompt_running == Some(false) {
            PromptWait::Closed
        } else if waited + 1 > PROMPT_WAIT_LIMIT {
            PromptWait::TimedOut
        } else {
            PromptWait::Waiting((waited + 1) as u32)
        }),
{
    match prompt_running {
        Some(false) => PromptWait::Closed,
        _ => if waited >= PROMPT_WAIT_LIMIT {
            PromptWait::TimedOut
        } else {
            PromptWait::Waiting(waited + 1)
        },
    }
}

/// The launch script of the restore prompt: under the home directory when
/// it is known, else in `/tmp`.
pub open spec fn script_path(home: Option<Seq<char>>) -> Seq<char> {
    match home {
        Some(h) => h + "/.local/share/hyprsechy/bin/launch-restore-tui.sh"@,
        None => "/tmp/launch-restore-tui.sh"@,
    }
}

/// Where the launch script of the restore prompt is, given the home
/// directory.
pub fn restore_script_path(home: Option<&str>) -> (r: String)
    ensures
        r@ == script_path(
            match home {
                Some(h) => Some(h@),
                None => None,
            },
        ),
{
    match home {
        Some(h) => concat(h, "/.local/share/hyprsechy/bin/launch-restore-tui.sh"),
        None => owned("/tmp/launch-restore-tui.sh"),
    }
}

} // verus!
