//! The restore prompt: the states it passes through while a saved session
//! is loaded, offered, restored or declined, and its reaction to keys. The
//! caller draws it, performs the loading and the restoring it asks for, and
//! reports how they went.
use vstd::prelude::*;
use crate::text::{concat, owned};
use crate::tui::Key;

verus! {

/// Where the prompt stands.
#[derive(Clone, Copy, Debug, PartialEq, Eq, Structural)]
pub enum AppState {
    Loading,
    ShowSession,
    Restoring,
    Complete,
    Cancelled,
}

/// What the caller does after a key press.
#[derive(Clone, Copy, Debug, PartialEq, Eq, Structural)]
pub enum RestoreAction {
    /// Keep reading keys.
    Continue,
    /// Restore `session`, then report the outcome with `restore_finished`.
    Restore,
    /// Close the prompt.
    Exit,
}

/// The state of the restore prompt, over the type `S` of a saved session.
pub struct App<S> {
    pub state: AppState,
    pub session: Option<S>,
    /// Whether "restore" (rather than "start fresh") is chosen.
    pub selected: bool,
    /// How far the restoring has got, in percent.
    pub progress: u32,
    pub status_message: String,
    pub error_message: Option<String>,
}

/// `post` is `pre` with the state `state` and the status line `status`, all
/// else unchanged.
pub open spec fn moved<S>(pre: App<S>, post: App<S>, state: AppState, status: Seq<char>) -> bool {
    &&& post.state == state
    &&& post.status_message@ == status
    &&& post.session == pre.session
    &&& post.selected == pre.selected
    &&& post.progress == pre.progress
    &&& post.error_message == pre.error_message
}

/// `post` is `pre` after the choice was confirmed: restoring when
/// "restore" was chosen, cancelled otherwise; unchanged when no session is
/// on offer.
pub open spec fn confirmed<S>(pre: App<S>, post: App<S>) -> bool {
    if pre.state == AppState::ShowSession {
        if pre.selected {
            moved(pre, post, AppState::Restoring, "Restoring session..."@)
        } else {
            moved(pre, post, AppState::Cancelled, "Session restore cancelled"@)
        }
    } else {
        post == pre
    }
}

/// `post` is `pre` with its state set to `state` and nothing else changed.
pub open spec fn only_state<S>(pre: App<S>, post: App<S>, state: AppState) -> bool {
    &&& post.state == state
    &&& post.status_message == pre.status_message
    &&& post.session == pre.session
    &&& post.selected == pre.selected
    &&& post.progress == pre.progress
    &&& post.error_message == pre.error_message
}

/// `post` is `pre` with the choice flipped when a session is on offer.
pub open spec fn toggled<S>(pre: App<S>, post: App<S>) -> bool {
    &&& post.selected == (if pre.state == AppState::ShowSession {
        !pre.selected
    } else {
        pre.selected
    })
    &&& post.state == pre.state
    &&& post.status_message == pre.status_message
    &&& post.session == pre.session
    &&& post.progress == pre.progress
    &&& post.error_message == pre.error_message
}

/// `post` is `pre` after the error `e` was reported.
pub open spec fn errored<S>(pre: App<S>, post: App<S>, e: Seq<char>) -> bool {
    &&& post.error_message matches Some(m) && m@ == e
    &&& post.state == AppState::Complete
    &&& post.status_message@ == "Error loading session. Starting fresh."@
    &&& post.session == pre.session
    &&& post.selected == pre.selected
    &&& post.progress == pre.progress
}

/// `post` is `pre` after the progress `p` was reported.
pub open spec fn progressed<S>(pre: App<S>, post: App<S>, p: u32) -> bool {
    &&& post.progress == p
    &&& if p >= 100 {
        &&& post.state == AppState::Complete
        &&& post.status_message@ == "Session restored successfully!"@
    } else {
        &&& post.state == pre.state
        &&& post.status_message == pre.status_message
    }
    &&& post.session == pre.session
    &&& post.selected == pre.selected
    &&& post.error_message == pre.error_message
}

/// Whether a key confirms the current choice.
pub open spec fn confirms(key: Key) -> bool {
    key == Key::Enter || key == Key::Char(' ')
}

/// Whether a key leaves the prompt.
pub open spec fn leaves(key: Key) -> bool {
    key == Key::Char('q') || key == Key::Esc
}

/// What the caller is asked to do once a choice was confirmed: restore the
/// offered session, if there is one.
pub open spec fn after_confirm<S>(post: App<S>) -> RestoreAction {
    if post.state == AppState::Restoring && post.session.is_some() {
        RestoreAction::Restore
    } else {
        RestoreAction::Continue
    }
}

/// What a key does while a session is on offer, and what the caller is
/// asked to do next.
pub open spec fn offer_key_effect<S>(pre: App<S>, post: App<S>, key: Key, r: RestoreAction) -> bool {
    if leaves(key) {
        r == RestoreAction::Exit && only_state(pre, post, AppState::Cancelled)
    } else if key == Key::Up || key == Key::Down || key == Key::Tab {
        r == RestoreAction::Continue && toggled(pre, post)
    } else if confirms(key) {
        &&& confirmed(pre, post)
        &&& r == if pre.selected {
            after_confirm(post)
        } else {
            RestoreAction::Exit
        }
    } else if key == Key::Char('y') || key == Key::Char('Y') {
        &&& post.selected
        &&& post.state == AppState::Restoring
        &&& post.status_message@ == "Restoring session..."@
        &&& post.session == pre.session
        &&& post.progress == pre.progress
        &&& post.error_message == pre.error_message
        &&& r == after_confirm(post)
    } else if key == Key::Char('n') || key == Key::Char('N') {
        &&& !post.selected
        &&& post.state == AppState::Cancelled
        &&& post.status_message@ == "Session restore cancelled"@
        &&& post.session == pre.session
        &&& post.progress == pre.progress
        &&& post.error_message == pre.error_message
        &&& r == RestoreAction::Exit
    } else {
        r == RestoreAction::Continue && post == pre
    }
}

/// What a key does in each state of the prompt, and what the caller is
/// asked to do next.
pub open spec fn key_handled<S>(pre: App<S>, post: App<S>, key: Key, r: RestoreAction) -> bool {
    match pre.state {
        AppState::ShowSession => offer_key_effect(pre, post, key, r),
        AppState::Loading | AppState::Restoring => if leaves(key) {
            r == RestoreAction::Exit && only_state(pre, post, AppState::Cancelled)
        } else {
            r == RestoreAction::Continue && post == pre
        },
        AppState::Complete | AppState::Cancelled => r == RestoreAction::Exit && post == pre,
    }
}

impl<S> App<S> {
    /// The prompt while the saved session is being loaded.
    pub fn new() -> (r: App<S>)
        ensures
            r.state == AppState::Loading,
            r.session.is_none(),
            r.selected,
            r.progress == 0,
            r.status_message@ == "Loading previous session..."@,
            r.error_message.is_none(),
    {
        App {
            state: AppState::Loading,
            session: None,
            selected: true,
            progress: 0,
            status_message: owned("Loading previous session..."),
            error_message: None,
        }
    }

    /// Flips the choice between restoring and starting fresh, while a
    /// session is on offer.
    pub fn toggle_selection(&mut self)
        ensures
            toggled(*old(self), *final(self)),
    {
        if self.state == AppState::ShowSession {
            self.selected = !self.selected;
        }
    }

    /// Confirms the choice; `true` when the session is to be restored.
    pub fn confirm_selection(&mut self) -> (r: bool)
        ensures
            confirmed(*old(self), *final(self)),
            r == (old(self).state == AppState::ShowSession && old(self).selected),
    {
        match self.state {
            AppState::ShowSession => {
                if self.selected {
                    self.state = AppState::Restoring;
                    self.status_message = owned("Restoring session...");
                    true
                } else {
                    self.state = AppState::Cancelled;
                    self.status_message = owned("Session restore cancelled");
                    false
                }
            },
            _ => false,
        }
    }

    /// Offers the loaded session.
    pub fn set_session(&mut self, session: S)
        ensures
            final(self).session == Some(session),
            final(self).state == AppState::ShowSession,
            final(self).status_message@ == "Previous session found. Do you want to restore it?"@,
            final(self).selected == old(self).selected,
            final(self).progress == old(self).progress,
            final(self).error_message == old(self).error_message,
    {
        self.session = Some(session);
        self.state = AppState::ShowSession;
        self.status_message = owned("Previous session found. Do you want to restore it?");
    }

    /// Reports that there is no saved session.
    pub fn set_no_session(&mut self)
        ensures
            moved(
                *old(self),
                *final(self),
                AppState::Complete,
                "No previous session found. Starting fresh."@,
            ),
    {
        self.state = AppState::Complete;
        self.status_message = owned("No previous session found. Starting fresh.");
    }

    /// Reports an error; the prompt is then complete.
    pub fn set_error(&mut self, error: String)
        ensures
            errored(*old(self), *final(self), error@),
    {
        self.error_message = Some(error);
        self.state = AppState::Complete;
        self.status_message = owned("Error loading session. Starting fresh.");
    }

    /// Records the progress of the restoring; at 100 percent the prompt is
    /// complete.
    pub fn update_progress(&mut self, progress: u32)
        ensures
            progressed(*old(self), *final(self), progress),
    {
        self.progress = progress;
        if progress >= 100 {
            self.state = AppState::Complete;
            self.status_message = owned("Session restored successfully!");
        }
    }

    /// Whether the prompt has nothing more to ask: it closes.
    pub fn is_finished(&self) -> (r: bool)
        ensures
            r == (self.state == AppState::Complete || self.state == AppState::Cancelled),
    {
        match self.state {
            AppState::Complete | AppState::Cancelled => true,
            _ => false,
        }
    }

    /// Records how loading the saved session went.
    pub fn load_finished(&mut self, outcome: Result<Option<S>, String>)
        ensures
            match outcome {
                Ok(Some(s)) => {
                    &&& final(self).session == Some(s)
                    &&& final(self).state == AppState::ShowSession
                    &&& final(self).status_message@
                        == "Previous session found. Do you want to restore it?"@
                    &&& final(self).selected == old(self).selected
                    &&& final(self).progress == old(self).progress
                    &&& final(self).error_message == old(self).error_message
                },
                Ok(None) => moved(
                    *old(self),
                    *final(self),
                    AppState::Complete,
                    "No previous session found. Starting fresh."@,
                ),
                Err(e) => errored(*old(self), *final(self), "Failed to load session: "@ + e@),
            },
    {
        match outcome {
            Ok(Some(s)) => self.set_session(s),
            Ok(None) => self.set_no_session(),
            Err(e) => self.set_error(concat("Failed to load session: ", e.as_str())),
        }
    }

    /// Records how restoring the session went.
    pub fn restore_finished(&mut self, outcome: Result<(), String>)
        ensures
            match outcome {
                Ok(()) => progressed(*old(self), *final(self), 100),
                Err(e) => errored(*old(self), *final(self), "Restore failed: "@ + e@),
            },
    {
        match outcome {
            Ok(()) => self.update_progress(100),
            Err(e) => self.set_error(concat("Restore failed: ", e.as_str())),
        }
    }

    /// Reacts to a key press. While a session is on offer the arrows and
    /// Tab flip the choice, Enter or space confirm it, `y` and `n` choose
    /// and confirm, and `q` or Escape cancel; while loading or restoring,
    /// `q` or Escape cancel; once complete or cancelled any key closes.
    pub fn handle_key(&mut self, key: Key) -> (r: RestoreAction)
        ensures
            key_handled(*old(self), *final(self), key, r),
    {
        match self.state {
            AppState::ShowSession => {
                match key {
                    Key::Char('q') | Key::Esc => {
                        self.state = AppState::Cancelled;
                        RestoreAction::Exit
                    },
                    Key::Up | Key::Down | Key::Tab => {
                        self.toggle_selection();
                        RestoreAction::Continue
                    },
                    Key::Enter | Key::Char(' ') => {
                        let should_restore = self.confirm_selection();
                        if should_restore {
                            if self.session.is_some() {
                                RestoreAction::Restore
                            } else {
                                RestoreAction::Continue
                            }
                        } else {
                            RestoreAction::Exit
                        }
                    },
                    Key::Char('y') | Key::Char('Y') => {
                        self.selected = true;
                        let should_restore = self.confirm_selection();
                        if should_restore && self.session.is_some() {
                            RestoreAction::Restore
                        } else {
                            RestoreAction::Continue
                        }
                    },
                    Key::Char('n') | Key::Char('N') => {
                        self.selected = false;
                        self.confirm_selection();
                        RestoreAction::Exit
                    },
                    _ => RestoreAction::Continue,
                }
            },
            AppState::Loading | AppState::Restoring => {
                match key {
                    Key::Char('q') | Key::Esc => {
                        self.state = AppState::Cancelled;
                        RestoreAction::Exit
                    },
                    _ => RestoreAction::Continue,
                }
            },
            _ => RestoreAction::Exit,
        }
    }
}

/// Flipping the choice twice leaves the prompt as it was.
pub proof fn lemma_toggle_twice<S>(a: App<S>, b: App<S>, c: App<S>)
    requires
        toggled(a, b),
        toggled(b, c),
    ensures
        c == a,
{
}

/// The prompt asks for the session to be restored only when a session was
/// on offer, "restore" is chosen, and the prompt has moved on to restoring
/// it.
pub proof fn lemma_restores_only_when_chosen<S>(a: App<S>, b: App<S>, key: Key, r: RestoreAction)
    requires
        key_handled(a, b, key, r),
        r == RestoreAction::Restore,
    ensures
        a.state == AppState::ShowSession,
        b.state == AppState::Restoring,
        b.selected,
        b.session.is_some(),
        b.session == a.session,
{
}

} // verus!
