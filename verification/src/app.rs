//! The loop controller: the one component that mutates the application state
//! in response to user actions. Each iteration of the (external) render loop
//! hands it one input event; it resolves the key against the active registry
//! and either mutates state directly, asks for a command to be queued, or
//! ends the loop. The async worker's completion rule lives here too.

use vstd::prelude::*;
use crate::actions::{Action, Actions, spec_find, lemma_canonical_no_conflict,
    lemma_singleton_no_conflict};
use crate::inputs::Key;
use crate::io::IoEvent;
use crate::state::{AppState, Token};

verus! {

/// Whether the loop goes on after an event was dispatched.
#[derive(Debug, Clone, Copy, PartialEq, Eq, Structural)]
pub enum AppReturn {
    /// The quit action fired: the control state is terminal.
    Exit,
    /// Every other outcome: render again and take the next event.
    Continue,
}

/// What the async worker reports into the shared state when a command it
/// consumed has finished.
#[derive(Debug, Clone)]
pub enum CommandOutcome {
    /// The initialize command's warm-up is done.
    Initialized,
    /// A sleep command slept its full duration.
    Slept,
    /// The auth collaborator's exchange succeeded with this token.
    LoggedIn(Token),
    /// The auth collaborator failed; the failure is only logged.
    LoginFailed,
}

/// The engine's shared state: the active key bindings, the phase-scoped
/// application state, and the loading flag shown while a command is pending.
pub struct App {
    pub actions: Actions,
    pub state: AppState,
    pub is_loading: bool,
}

impl App {
    /// A fresh controller: uninitialized state, nothing loading, and only
    /// the quit action bound until initialization completes.
    pub fn new() -> (r: Self)
        ensures
            r.actions@ == seq![Action::Quit],
            r.actions.wf(),
            r.state is Init,
            !r.is_loading,
    {
        let list = vec![Action::Quit];
        proof {
            assert(list@ =~= seq![Action::Quit]);
            lemma_singleton_no_conflict(Action::Quit);
        }
        App { actions: Actions(list), state: AppState::new(), is_loading: false }
    }

    /// Marks the loading flag the instant a command is handed over for
    /// queueing, and passes the command through to the (external) sender.
    pub fn dispatch(&mut self, action: IoEvent) -> (r: IoEvent)
        ensures
            final(self).is_loading,
            final(self).state == old(self).state,
            final(self).actions == old(self).actions,
            r == action,
    {
        self.is_loading = true;
        action
    }

    /// The send failed because the worker is gone: the loading flag is
    /// cleared and the loop keeps running without that side effect.
    pub fn dispatch_failed(&mut self)
        ensures
            !final(self).is_loading,
            final(self).state == old(self).state,
            final(self).actions == old(self).actions,
    {
        self.is_loading = false;
    }

    /// Resolves a key press against the active bindings and performs the
    /// action's effect: quit ends the loop; the delay adjusters mutate state
    /// directly; sleep asks for a command to be queued (returned to the
    /// caller for sending) when a delay is defined; an unbound key, or a
    /// sleep outside the initialized phase, changes nothing.
    pub fn do_action(&mut self, key: Key) -> (r: (AppReturn, Option<IoEvent>))
        ensures
            final(self).actions == old(self).actions,
            match spec_find(old(self).actions@, key) {
                Option::None => final(self).state == old(self).state
                    && final(self).is_loading == old(self).is_loading
                    && r == (AppReturn::Continue, Option::<IoEvent>::None),
                Option::Some(action) => match action {
                    Action::Quit => final(self).state == old(self).state
                        && final(self).is_loading == old(self).is_loading
                        && r == (AppReturn::Exit, Option::<IoEvent>::None),
                    Action::Sleep => match old(self).state {
                        AppState::Initialized { duration, .. } => {
                            &&& final(self).state == old(self).state
                            &&& final(self).is_loading
                            &&& r == (AppReturn::Continue, Some(IoEvent::Sleep(duration)))
                        },
                        _ => final(self).state == old(self).state
                            && final(self).is_loading == old(self).is_loading
                            && r == (AppReturn::Continue, Option::<IoEvent>::None),
                    },
                    Action::IncrementDelay => final(self).state
                        == old(self).state.spec_increment_delay()
                        && final(self).is_loading == old(self).is_loading
                        && r == (AppReturn::Continue, Option::<IoEvent>::None),
                    Action::DecrementDelay => final(self).state
                        == old(self).state.spec_decrement_delay()
                        && final(self).is_loading == old(self).is_loading
                        && r == (AppReturn::Continue, Option::<IoEvent>::None),
                },
            },
    {
        let found = self.actions.find(key);
        match found {
            Some(action) => match action {
                Action::Quit => (AppReturn::Exit, None),
                Action::Sleep => match self.state.duration() {
                    Some(duration) => {
                        let cmd = self.dispatch(IoEvent::Sleep(duration));
                        (AppReturn::Continue, Some(cmd))
                    }
                    None => (AppReturn::Continue, None),
                },
                Action::IncrementDelay => {
                    self.state.increment_delay();
                    (AppReturn::Continue, None)
                }
                Action::DecrementDelay => {
                    self.state.decrement_delay();
                    (AppReturn::Continue, None)
                }
            },
            None => (AppReturn::Continue, None),
        }
    }

    /// A timer tick: count it (a no-op before initialization) and go on.
    pub fn update_on_tick(&mut self) -> (r: AppReturn)
        ensures
            final(self).state == old(self).state.spec_incr_tick(),
            final(self).actions == old(self).actions,
            final(self).is_loading == old(self).is_loading,
            r == AppReturn::Continue,
    {
        self.state.incr_tick();
        AppReturn::Continue
    }

    /// The active bindings.
    pub fn actions(&self) -> (r: &Actions)
        ensures
            *r == self.actions,
    {
        &self.actions
    }

    /// The application state, read-only, for rendering.
    pub fn state(&self) -> (r: &AppState)
        ensures
            *r == self.state,
    {
        &self.state
    }

    /// Whether a command is pending with the worker (UI feedback only).
    pub fn is_loading(&self) -> (r: bool)
        ensures
            r == self.is_loading,
    {
        self.is_loading
    }

    /// Completes initialization: the full action set becomes active (the one
    /// registry swap of a run) and the state enters the initialized phase.
    pub fn initialized(&mut self)
        ensures
            final(self).actions@ == Action::spec_all(),
            final(self).actions.wf(),
            final(self).state == AppState::spec_initialized(),
            final(self).is_loading == old(self).is_loading,
    {
        proof {
            lemma_canonical_no_conflict();
        }
        self.actions = Actions(Action::iterator());
        self.state = AppState::initialized();
    }

    /// The worker finished a command: the loading flag goes down.
    pub fn loaded(&mut self)
        ensures
            !final(self).is_loading,
            final(self).state == old(self).state,
            final(self).actions == old(self).actions,
    {
        self.is_loading = false;
    }

    /// A sleep command completed: count it (a no-op before initialization).
    pub fn slept(&mut self)
        ensures
            final(self).state == old(self).state.spec_incr_sleep(),
            final(self).actions == old(self).actions,
            final(self).is_loading == old(self).is_loading,
    {
        self.state.incr_sleep();
    }

    /// The worker's completion rule, applied once per consumed command:
    /// reflect the command's outcome into the state, then clear the loading
    /// flag unconditionally — also when the command failed, in which case
    /// the state is left unchanged.
    pub fn complete_command(&mut self, outcome: CommandOutcome)
        ensures
            !final(self).is_loading,
            match outcome {
                CommandOutcome::Initialized => final(self).actions@ == Action::spec_all()
                    && final(self).actions.wf()
                    && final(self).state == AppState::spec_initialized(),
                CommandOutcome::Slept => final(self).state == old(self).state.spec_incr_sleep()
                    && final(self).actions == old(self).actions,
                CommandOutcome::LoggedIn(token) => final(self).state
                    == old(self).state.spec_set_token(token)
                    && final(self).actions == old(self).actions,
                CommandOutcome::LoginFailed => final(self).state == old(self).state
                    && final(self).actions == old(self).actions,
            },
    {
        match outcome {
            CommandOutcome::Initialized => self.initialized(),
            CommandOutcome::Slept => self.slept(),
            CommandOutcome::LoggedIn(token) => self.state.set_token(token),
            CommandOutcome::LoginFailed => {}
        }
        self.loaded();
    }
}

} // verus!
