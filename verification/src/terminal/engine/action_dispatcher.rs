//! Hands each user action to the current state.
use vstd::prelude::*;
use crate::apps::AppKey;
use crate::commands::CommandRegistry;
use crate::random::{RandomSource, next_state};
use crate::terminal::emulator::EmulatorView;
use crate::terminal::engine::Action;
use crate::terminal::engine::state_machine::{
    MachineView, StateMachine, machine_command, machine_key, machine_tick,
};
use crate::terminal::engine::states::{
    State, StateContext, StateTransition, TransitionView, quiet_update,
};
use crate::terminal::model::{EntryKind, ScreenView};
use crate::terminal::session::{SessionView, TerminalSession};
use crate::text::{lemma_trim_head, trim, trim_str};

verus! {

/// The session once the command line `input` is recorded.
pub open spec fn recorded_session(s: SessionView, input: Seq<char>) -> SessionView {
    SessionView {
        history: s.history.push((EntryKind::Command, input)),
        screen: EmulatorView {
            primary: s.screen.primary.push(ScreenView::Command(input)),
            ..s.screen
        },
        ..s
    }
}

/// How an action moves the state from `m` to `m2`, the session from `s` to
/// `s2` and the generator from `r` to `r2`, and which transition it asks
/// for. A command line is trimmed; a blank one, or one typed while the
/// prompt is disabled, is ignored. Any other is recorded, and handled with
/// a fresh draw from the generator as the seed of an app it may start.
pub open spec fn dispatched(
    m: MachineView,
    s: SessionView,
    r: u64,
    action: Action,
    m2: MachineView,
    s2: SessionView,
    r2: u64,
    t: TransitionView,
) -> bool {
    match action {
        Action::SubmitCommand(raw) => {
            let input = trim(raw@);
            if !m.prompt_enabled() || input.len() == 0 {
                m2 == m && s2 == s && r2 == r && t == TransitionView::Stay(quiet_update())
            } else {
                &&& s2 == recorded_session(s, input)
                &&& r2 == next_state(r)
                &&& machine_command(m, s.fs, input, r2, m2, t)
            }
        },
        Action::HandleKey(key) => s2 == s && r2 == r && machine_key(m, key, m2, t),
        Action::Tick => s2 == s && r2 == r && machine_tick(m, m2, t),
    }
}

/// Routes actions to the state machine.
pub struct ActionDispatcher;

impl ActionDispatcher {
    pub fn new() -> (d: Self) {
        ActionDispatcher
    }

    /// Hands `action` to the current state and returns the transition it
    /// asks for; `rng` seeds any app a command starts.
    pub fn dispatch(
        &self,
        action: Action,
        state_machine: &mut StateMachine,
        session: &mut TerminalSession,
        rng: &mut RandomSource,
    ) -> (t: StateTransition)
        requires
            old(state_machine).model().wf(),
            old(session)@.valid(),
        ensures
            dispatched(
                old(state_machine).model(),
                old(session)@,
                old(rng).state(),
                action,
                final(state_machine).model(),
                final(session)@,
                final(rng).state(),
                t@,
            ),
            final(session)@.valid(),
            final(state_machine).model().wf() || t@ is Exit,
            t@ matches TransitionView::Change(a, _) ==> a.wf(),
            !(t@ is Change) || action is SubmitCommand,
    {
        match action {
            Action::SubmitCommand(raw) => self.dispatch_command(raw, state_machine, session, rng),
            Action::HandleKey(key) => state_machine.state_mut().handle_key(key),
            Action::Tick => state_machine.state_mut().tick(),
        }
    }

    fn dispatch_command(
        &self,
        raw: String,
        state_machine: &mut StateMachine,
        session: &mut TerminalSession,
        rng: &mut RandomSource,
    ) -> (t: StateTransition)
        requires
            old(state_machine).model().wf(),
            old(session)@.valid(),
        ensures
            dispatched(
                old(state_machine).model(),
                old(session)@,
                old(rng).state(),
                Action::SubmitCommand(raw),
                final(state_machine).model(),
                final(session)@,
                final(rng).state(),
                t@,
            ),
            final(session)@.valid(),
            final(state_machine).model().wf() || t@ is Exit,
            t@ matches TransitionView::Change(a, _) ==> a.wf(),
    {
        let trimmed = trim_str(raw.as_str());
        if !state_machine.prompt_enabled() || trimmed.as_str().unicode_len() == 0 {
            return StateTransition::stay();
        }
        session.record_command(trimmed.as_str());
        let seed = rng.next_u64();
        let registry = CommandRegistry::new(session.terminal_fs());
        let context = StateContext::new(&registry, seed);
        proof {
            lemma_trim_head(raw@);
        }
        state_machine.state_mut().handle_command(trimmed.as_str(), &context)
    }
}

} // verus!
