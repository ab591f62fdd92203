//! The state the terminal is in, and how a transition moves it and updates
//! the session.
use vstd::prelude::*;
use crate::apps::{AppKey, AppLine, AppMode, SegmentView, app_lines_view};
use crate::terminal::bootstrap::{initial_history, initial_history_view};
use crate::terminal::emulator::EmulatorView;
use crate::terminal::engine::states::{
    AppState, AppStateView, ShellState, State, StateContext, StateTransition, StateUpdate,
    TransitionView, UpdateView, quiet_update,
};
use crate::terminal::engine::states::app_state::{app_command, app_key, app_tick};
use crate::terminal::engine::states::shell_state::shell_command;
use crate::terminal::model::{EntryView, app_screen, history_screen};
use crate::terminal::session::{SessionView, TerminalSession, output_entries};
use crate::terminal_fs::FsView;
use crate::text::{is_ws, strings_view};

verus! {

/// The state the terminal is in: the shell, or a running app.
pub enum MachineState {
    Shell(ShellState),
    App(AppState),
}

pub enum MachineView {
    Shell,
    App(AppStateView),
}

impl MachineState {
    /// The state as plain values.
    pub open spec fn model(&self) -> MachineView {
        match self {
            MachineState::Shell(_) => MachineView::Shell,
            MachineState::App(a) => MachineView::App(a.model()),
        }
    }
}

impl MachineView {
    pub open spec fn wf(self) -> bool {
        match self {
            MachineView::Shell => true,
            MachineView::App(a) => a.wf(),
        }
    }

    /// The prompt takes input in the shell and in an interactive app.
    pub open spec fn prompt_enabled(self) -> bool {
        match self {
            MachineView::Shell => true,
            MachineView::App(a) => a.mode == AppMode::Interactive,
        }
    }

    /// A realtime app takes the keyboard and the alternate screen.
    pub open spec fn captures_keyboard(self) -> bool {
        match self {
            MachineView::Shell => false,
            MachineView::App(a) => a.mode == AppMode::Realtime,
        }
    }

    /// What the state draws.
    pub open spec fn drawn(self) -> Seq<Seq<SegmentView>> {
        match self {
            MachineView::Shell => Seq::empty(),
            MachineView::App(a) => a.drawn(),
        }
    }
}

/// A command line handled in state `m` with the tree `fs`; `seed` seeds
/// the app it may start.
pub open spec fn machine_command(
    m: MachineView,
    fs: FsView,
    input: Seq<char>,
    seed: u64,
    m2: MachineView,
    t: TransitionView,
) -> bool {
    match m {
        MachineView::Shell => m2 == MachineView::Shell && shell_command(fs, input, seed, t),
        MachineView::App(a) => m2 matches MachineView::App(b) && app_command(a, input, b, t),
    }
}

/// A key handled in state `m`; the shell ignores keys.
pub open spec fn machine_key(m: MachineView, key: AppKey, m2: MachineView, t: TransitionView) -> bool {
    match m {
        MachineView::Shell => m2 == m && t == TransitionView::Stay(quiet_update()),
        MachineView::App(a) => m2 matches MachineView::App(b) && app_key(a, key, b, t),
    }
}

/// A clock tick in state `m`; the shell ignores it.
pub open spec fn machine_tick(m: MachineView, m2: MachineView, t: TransitionView) -> bool {
    match m {
        MachineView::Shell => m2 == m && t == TransitionView::Stay(quiet_update()),
        MachineView::App(a) => m2 matches MachineView::App(b) && app_tick(a, b, t),
    }
}

/// The history after an update: started over if it asks so, then its lines.
pub open spec fn updated_history(h: Seq<EntryView>, u: UpdateView) -> Seq<EntryView> {
    (if u.reset_terminal {
        initial_history_view()
    } else {
        h
    }) + output_entries(u.lines)
}

/// The pending effects after an update.
pub open spec fn updated_effects(e: Seq<Seq<char>>, u: UpdateView) -> Seq<Seq<char>> {
    (if u.reset_terminal {
        Seq::empty()
    } else {
        e
    }) + u.effects
}

/// The state after a transition from `m`.
pub open spec fn next_machine(m: MachineView, t: TransitionView) -> MachineView {
    match t {
        TransitionView::Stay(_) => m,
        TransitionView::Change(a, _) => MachineView::App(a.entered()),
        TransitionView::Exit(_) => MachineView::Shell,
    }
}

/// The history after a transition: the update, then the lines an entered
/// app opens with.
pub open spec fn applied_history(h: Seq<EntryView>, t: TransitionView) -> Seq<EntryView> {
    match t {
        TransitionView::Change(a, u) => updated_history(h, u) + output_entries(a.entry_lines()),
        _ => updated_history(h, t.update()),
    }
}

/// The screens that show history `h` in state `m`.
pub open spec fn synced_screen(h: Seq<EntryView>, m: MachineView) -> EmulatorView {
    EmulatorView {
        primary: history_screen(h),
        alternate: if m.captures_keyboard() {
            app_screen(m.drawn())
        } else {
            Seq::empty()
        },
        alternate_active: m.captures_keyboard(),
    }
}

/// The session after a transition out of state `m`.
pub open spec fn applied_session(s: SessionView, m: MachineView, t: TransitionView) -> SessionView {
    SessionView {
        fs: s.fs,
        history: applied_history(s.history, t),
        effects: updated_effects(s.effects, t.update()),
        screen: synced_screen(applied_history(s.history, t), next_machine(m, t)),
    }
}

impl State for MachineState {
    open spec fn well_formed(&self) -> bool {
        self.model().wf()
    }

    fn on_enter(&mut self) -> (lines: Vec<String>)
        ensures
            final(self).model() == match old(self).model() {
                MachineView::Shell => MachineView::Shell,
                MachineView::App(a) => MachineView::App(a.entered()),
            },
            strings_view(lines@) == match old(self).model() {
                MachineView::Shell => Seq::empty(),
                MachineView::App(a) => a.entry_lines(),
            },
    {
        match self {
            MachineState::Shell(s) => {
                let lines = s.on_enter();
                assert(strings_view(lines@) =~= Seq::<Seq<char>>::empty());
                lines
            },
            MachineState::App(a) => a.on_enter(),
        }
    }

    fn on_exit(&mut self)
        ensures
            final(self).model() == old(self).model(),
    {
        match self {
            MachineState::Shell(s) => s.on_exit(),
            MachineState::App(a) => a.on_exit(),
        }
    }

    fn handle_command(&mut self, input: &str, context: &StateContext) -> (t: StateTransition)
        ensures
            machine_command(
                old(self).model(),
                context.command_registry@,
                input@,
                context.launch_seed,
                final(self).model(),
                t@,
            ),
    {
        match self {
            MachineState::Shell(s) => s.handle_command(input, context),
            MachineState::App(a) => a.handle_command(input, context),
        }
    }

    fn handle_key(&mut self, key: AppKey) -> (t: StateTransition)
        ensures
            machine_key(old(self).model(), key, final(self).model(), t@),
    {
        match self {
            MachineState::Shell(s) => s.handle_key(key),
            MachineState::App(a) => a.handle_key(key),
        }
    }

    fn tick(&mut self) -> (t: StateTransition)
        ensures
            machine_tick(old(self).model(), final(self).model(), t@),
    {
        match self {
            MachineState::Shell(s) => s.tick(),
            MachineState::App(a) => a.tick(),
        }
    }

    fn view(&self) -> (lines: Vec<AppLine>)
        ensures
            app_lines_view(lines@) == self.model().drawn(),
    {
        match self {
            MachineState::Shell(s) => {
                let lines = s.view();
                assert(app_lines_view(lines@) =~= Seq::<Seq<SegmentView>>::empty());
                lines
            },
            MachineState::App(a) => a.view(),
        }
    }

    fn prompt_enabled(&self) -> (r: bool)
        ensures
            r == self.model().prompt_enabled(),
    {
        match self {
            MachineState::Shell(s) => s.prompt_enabled(),
            MachineState::App(a) => a.prompt_enabled(),
        }
    }

    fn captures_keyboard(&self) -> (r: bool)
        ensures
            r == self.model().captures_keyboard(),
    {
        match self {
            MachineState::Shell(s) => s.captures_keyboard(),
            MachineState::App(a) => a.captures_keyboard(),
        }
    }

    fn uses_alternate_screen(&self) -> (r: bool)
        ensures
            r == self.model().captures_keyboard(),
    {
        match self {
            MachineState::Shell(s) => s.uses_alternate_screen(),
            MachineState::App(a) => a.uses_alternate_screen(),
        }
    }
}

/// Holds the current state and moves it.
pub struct StateMachine {
    state: MachineState,
}

impl StateMachine {
    pub closed spec fn model(&self) -> MachineView {
        self.state.model()
    }

    /// A machine in the shell.
    pub fn new() -> (m: Self)
        ensures
            m.model() == MachineView::Shell,
    {
        StateMachine { state: MachineState::Shell(ShellState) }
    }

    /// The current state, to be handed an input.
    pub fn state_mut(&mut self) -> (r: &mut MachineState)
        ensures
            r.model() == old(self).model(),
            final(self).model() == final(r).model(),
    {
        &mut self.state
    }

    pub fn prompt_enabled(&self) -> (r: bool)
        ensures
            r == self.model().prompt_enabled(),
    {
        self.state.prompt_enabled()
    }

    pub fn captures_keyboard(&self) -> (r: bool)
        ensures
            r == self.model().captures_keyboard(),
    {
        self.state.captures_keyboard()
    }

    /// What the current state draws.
    pub fn view(&self) -> (lines: Vec<AppLine>)
        requires
            self.model().wf(),
        ensures
            app_lines_view(lines@) == self.model().drawn(),
    {
        self.state.view()
    }

    /// Makes a transition: the state's update goes to the session, the
    /// new state is entered, and the screens are brought in line with it.
    /// Returns whether anything shown changed.
    pub fn apply(&mut self, transition: StateTransition, session: &mut TerminalSession) -> (changed: bool)
        requires
            old(session)@.valid(),
            transition@ is Exit || old(self).model().wf(),
            transition@ matches TransitionView::Change(a, _) ==> a.wf(),
        ensures
            final(self).model() == next_machine(old(self).model(), transition@),
            final(self).model().wf(),
            final(session)@ == applied_session(old(session)@, old(self).model(), transition@),
            final(session)@.valid(),
            changed == (transition@.update().changes_view() || !(transition@ is Stay)),
    {
        let ghost t = transition@;
        let changed = match transition {
            StateTransition::Stay(update) => Self::apply_state_update(update, session),
            StateTransition::Change { next, update } => {
                self.state.on_exit();
                Self::apply_state_update(update, session);
                let mut next = next;
                let enter_lines = next.on_enter();
                self.state = MachineState::App(next);
                Self::append_output_lines(session, enter_lines);
                true
            },
            StateTransition::Exit(update) => {
                self.state.on_exit();
                Self::apply_state_update(update, session);
                self.state = MachineState::Shell(ShellState);
                let enter_lines = self.state.on_enter();
                Self::append_output_lines(session, enter_lines);
                proof {
                    assert(output_entries(strings_view(enter_lines@)) =~= Seq::<EntryView>::empty());
                    assert(session@.history =~= applied_history(old(session)@.history, t));
                }
                true
            },
        };
        let view = self.state.view();
        let alternate = self.state.uses_alternate_screen();
        session.sync_state_view(view, alternate);
        changed
    }

    fn apply_state_update(update: StateUpdate, session: &mut TerminalSession) -> (changed: bool)
        requires
            old(session)@.valid(),
        ensures
            final(session)@.fs == old(session)@.fs,
            final(session)@.history == updated_history(old(session)@.history, update@),
            final(session)@.effects == updated_effects(old(session)@.effects, update@),
            final(session)@.valid(),
            changed == update@.changes_view(),
    {
        let changed = update.changes_view();
        let ghost u = update@;
        let StateUpdate { lines, effects, reset_terminal, refresh_view } = update;
        if reset_terminal {
            session.reset(initial_history());
        }
        let ghost h1 = session@.history;
        let ghost e1 = session@.effects;
        Self::append_output_lines(session, lines);
        let mut effects = effects;
        let ghost all = crate::terminal::model::effects_view(effects@);
        let ghost total = effects@.len();
        while effects.len() > 0
            invariant
                session@.valid(),
                session@.fs == old(session)@.fs,
                session@.history == h1 + output_entries(u.lines),
                effects@.len() <= total,
                all.len() == total,
                crate::terminal::model::effects_view(effects@) == all.subrange(
                    total - effects@.len(),
                    total as int,
                ),
                session@.effects == e1 + all.subrange(0, total - effects@.len()),
            decreases effects@.len(),
        {
            let ghost before = effects@;
            let ghost k = total - before.len();
            assert(crate::terminal::model::effects_view(before)[0] == all[k]);
            let effect = effects.remove(0);
            assert(effect@ == all[k]);
            assert(effects@ =~= before.subrange(1, before.len() as int));
            session.push_effect(effect);
            assert(all.subrange(0, k + 1) =~= all.subrange(0, k).push(all[k]));
            assert forall|j: int| 0 <= j < effects@.len() implies crate::terminal::model::effects_view(
                effects@,
            )[j] == all[k + 1 + j] by {
                assert(crate::terminal::model::effects_view(before)[j + 1] == all[k + 1 + j]);
            }
            assert(crate::terminal::model::effects_view(effects@) =~= all.subrange(
                total - effects@.len(),
                total as int,
            ));
        }
        assert(all.subrange(0, total as int) =~= all);
        changed
    }

    fn append_output_lines(session: &mut TerminalSession, lines: Vec<String>)
        requires
            old(session)@.valid(),
        ensures
            final(session)@.fs == old(session)@.fs,
            final(session)@.history == old(session)@.history + output_entries(strings_view(lines@)),
            final(session)@.effects == old(session)@.effects,
            final(session)@.valid(),
    {
        if lines.len() > 0 {
            session.append_output(lines);
        } else {
            assert(old(session)@.history + output_entries(strings_view(lines@)) =~= old(session)@.history);
        }
    }
}

} // verus!
