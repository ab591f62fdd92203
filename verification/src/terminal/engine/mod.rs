//! The heart of the terminal: user actions go in, the state machine moves,
//! and the session records what happened.
pub mod states;
pub mod state_machine;
pub mod action_dispatcher;
pub mod properties;

use vstd::prelude::*;
use crate::apps::{AppKey, AppKind, AppLine, app_lines_view, started};
use crate::commands::{CommandRegistry, TerminalActions};
use crate::commands::registry::{Builtin, builtin_execute};
use crate::random::{RandomSource, next_state, seeded_state};
use crate::terminal::bootstrap::{initial_history, initial_history_view};
use crate::terminal::emulator::output_screen;
use crate::terminal::model::{
    EntryView,
    Effect, Entry, ScreenLine, ViewModel, ViewModelView, copy_entries, copy_screen, effects_view,
    entries_view,
};
use crate::terminal::session::{SessionView, TerminalSession, output_entries};
use crate::terminal_fs::{LinkEntry, TerminalFs, link_entries_view, lookup};
use crate::text::strings_view;
use self::action_dispatcher::{ActionDispatcher, dispatched};
use self::state_machine::{
    MachineView, StateMachine, applied_session, next_machine, synced_screen,
};
use self::states::{
    AppState, AppStateView, StateTransition, StateUpdate, TransitionView, UpdateView, quiet_update,
};
use self::states::app_state::launched;
use self::states::shell_state::result_update;

verus! {

/// What the user does: submits a command line, presses a key, or lets the
/// clock tick.
pub enum Action {
    SubmitCommand(String),
    HandleKey(AppKey),
    Tick,
}

/// What handling an action produced: the effects for the page, and whether
/// anything shown changed.
pub struct DispatchResult {
    effects: Vec<Effect>,
    state_changed: bool,
}

pub struct DispatchView {
    pub effects: Seq<Seq<char>>,
    pub state_changed: bool,
}

impl View for DispatchResult {
    type V = DispatchView;

    closed spec fn view(&self) -> DispatchView {
        DispatchView { effects: effects_view(self.effects@), state_changed: self.state_changed }
    }
}

impl Default for DispatchResult {
    fn default() -> (r: Self)
        ensures
            r@ == (DispatchView { effects: Seq::empty(), state_changed: false }),
    {
        let r = DispatchResult { effects: Vec::new(), state_changed: false };
        assert(r@.effects =~= Seq::<Seq<char>>::empty());
        r
    }
}

impl DispatchResult {
    pub fn effects(self) -> (r: Vec<Effect>)
        ensures
            effects_view(r@) == self@.effects,
    {
        self.effects
    }

    pub fn state_changed(&self) -> (r: bool)
        ensures
            r == self@.state_changed,
    {
        self.state_changed
    }
}

/// The terminal: its session, the state it is in, and the generator that
/// seeds the apps it starts.
pub struct TerminalCore {
    session: TerminalSession,
    dispatcher: ActionDispatcher,
    state_machine: StateMachine,
    rng: RandomSource,
}

pub struct CoreView {
    pub session: SessionView,
    pub state: MachineView,
    pub rng: u64,
}

impl TerminalCore {
    /// The terminal as plain values.
    pub closed spec fn model(&self) -> CoreView {
        CoreView {
            session: self.session@,
            state: self.state_machine.model(),
            rng: self.rng.state(),
        }
    }
}

impl CoreView {
    /// The session and state are consistent, the history begins with the
    /// opening lines, and the screens show the history and what the state
    /// draws.
    pub open spec fn wf(self) -> bool {
        &&& self.session.valid()
        &&& initial_history_view().is_prefix_of(self.session.history)
        &&& self.state.wf()
        &&& self.session.screen == synced_screen(self.session.history, self.state)
    }
}

/// One handled action: the core goes from `c` to `c2`, handing out
/// `effects` and reporting `changed`. The action is dispatched to the state,
/// the transition it asks for is made, and the pending effects are handed
/// out.
pub open spec fn core_step(
    c: CoreView,
    action: Action,
    c2: CoreView,
    effects: Seq<Seq<char>>,
    changed: bool,
) -> bool {
    exists|m1: MachineView, s1: SessionView, r1: u64, t: TransitionView|
        #[trigger] dispatched(c.state, c.session, c.rng, action, m1, s1, r1, t) && {
            let s2 = applied_session(s1, m1, t);
            &&& c2 == CoreView {
                session: SessionView { effects: Seq::empty(), ..s2 },
                state: next_machine(m1, t),
                rng: r1,
            }
            &&& effects == s2.effects
            &&& changed == (t.update().changes_view() || !(t is Stay))
        }
}

/// The core after printing what the built-in `command` answers to
/// `target`.
pub open spec fn after_builtin(c: CoreView, command: Builtin, target: Seq<char>) -> CoreView {
    CoreView {
        session: applied_session(
            c.session,
            c.state,
            TransitionView::Stay(result_update(builtin_execute(command, target, c.session.fs))),
        ),
        ..c
    }
}

/// The core after starting over in the shell.
pub open spec fn after_reset(c: CoreView) -> CoreView {
    CoreView {
        session: applied_session(c.session, c.state, TransitionView::Exit(reset_update())),
        state: MachineView::Shell,
        rng: c.rng,
    }
}

/// The core after printing `lines`.
pub open spec fn after_output(c: CoreView, lines: Seq<Seq<char>>) -> CoreView {
    CoreView {
        session: SessionView {
            history: c.session.history + output_entries(lines),
            screen: crate::terminal::emulator::EmulatorView {
                primary: c.session.screen.primary + output_screen(lines),
                ..c.session.screen
            },
            ..c.session
        },
        ..c
    }
}

/// The core with a request to open `href` pending.
pub open spec fn after_link(c: CoreView, href: Seq<char>) -> CoreView {
    CoreView { session: SessionView { effects: c.session.effects.push(href), ..c.session }, ..c }
}

/// The core after entering the app `a` of kind `kind`, started from the
/// generator's next draw.
pub open spec fn after_launch(c: CoreView, kind: AppKind, a: AppStateView, c2: CoreView) -> bool {
    &&& launched(kind, a.runtime) == a
    &&& started(kind, next_state(c.rng), a.runtime)
    &&& a.wf()
    &&& c2 == CoreView {
        session: applied_session(c.session, c.state, TransitionView::Change(a, quiet_update())),
        state: MachineView::App(a.entered()),
        rng: next_state(c.rng),
    }
}

/// The history after an operation either extends the one before or is
/// exactly the opening lines again.
pub open spec fn history_kept_or_restarted(before: Seq<EntryView>, after: Seq<EntryView>) -> bool {
    before.is_prefix_of(after) || after == initial_history_view()
}

/// The update that starts the screen over.
pub open spec fn reset_update() -> UpdateView {
    UpdateView { reset_terminal: true, ..quiet_update() }
}

impl TerminalCore {
    /// A terminal on `terminal_fs` showing its opening lines in the shell,
    /// whose apps draw their random choices from `seed`.
    pub fn new(terminal_fs: TerminalFs, seed: u64) -> (c: Self)
        requires
            terminal_fs@.valid(),
        ensures
            c.model() == (CoreView {
                session: SessionView {
                    fs: terminal_fs@,
                    history: initial_history_view(),
                    effects: Seq::empty(),
                    screen: synced_screen(initial_history_view(), MachineView::Shell),
                },
                state: MachineView::Shell,
                rng: seeded_state(seed),
            }),
            c.model().wf(),
    {
        let c = TerminalCore {
            session: TerminalSession::new(terminal_fs, initial_history()),
            dispatcher: ActionDispatcher::new(),
            state_machine: StateMachine::new(),
            rng: RandomSource::from_seed(seed),
        };
        assert(c.model().session.screen.alternate =~= synced_screen(initial_history_view(), MachineView::Shell).alternate);
        c
    }

    /// Replaces the generator that seeds the apps with one started from
    /// `seed`, a fresh draw from the host.
    pub fn reseed(&mut self, seed: u64)
        requires
            old(self).model().wf(),
        ensures
            final(self).model() == (CoreView { rng: seeded_state(seed), ..old(self).model() }),
            history_kept_or_restarted(old(self).model().session.history, final(self).model().session.history),
            final(self).model().wf(),
    {
        self.rng = RandomSource::from_seed(seed);
    }

    pub fn captures_keyboard(&self) -> (r: bool)
        ensures
            r == self.model().state.captures_keyboard(),
    {
        self.state_machine.captures_keyboard()
    }

    pub fn prompt_enabled(&self) -> (r: bool)
        ensures
            r == self.model().state.prompt_enabled(),
    {
        self.state_machine.prompt_enabled()
    }

    pub fn links(&self) -> (r: &Vec<LinkEntry>)
        ensures
            link_entries_view(r@) == self.model().session.fs.links,
    {
        self.session.links()
    }

    /// The address of the link stored under exactly `path`.
    pub fn link(&self, path: &str) -> (r: Option<&String>)
        ensures
            match r {
                Some(h) => lookup(self.model().session.fs.links, path@) == Some(h@),
                None => lookup(self.model().session.fs.links, path@) is None,
            },
    {
        self.session.terminal_fs().link(path)
    }

    pub fn history(&self) -> (r: &[Entry])
        ensures
            entries_view(r@) == self.model().session.history,
    {
        self.session.history()
    }

    /// What the current state draws.
    pub fn active_view(&self) -> (r: Vec<AppLine>)
        requires
            self.model().wf(),
        ensures
            app_lines_view(r@) == self.model().state.drawn(),
    {
        self.state_machine.view()
    }

    /// Handles one action.
    pub fn dispatch(&mut self, action: Action) -> (r: DispatchResult)
        requires
            old(self).model().wf(),
        ensures
            core_step(old(self).model(), action, final(self).model(), r@.effects, r@.state_changed),
            history_kept_or_restarted(old(self).model().session.history, final(self).model().session.history),
            final(self).model().wf(),
    {
        let ghost a = action;
        let transition = self.dispatcher.dispatch(
            action,
            &mut self.state_machine,
            &mut self.session,
            &mut self.rng,
        );
        let ghost m1 = self.state_machine.model();
        let ghost s1 = self.session@;
        let ghost r1 = self.rng.state();
        let ghost t = transition@;
        let state_changed = self.state_machine.apply(transition, &mut self.session);
        let effects = self.session.take_effects();
        let r = DispatchResult { effects, state_changed };
        proof {
            assert(dispatched(old(self).model().state, old(self).model().session, old(self).model().rng, a, m1, s1, r1, t));
        }
        r
    }

    /// What the page shows: the history, what the state draws, the visible
    /// screen and whether the prompt takes input.
    pub fn view(&self) -> (v: ViewModel)
        requires
            self.model().wf(),
        ensures
            v@ == (ViewModelView {
                history: self.model().session.history,
                active_view: self.model().state.drawn(),
                visible_lines: self.model().session.screen.visible(),
                prompt_enabled: self.model().state.prompt_enabled(),
            }),
    {
        ViewModel::new(
            copy_entries(self.session.history()),
            self.state_machine.view(),
            copy_screen(self.session.visible_lines()),
            self.state_machine.prompt_enabled(),
        )
    }

    /// Submits a command line and returns the effects it produced.
    pub fn run_command(&mut self, raw: String) -> (r: Vec<Effect>)
        requires
            old(self).model().wf(),
        ensures
            exists|changed: bool|
                core_step(old(self).model(), Action::SubmitCommand(raw), final(self).model(), effects_view(r@), changed),
            history_kept_or_restarted(old(self).model().session.history, final(self).model().session.history),
            final(self).model().wf(),
    {
        self.dispatch(Action::SubmitCommand(raw)).effects()
    }

    /// Hands a key to the state; returns whether anything shown changed.
    pub fn handle_key(&mut self, key: AppKey) -> (r: bool)
        requires
            old(self).model().wf(),
        ensures
            exists|effects: Seq<Seq<char>>|
                core_step(old(self).model(), Action::HandleKey(key), final(self).model(), effects, r),
            history_kept_or_restarted(old(self).model().session.history, final(self).model().session.history),
            final(self).model().wf(),
    {
        self.dispatch(Action::HandleKey(key)).state_changed()
    }

    /// Lets the clock tick; returns whether anything shown changed.
    pub fn tick(&mut self) -> (r: bool)
        requires
            old(self).model().wf(),
        ensures
            exists|effects: Seq<Seq<char>>| core_step(old(self).model(), Action::Tick, final(self).model(), effects, r),
            history_kept_or_restarted(old(self).model().session.history, final(self).model().session.history),
            final(self).model().wf(),
    {
        self.dispatch(Action::Tick).state_changed()
    }

    /// Prints what the built-in command `command` answers to `target`.
    fn run_builtin(&mut self, command: Builtin, target: &str)
        requires
            old(self).model().wf(),
            builtin_execute(command, target@, old(self).model().session.fs).start_program is None,
        ensures
            final(self).model() == after_builtin(old(self).model(), command, target@),
            final(self).model().wf(),
    {
        let result = {
            let registry = CommandRegistry::new(self.session.terminal_fs());
            command.execute(target, &registry)
        };
        let mut update = StateUpdate::with_lines(result.lines_vec());
        update.reset_terminal = result.should_reset_terminal();
        if let Some(href) = result.open_link_string() {
            update.effects.push(Effect::OpenLink(href));
        }
        proof {
            assert(update@ =~= result_update(result@));
        }
        self.state_machine.apply(StateTransition::Stay(update), &mut self.session);
    }

    /// Prints the list of commands.
    pub fn show_help(&mut self)
        requires
            old(self).model().wf(),
        ensures
            final(self).model() == after_builtin(old(self).model(), Builtin::Help, Seq::empty()),
            history_kept_or_restarted(old(self).model().session.history, final(self).model().session.history),
            final(self).model().wf(),
    {
        proof {
            reveal_strlit("");
        }
        self.run_builtin(Builtin::Help, "");
    }

    /// Prints the listing of the directory `target` names.
    pub fn list_directory(&mut self, target: &str)
        requires
            old(self).model().wf(),
        ensures
            final(self).model() == after_builtin(old(self).model(), Builtin::Ls, target@),
            history_kept_or_restarted(old(self).model().session.history, final(self).model().session.history),
            final(self).model().wf(),
    {
        self.run_builtin(Builtin::Ls, target);
    }

    /// Starts an app of kind `kind`, seeded by a fresh draw.
    pub fn launch_app(&mut self, kind: AppKind)
        requires
            old(self).model().wf(),
        ensures
            (exists|a: AppStateView| #[trigger] after_launch(old(self).model(), kind, a, final(self).model())),
            history_kept_or_restarted(old(self).model().session.history, final(self).model().session.history),
            final(self).model().wf(),
    {
        let seed = self.rng.next_u64();
        let next = AppState::launch(kind, seed);
        let ghost a = next.model();
        self.state_machine.apply(
            StateTransition::Change { next, update: StateUpdate::default() },
            &mut self.session,
        );
        assert(after_launch(old(self).model(), kind, a, self.model()));
    }

    /// Leaves any app and starts the screen over.
    pub fn reset_terminal(&mut self)
        requires
            old(self).model().wf(),
        ensures
            final(self).model() == after_reset(old(self).model()),
            history_kept_or_restarted(old(self).model().session.history, final(self).model().session.history),
            final(self).model().wf(),
    {
        let mut update = StateUpdate::default();
        update.reset_terminal = true;
        assert(update@ =~= reset_update());
        self.state_machine.apply(StateTransition::Exit(update), &mut self.session);
    }

    /// Prints `lines`.
    pub fn append_output(&mut self, lines: Vec<String>)
        requires
            old(self).model().wf(),
        ensures
            final(self).model() == after_output(old(self).model(), strings_view(lines@)),
            history_kept_or_restarted(old(self).model().session.history, final(self).model().session.history),
            final(self).model().wf(),
    {
        self.session.append_output(lines);
    }

    /// Asks the page to open `href`.
    pub fn open_link(&mut self, href: String)
        requires
            old(self).model().wf(),
        ensures
            final(self).model() == after_link(old(self).model(), href@),
            history_kept_or_restarted(old(self).model().session.history, final(self).model().session.history),
            final(self).model().wf(),
    {
        self.session.push_effect(Effect::OpenLink(href));
    }
}

impl TerminalActions for TerminalCore {
    open spec fn ready(&self) -> bool {
        self.model().wf()
    }

    fn show_help(&mut self)
        ensures
            final(self).model() == after_builtin(old(self).model(), Builtin::Help, Seq::empty()),
    {
        TerminalCore::show_help(self)
    }

    fn list_directory(&mut self, target: &str)
        ensures
            final(self).model() == after_builtin(old(self).model(), Builtin::Ls, target@),
    {
        TerminalCore::list_directory(self, target)
    }

    fn launch_app(&mut self, kind: AppKind)
        ensures
            (exists|a: AppStateView| #[trigger] after_launch(old(self).model(), kind, a, final(self).model())),
    {
        TerminalCore::launch_app(self, kind)
    }

    fn reset_terminal(&mut self)
        ensures
            final(self).model() == after_reset(old(self).model()),
    {
        TerminalCore::reset_terminal(self)
    }

    fn append_output(&mut self, lines: Vec<String>)
        ensures
            final(self).model() == after_output(old(self).model(), strings_view(lines@)),
    {
        TerminalCore::append_output(self, lines)
    }

    fn open_link(&mut self, href: String)
        ensures
            final(self).model() == after_link(old(self).model(), href@),
    {
        TerminalCore::open_link(self, href)
    }
}

} // verus!
