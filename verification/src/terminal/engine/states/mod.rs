//! The states the terminal moves between, the updates they ask for and the
//! transitions between them.
pub mod app_state;
pub mod shell_state;

use vstd::prelude::*;
use crate::apps::{AppKey, AppLine, OutputView};
use crate::commands::CommandRegistry;
use crate::commands::registry::{aliases, command_aliases, command_names, names};
use crate::terminal::model::{Effect, effects_view};
use crate::text::{is_ws, strings_view};

pub use self::app_state::{AppState, AppStateView};
pub use self::shell_state::ShellState;

verus! {

/// The names and aliases of the built-in commands.
pub struct CommandCatalog {
    pub names: Vec<&'static str>,
    pub aliases: Vec<&'static str>,
}

impl CommandCatalog {
    pub fn new() -> (c: Self)
        ensures
            c.names@.map_values(|s: &str| s@) == command_names(),
            c.aliases@.map_values(|s: &str| s@) == command_aliases(),
    {
        CommandCatalog { names: names(), aliases: aliases() }
    }
}

/// What a state may consult while it handles a command: the commands and
/// their file tree, and the seed for an app that the command starts.
pub struct StateContext<'a> {
    pub command_registry: &'a CommandRegistry<'a>,
    pub launch_seed: u64,
}

impl<'a> StateContext<'a> {
    pub fn new(command_registry: &'a CommandRegistry<'a>, launch_seed: u64) -> (c: StateContext<'a>)
        ensures
            c.command_registry == command_registry,
            c.launch_seed == launch_seed,
    {
        StateContext { command_registry, launch_seed }
    }
}

/// What a state asks of the session: lines to print, effects to perform,
/// whether to start the screen over, and whether its view changed.
pub struct StateUpdate {
    pub lines: Vec<String>,
    pub effects: Vec<Effect>,
    pub reset_terminal: bool,
    pub refresh_view: bool,
}

#[verifier::ext_equal]
pub struct UpdateView {
    pub lines: Seq<Seq<char>>,
    pub effects: Seq<Seq<char>>,
    pub reset_terminal: bool,
    pub refresh_view: bool,
}

impl View for StateUpdate {
    type V = UpdateView;

    open spec fn view(&self) -> UpdateView {
        UpdateView {
            lines: strings_view(self.lines@),
            effects: effects_view(self.effects@),
            reset_terminal: self.reset_terminal,
            refresh_view: self.refresh_view,
        }
    }
}

impl UpdateView {
    /// Whether the update changes what the terminal shows.
    pub open spec fn changes_view(self) -> bool {
        self.refresh_view || self.reset_terminal || self.lines.len() > 0
    }
}

/// An update that asks for nothing.
pub open spec fn quiet_update() -> UpdateView {
    UpdateView {
        lines: Seq::empty(),
        effects: Seq::empty(),
        reset_terminal: false,
        refresh_view: false,
    }
}

/// An update that prints `lines` and redraws the view.
pub open spec fn refresh_update(lines: Seq<Seq<char>>) -> UpdateView {
    UpdateView { lines, effects: Seq::empty(), reset_terminal: false, refresh_view: true }
}

impl Default for StateUpdate {
    fn default() -> (u: Self)
        ensures
            u@ == quiet_update(),
    {
        let u = StateUpdate {
            lines: Vec::new(),
            effects: Vec::new(),
            reset_terminal: false,
            refresh_view: false,
        };
        assert(u@ =~= quiet_update());
        u
    }
}

impl StateUpdate {
    /// An update that prints `lines`.
    pub fn with_lines(lines: Vec<String>) -> (u: Self)
        ensures
            u@ == (UpdateView { lines: strings_view(lines@), ..quiet_update() }),
    {
        let u = StateUpdate { lines, effects: Vec::new(), reset_terminal: false, refresh_view: false };
        assert(u@ =~= (UpdateView { lines: strings_view(lines@), ..quiet_update() }));
        u
    }

    /// An update that only redraws the view.
    pub fn for_view_refresh() -> (u: Self)
        ensures
            u@ == refresh_update(Seq::empty()),
    {
        let u = StateUpdate {
            lines: Vec::new(),
            effects: Vec::new(),
            reset_terminal: false,
            refresh_view: true,
        };
        assert(u@ =~= refresh_update(Seq::empty()));
        u
    }

    pub fn changes_view(&self) -> (r: bool)
        ensures
            r == self@.changes_view(),
    {
        self.refresh_view || self.reset_terminal || self.lines.len() > 0
    }
}

/// Where a state sends the terminal next: it stays, hands over to an app,
/// or leaves the app for the shell.
pub enum StateTransition {
    Stay(StateUpdate),
    Change { next: AppState, update: StateUpdate },
    Exit(StateUpdate),
}

pub enum TransitionView {
    Stay(UpdateView),
    Change(AppStateView, UpdateView),
    Exit(UpdateView),
}

impl View for StateTransition {
    type V = TransitionView;

    open spec fn view(&self) -> TransitionView {
        match self {
            StateTransition::Stay(u) => TransitionView::Stay(u@),
            StateTransition::Change { next, update } => TransitionView::Change(next.model(), update@),
            StateTransition::Exit(u) => TransitionView::Exit(u@),
        }
    }
}

impl TransitionView {
    /// The update the transition carries.
    pub open spec fn update(self) -> UpdateView {
        match self {
            TransitionView::Stay(u) => u,
            TransitionView::Change(_, u) => u,
            TransitionView::Exit(u) => u,
        }
    }
}

impl StateTransition {
    /// Staying, with nothing to do.
    pub fn stay() -> (t: Self)
        ensures
            t@ == TransitionView::Stay(quiet_update()),
    {
        StateTransition::Stay(StateUpdate::default())
    }
}

/// The transition an app's answer calls for: no answer keeps the terminal
/// as it is, a continuing answer prints its lines and redraws, an ending
/// one prints its lines and leaves the app.
pub open spec fn transition_of(o: Option<OutputView>) -> TransitionView {
    match o {
        None => TransitionView::Stay(quiet_update()),
        Some(OutputView::Continue(lines)) => TransitionView::Stay(refresh_update(lines)),
        Some(OutputView::Exit(lines)) => TransitionView::Exit(refresh_update(lines)),
    }
}

/// The answer a transition made by `transition_of` stands for.
pub open spec fn output_of(t: TransitionView) -> Option<OutputView> {
    match t {
        TransitionView::Stay(u) => if u.refresh_view {
            Some(OutputView::Continue(u.lines))
        } else {
            None
        },
        TransitionView::Exit(u) => Some(OutputView::Exit(u.lines)),
        TransitionView::Change(_, _) => None,
    }
}

/// A state of the terminal: the shell, or an app it runs.
pub trait State {
    /// The state's own consistency condition.
    spec fn well_formed(&self) -> bool;

    /// Entering the state; returns the lines it opens with.
    fn on_enter(&mut self) -> (lines: Vec<String>)
        requires
            old(self).well_formed(),
        ensures
            final(self).well_formed(),
    ;

    fn on_exit(&mut self);

    /// Handles a command line that starts with no whitespace.
    fn handle_command(&mut self, input: &str, context: &StateContext) -> (t: StateTransition)
        requires
            old(self).well_formed(),
            context.command_registry.valid(),
            input@.len() == 0 || !is_ws(input@[0]),
        ensures
            final(self).well_formed() || t is Exit,
            t matches StateTransition::Change { next, .. } ==> next.model().wf(),
    ;

    fn handle_key(&mut self, key: AppKey) -> (t: StateTransition)
        requires
            old(self).well_formed(),
        ensures
            final(self).well_formed() || t is Exit,
            !(t is Change),
    ;

    fn tick(&mut self) -> (t: StateTransition)
        requires
            old(self).well_formed(),
        ensures
            final(self).well_formed() || t is Exit,
            !(t is Change),
    ;

    /// The lines the state draws.
    fn view(&self) -> (lines: Vec<AppLine>)
        requires
            self.well_formed(),
    ;

    fn prompt_enabled(&self) -> bool;

    fn captures_keyboard(&self) -> bool;

    fn uses_alternate_screen(&self) -> bool;
}

} // verus!
