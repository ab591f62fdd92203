//! The state in which the terminal reads shell commands.
use vstd::prelude::*;
use crate::apps::{AppKey, AppLine, app_lines_view, started};
use crate::commands::{CommandResult, ResultView};
use crate::commands::registry::command_result;
use crate::terminal::engine::states::{
    AppState, AppStateView, State, StateContext, StateTransition, StateUpdate, TransitionView,
    quiet_update,
};
use crate::terminal::engine::states::app_state::launched;
use crate::terminal::model::Effect;
use crate::terminal_fs::FsView;
use crate::text::{copy_string, copy_strings, strings_view};

verus! {

/// The shell.
pub struct ShellState;

/// The update a command's result calls for: its lines, the link it opens,
/// and whether it starts the screen over.
pub open spec fn result_update(r: ResultView) -> crate::terminal::engine::states::UpdateView {
    crate::terminal::engine::states::UpdateView {
        lines: r.lines,
        effects: match r.open_link {
            Some(h) => seq![h],
            None => Seq::empty(),
        },
        reset_terminal: r.reset_terminal,
        refresh_view: false,
    }
}

/// Where the result `r` sends the terminal: into the app it starts, with
/// `seed` for its random choices, else nowhere.
pub open spec fn result_transition(r: ResultView, seed: u64, t: TransitionView) -> bool {
    match r.start_program {
        None => t == TransitionView::Stay(result_update(r)),
        Some(kind) => {
            &&& t matches TransitionView::Change(a, u)
            &&& u == result_update(r)
            &&& a == launched(kind, a.runtime)
            &&& started(kind, seed, a.runtime)
            &&& a.wf()
        },
    }
}

/// A command line run by the shell on the tree `fs`; `seed` seeds the app
/// it may start.
pub open spec fn shell_command(fs: FsView, input: Seq<char>, seed: u64, t: TransitionView) -> bool {
    result_transition(command_result(fs, input), seed, t)
}

impl ShellState {
    fn apply_command_result(result: CommandResult, seed: u64) -> (t: StateTransition)
        ensures
            result_transition(result@, seed, t@),
            t matches StateTransition::Change { next, .. } ==> next.model().wf(),
    {
        let mut update = StateUpdate::with_lines(result.lines_vec());
        update.reset_terminal = result.should_reset_terminal();
        if let Some(href) = result.open_link_string() {
            update.effects.push(Effect::OpenLink(href));
        }
        proof {
            assert(update@ =~= result_update(result@));
        }
        if let Some(kind) = result.start_program() {
            return StateTransition::Change { next: AppState::launch(kind, seed), update };
        }
        StateTransition::Stay(update)
    }
}

impl State for ShellState {
    open spec fn well_formed(&self) -> bool {
        true
    }

    fn on_enter(&mut self) -> (lines: Vec<String>)
        ensures
            lines@.len() == 0,
    {
        Vec::new()
    }

    fn on_exit(&mut self) {
    }

    fn handle_command(&mut self, input: &str, context: &StateContext) -> (t: StateTransition)
        ensures
            shell_command(context.command_registry@, input@, context.launch_seed, t@),
    {
        Self::apply_command_result(context.command_registry.execute(input), context.launch_seed)
    }

    fn handle_key(&mut self, key: AppKey) -> (t: StateTransition)
        ensures
            t@ == TransitionView::Stay(quiet_update()),
    {
        StateTransition::stay()
    }

    fn tick(&mut self) -> (t: StateTransition)
        ensures
            t@ == TransitionView::Stay(quiet_update()),
    {
        StateTransition::stay()
    }

    fn view(&self) -> (lines: Vec<AppLine>)
        ensures
            lines@.len() == 0,
    {
        Vec::new()
    }

    fn prompt_enabled(&self) -> (r: bool)
        ensures
            r,
    {
        true
    }

    fn captures_keyboard(&self) -> (r: bool)
        ensures
            !r,
    {
        false
    }

    fn uses_alternate_screen(&self) -> (r: bool)
        ensures
            !r,
    {
        false
    }
}

} // verus!
