//! What the terminal promises across its operations, proved over the
//! specification of one handled action.
use vstd::prelude::*;
use crate::apps::{AppInstance, AppKey, AppKind, AppMode, OutputView, mode_of, start_lines_of, started};
use crate::apps::guess::{respond_output, responded};
use crate::commands::ResultView;
use crate::terminal_fs::FsView;
use crate::commands::registry::command_result;
use crate::random::next_state;
use crate::terminal::bootstrap::initial_history_view;
use crate::terminal::engine::{Action, CoreView, core_step, history_kept_or_restarted};
use crate::terminal::engine::action_dispatcher::{dispatched, recorded_session};
use crate::terminal::engine::state_machine::{
    MachineView, applied_history, applied_session, next_machine, synced_screen, updated_history,
};
use crate::terminal::engine::states::{TransitionView, UpdateView, quiet_update, transition_of};
use crate::terminal::engine::states::app_state::launched;
use crate::terminal::engine::states::shell_state::result_update;
use crate::terminal::model::{EntryKind, EntryView, app_screen, history_screen};
use crate::terminal::session::{SessionView, output_entries};
use crate::text::{lemma_trim_idempotent, lowercase, trim};

verus! {

/// The lines an app of kind `kind` prints when it is entered: those of an
/// app that reads commands; a realtime app draws them instead.
pub open spec fn entered_lines(kind: AppKind) -> Seq<Seq<char>> {
    if mode_of(kind) == AppMode::Realtime {
        Seq::empty()
    } else {
        start_lines_of(kind)
    }
}

/// The history after the shell runs `input` with result `res`.
pub open spec fn command_history(h: Seq<EntryView>, input: Seq<char>, res: ResultView) -> Seq<EntryView> {
    (if res.reset_terminal {
        initial_history_view()
    } else {
        h.push((EntryKind::Command, input))
    }) + output_entries(res.lines) + match res.start_program {
        Some(kind) => output_entries(entered_lines(kind)),
        None => Seq::empty(),
    }
}

/// The lines of an app's answer.
pub open spec fn output_lines(o: OutputView) -> Seq<Seq<char>> {
    match o {
        OutputView::Continue(lines) => lines,
        OutputView::Exit(lines) => lines,
    }
}

/// The core with its pending effects handed out.
pub open spec fn drained(c: CoreView) -> CoreView {
    CoreView { session: SessionView { effects: Seq::empty(), ..c.session }, ..c }
}

/// The prompt takes input exactly when no realtime app holds the keyboard.
pub proof fn lemma_prompt_or_keyboard(m: MachineView)
    ensures
        m.prompt_enabled() == !m.captures_keyboard(),
{
}

/// A blank command line, or one typed while a realtime app holds the
/// keyboard, changes nothing: the pending effects are handed out and
/// nothing shown changes.
pub proof fn lemma_ignored_submit(
    c: CoreView,
    raw: String,
    c2: CoreView,
    effects: Seq<Seq<char>>,
    changed: bool,
)
    requires
        c.wf(),
        core_step(c, Action::SubmitCommand(raw), c2, effects, changed),
        trim(raw@).len() == 0 || !c.state.prompt_enabled(),
    ensures
        c2 == drained(c),
        effects == c.session.effects,
        !changed,
{
    let (m1, s1, r1, t) = choose|m1: MachineView, s1: SessionView, r1: u64, t: TransitionView|
        #[trigger] dispatched(c.state, c.session, c.rng, Action::SubmitCommand(raw), m1, s1, r1, t) && {
            let s2 = applied_session(s1, m1, t);
            &&& c2 == CoreView {
                session: SessionView { effects: Seq::empty(), ..s2 },
                state: next_machine(m1, t),
                rng: r1,
            }
            &&& effects == s2.effects
            &&& changed == (t.update().changes_view() || !(t is Stay))
        };
    assert(output_entries(Seq::empty()) =~= Seq::<EntryView>::empty());
    assert(c.session.history + output_entries(Seq::empty()) =~= c.session.history);
    assert(c.session.effects + Seq::<Seq<char>>::empty() =~= c.session.effects);
    assert(c2.session =~= drained(c).session);
}

/// Keys and ticks change nothing unless a realtime app runs: the shell and
/// the guessing game ignore them, and only the pending effects are handed
/// out.
pub proof fn lemma_keys_and_ticks_need_a_realtime_app(
    c: CoreView,
    action: Action,
    c2: CoreView,
    effects: Seq<Seq<char>>,
    changed: bool,
)
    requires
        c.wf(),
        !c.state.captures_keyboard(),
        action is HandleKey || action is Tick,
        core_step(c, action, c2, effects, changed),
    ensures
        c2 == drained(c),
        effects == c.session.effects,
        !changed,
{
    let (m1, s1, r1, t) = choose|m1: MachineView, s1: SessionView, r1: u64, t: TransitionView|
        #[trigger] dispatched(c.state, c.session, c.rng, action, m1, s1, r1, t) && {
            let s2 = applied_session(s1, m1, t);
            &&& c2 == CoreView {
                session: SessionView { effects: Seq::empty(), ..s2 },
                state: next_machine(m1, t),
                rng: r1,
            }
            &&& effects == s2.effects
            &&& changed == (t.update().changes_view() || !(t is Stay))
        };
    assert(m1 == c.state);
    assert(t == TransitionView::Stay(quiet_update()));
    assert(output_entries(Seq::empty()) =~= Seq::<EntryView>::empty());
    assert(c.session.history + output_entries(Seq::empty()) =~= c.session.history);
    assert(c.session.effects + Seq::<Seq<char>>::empty() =~= c.session.effects);
    assert(c2.session =~= drained(c).session);
}

/// Handling an action only adds to the history, unless the terminal starts
/// over, and then the history begins with the opening lines again.
pub proof fn lemma_history_only_grows(
    c: CoreView,
    action: Action,
    c2: CoreView,
    effects: Seq<Seq<char>>,
    changed: bool,
)
    requires
        c.wf(),
        core_step(c, action, c2, effects, changed),
    ensures
        c.session.history.is_prefix_of(c2.session.history) || initial_history_view().is_prefix_of(
            c2.session.history,
        ),
{
    let (m1, s1, r1, t) = choose|m1: MachineView, s1: SessionView, r1: u64, t: TransitionView|
        #[trigger] dispatched(c.state, c.session, c.rng, action, m1, s1, r1, t) && {
            let s2 = applied_session(s1, m1, t);
            &&& c2 == CoreView {
                session: SessionView { effects: Seq::empty(), ..s2 },
                state: next_machine(m1, t),
                rng: r1,
            }
            &&& effects == s2.effects
            &&& changed == (t.update().changes_view() || !(t is Stay))
        };
    let h = c.session.history;
    let h2 = c2.session.history;
    assert(h.is_prefix_of(s1.history));
    if t.update().reset_terminal {
        assert(initial_history_view().is_prefix_of(h2));
    } else {
        assert(s1.history.is_prefix_of(h2));
        assert(h.is_prefix_of(h2));
    }
}

/// Every history the terminal reaches begins with its two opening lines:
/// `TerminalCore::new` starts there, every operation keeps `CoreView::wf`,
/// and `wf` holds this.
pub proof fn lemma_history_begins_with_opening_lines(c: CoreView)
    requires
        c.wf(),
    ensures
        c.session.history.len() >= 2,
        c.session.history.subrange(0, 2) == initial_history_view(),
{
}

/// A command whose result starts the screen over prints nothing and starts
/// no app.
pub proof fn lemma_reset_results_are_bare(fs: FsView, input: Seq<char>)
    ensures
        command_result(fs, input).reset_terminal ==> {
            &&& command_result(fs, input).lines.len() == 0
            &&& command_result(fs, input).start_program is None
        },
{
}

/// Handling an action either only appends to the history or starts it over
/// with exactly the opening lines.
pub proof fn lemma_history_appends_or_resets(
    c: CoreView,
    action: Action,
    c2: CoreView,
    effects: Seq<Seq<char>>,
    changed: bool,
)
    requires
        c.wf(),
        core_step(c, action, c2, effects, changed),
    ensures
        history_kept_or_restarted(c.session.history, c2.session.history),
{
    let (m1, s1, r1, t) = choose|m1: MachineView, s1: SessionView, r1: u64, t: TransitionView|
        #[trigger] dispatched(c.state, c.session, c.rng, action, m1, s1, r1, t) && {
            let s2 = applied_session(s1, m1, t);
            &&& c2 == CoreView {
                session: SessionView { effects: Seq::empty(), ..s2 },
                state: next_machine(m1, t),
                rng: r1,
            }
            &&& effects == s2.effects
            &&& changed == (t.update().changes_view() || !(t is Stay))
        };
    let h = c.session.history;
    let h2 = c2.session.history;
    assert(h.is_prefix_of(s1.history));
    if t.update().reset_terminal {
        match action {
            Action::SubmitCommand(raw) => {
                lemma_reset_results_are_bare(c.session.fs, trim(raw@));
            },
            _ => {},
        }
        assert(output_entries(Seq::empty()) =~= Seq::<EntryView>::empty());
        assert(h2 =~= initial_history_view());
    } else {
        assert(s1.history.is_prefix_of(h2));
    }
}

/// The screen shows the history, or, while a realtime app runs, what the
/// app draws.
pub proof fn lemma_visible_screen(c: CoreView)
    requires
        c.wf(),
    ensures
        c.session.screen.visible() == if c.state.captures_keyboard() {
            app_screen(c.state.drawn())
        } else {
            history_screen(c.session.history)
        },
{
}

/// A command line typed in the shell is recorded, trimmed, and run: the
/// screen starts over if the command asks so, its lines are printed, the
/// link it opens is handed out, and the app it starts is entered, printing
/// its opening lines if it reads commands.
pub proof fn lemma_shell_command(
    c: CoreView,
    raw: String,
    c2: CoreView,
    effects: Seq<Seq<char>>,
    changed: bool,
)
    requires
        c.wf(),
        c.state == MachineView::Shell,
        trim(raw@).len() > 0,
        core_step(c, Action::SubmitCommand(raw), c2, effects, changed),
    ensures
        c2.session.history == command_history(
            c.session.history,
            trim(raw@),
            command_result(c.session.fs, trim(raw@)),
        ),
        effects == (if command_result(c.session.fs, trim(raw@)).reset_terminal {
            Seq::empty()
        } else {
            c.session.effects
        }) + result_update(command_result(c.session.fs, trim(raw@))).effects,
        match command_result(c.session.fs, trim(raw@)).start_program {
            None => c2.state == MachineView::Shell,
            Some(kind) => c2.state matches MachineView::App(a) && started(kind, next_state(c.rng), a.runtime)
                && a.mode == mode_of(kind),
        },
        changed == {
            let res = command_result(c.session.fs, trim(raw@));
            res.lines.len() > 0 || res.reset_terminal || res.start_program is Some
        },
        c2.rng == next_state(c.rng),
        c2.session.fs == c.session.fs,
        c2.session.effects.len() == 0,
{
    let (m1, s1, r1, t) = choose|m1: MachineView, s1: SessionView, r1: u64, t: TransitionView|
        #[trigger] dispatched(c.state, c.session, c.rng, Action::SubmitCommand(raw), m1, s1, r1, t) && {
            let s2 = applied_session(s1, m1, t);
            &&& c2 == CoreView {
                session: SessionView { effects: Seq::empty(), ..s2 },
                state: next_machine(m1, t),
                rng: r1,
            }
            &&& effects == s2.effects
            &&& changed == (t.update().changes_view() || !(t is Stay))
        };
    let input = trim(raw@);
    let res = command_result(c.session.fs, input);
    let h = c.session.history.push((EntryKind::Command, input));
    assert(s1.history == h);
    match t {
        TransitionView::Change(a, u) => {
            assert(a.entry_lines() == entered_lines(a.runtime.kind()));
            assert(c2.session.history =~= command_history(c.session.history, input, res));
        },
        _ => {
            assert(c2.session.history =~= command_history(c.session.history, input, res));
        },
    }
}

/// A command line typed while the guessing game runs is recorded, trimmed,
/// and answered by the game, whose answer is printed; the game goes on
/// unless its answer ends it, and then the shell is back.
pub proof fn lemma_guess_command(
    c: CoreView,
    raw: String,
    c2: CoreView,
    effects: Seq<Seq<char>>,
    changed: bool,
)
    requires
        c.wf(),
        c.state matches MachineView::App(a) && a.runtime is Guess,
        trim(raw@).len() > 0,
        core_step(c, Action::SubmitCommand(raw), c2, effects, changed),
    ensures
        c.state matches MachineView::App(a) && a.runtime matches AppInstance::Guess(g) && {
            let o = respond_output(g, lowercase(trim(raw@)));
            &&& c2.session.history == c.session.history.push((EntryKind::Command, trim(raw@)))
                + output_entries(output_lines(o))
            &&& match o {
                OutputView::Exit(_) => c2.state == MachineView::Shell,
                OutputView::Continue(_) => {
                    &&& c2.state matches MachineView::App(b)
                    &&& b == a.running(b.runtime)
                    &&& b.runtime matches AppInstance::Guess(h)
                    &&& responded(g, lowercase(trim(raw@)), h)
                },
            }
        },
        effects == c.session.effects,
        changed,
        c2.rng == next_state(c.rng),
{
    let (m1, s1, r1, t) = choose|m1: MachineView, s1: SessionView, r1: u64, t: TransitionView|
        #[trigger] dispatched(c.state, c.session, c.rng, Action::SubmitCommand(raw), m1, s1, r1, t) && {
            let s2 = applied_session(s1, m1, t);
            &&& c2 == CoreView {
                session: SessionView { effects: Seq::empty(), ..s2 },
                state: next_machine(m1, t),
                rng: r1,
            }
            &&& effects == s2.effects
            &&& changed == (t.update().changes_view() || !(t is Stay))
        };
    lemma_trim_idempotent(raw@);
    assert(c.session.effects + Seq::<Seq<char>>::empty() =~= c.session.effects);
}

/// Escape ends a realtime app: its closing line is printed and the shell,
/// with its primary screen, is back.
pub proof fn lemma_escape_leaves_realtime_app(
    c: CoreView,
    c2: CoreView,
    effects: Seq<Seq<char>>,
    changed: bool,
)
    requires
        c.wf(),
        c.state.captures_keyboard(),
        core_step(c, Action::HandleKey(AppKey::Escape), c2, effects, changed),
    ensures
        c2.state == MachineView::Shell,
        c.state matches MachineView::App(a) && c2.session.history == c.session.history + output_entries(
            seq![
                if a.runtime is Snake {
                    "snake over"@
                } else {
                    "tetris over"@
                },
            ],
        ),
        !c2.session.screen.alternate_active,
        effects == c.session.effects,
        changed,
        c2.rng == c.rng,
{
    let (m1, s1, r1, t) = choose|m1: MachineView, s1: SessionView, r1: u64, t: TransitionView|
        #[trigger] dispatched(c.state, c.session, c.rng, Action::HandleKey(AppKey::Escape), m1, s1, r1, t) && {
            let s2 = applied_session(s1, m1, t);
            &&& c2 == CoreView {
                session: SessionView { effects: Seq::empty(), ..s2 },
                state: next_machine(m1, t),
                rng: r1,
            }
            &&& effects == s2.effects
            &&& changed == (t.update().changes_view() || !(t is Stay))
        };
    assert(c.session.effects + Seq::<Seq<char>>::empty() =~= c.session.effects);
}

} // verus!
