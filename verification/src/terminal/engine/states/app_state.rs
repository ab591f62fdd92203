//! The state in which the terminal runs an app.
use vstd::prelude::*;
use crate::apps::{
    AppInstance, AppKey, AppKind, AppLine, AppMode, AppOutput, AppRegistry, AppRuntime, OutputView,
    SegmentView, app_lines_view, app_view, command_step, copy_app_lines, key_step, mode_of,
    output_view, plain_line, start_lines_of, started, text_lines, tick_step,
};
use crate::terminal::engine::states::{
    State, StateContext, StateTransition, StateUpdate, TransitionView, output_of, quiet_update,
    refresh_update, transition_of,
};
use crate::text::strings_view;

verus! {

/// A running app: its mode, the app itself, the lines it opens with, and,
/// for a realtime app, those lines as the top of what it draws.
pub struct AppState {
    mode: AppMode,
    runtime: AppInstance,
    enter_lines: Vec<String>,
    intro_view: Vec<AppLine>,
}

pub struct AppStateView {
    pub mode: AppMode,
    pub runtime: AppInstance,
    pub enter_lines: Seq<Seq<char>>,
    pub intro_view: Seq<Seq<SegmentView>>,
}

impl AppState {
    /// The state as plain values.
    pub closed spec fn model(&self) -> AppStateView {
        AppStateView {
            mode: self.mode,
            runtime: self.runtime,
            enter_lines: strings_view(self.enter_lines@),
            intro_view: app_lines_view(self.intro_view@),
        }
    }
}

/// Lines of text as unstyled lines.
pub open spec fn plain_lines(lines: Seq<Seq<char>>) -> Seq<Seq<SegmentView>> {
    lines.map_values(|t: Seq<char>| plain_line(t))
}

/// The state of a freshly started app of kind `kind`, running `a`.
pub open spec fn launched(kind: AppKind, a: AppInstance) -> AppStateView {
    AppStateView {
        mode: mode_of(kind),
        runtime: a,
        enter_lines: start_lines_of(kind),
        intro_view: if mode_of(kind) == AppMode::Realtime {
            plain_lines(start_lines_of(kind))
        } else {
            Seq::empty()
        },
    }
}

impl AppStateView {
    /// The app is consistent and runs in the mode of its kind.
    pub open spec fn wf(self) -> bool {
        &&& self.runtime.valid()
        &&& self.mode == self.runtime.kind_mode()
    }

    /// What the state draws: a realtime app under its opening lines.
    pub open spec fn drawn(self) -> Seq<Seq<SegmentView>> {
        if self.mode == AppMode::Realtime {
            self.intro_view + app_view(self.runtime)
        } else {
            app_view(self.runtime)
        }
    }

    /// The lines printed on entering: an interactive app prints its
    /// opening lines, a realtime one draws them instead.
    pub open spec fn entry_lines(self) -> Seq<Seq<char>> {
        if self.mode == AppMode::Realtime {
            Seq::empty()
        } else {
            self.enter_lines
        }
    }

    /// The state once entered.
    pub open spec fn entered(self) -> AppStateView {
        if self.mode == AppMode::Realtime {
            self
        } else {
            AppStateView { enter_lines: Seq::empty(), ..self }
        }
    }

    /// The same state running `b`.
    pub open spec fn running(self, b: AppInstance) -> AppStateView {
        AppStateView { runtime: b, ..self }
    }
}

/// A command typed while the app `a` runs: a realtime app ignores it,
/// an interactive one answers it.
pub open spec fn app_command(a: AppStateView, input: Seq<char>, b: AppStateView, t: TransitionView) -> bool {
    if a.mode == AppMode::Realtime {
        t == TransitionView::Stay(quiet_update()) && b == a
    } else {
        &&& t == transition_of(output_of(t))
        &&& output_of(t) matches Some(o) && command_step(a.runtime, input, b.runtime, o)
        &&& b == a.running(b.runtime)
    }
}

/// A key pressed while the app `a` runs.
pub open spec fn app_key(a: AppStateView, key: AppKey, b: AppStateView, t: TransitionView) -> bool {
    &&& t == transition_of(output_of(t))
    &&& key_step(a.runtime, key, b.runtime, output_of(t))
    &&& b == a.running(b.runtime)
}

/// A clock tick while the app `a` runs: only a realtime app moves, and only
/// while its move comes back; a snake with nowhere left to put food stays
/// where it is.
pub open spec fn app_tick(a: AppStateView, b: AppStateView, t: TransitionView) -> bool {
    if a.mode != AppMode::Realtime || !a.runtime.tick_returns() {
        t == TransitionView::Stay(quiet_update()) && b == a
    } else {
        &&& t == transition_of(output_of(t))
        &&& tick_step(a.runtime, b.runtime, output_of(t))
        &&& b == a.running(b.runtime)
    }
}

impl AppState {
    /// Starts an app of kind `kind` whose random choices come from `seed`.
    pub fn launch(kind: AppKind, seed: u64) -> (s: Self)
        ensures
            s.model() == launched(kind, s.model().runtime),
            started(kind, seed, s.model().runtime),
            s.model().wf(),
    {
        let (runtime, enter_lines) = AppRegistry::launch(kind, seed);
        let mode = runtime.mode();
        let intro_view = if mode == AppMode::Realtime {
            text_lines(&enter_lines)
        } else {
            Vec::new()
        };
        let s = AppState { mode, runtime, enter_lines, intro_view };
        proof {
            if mode == AppMode::Realtime {
                assert(s.model().intro_view =~= plain_lines(start_lines_of(kind)));
            } else {
                assert(s.model().intro_view =~= Seq::<Seq<SegmentView>>::empty());
            }
        }
        s
    }

    /// The transition an app's answer calls for.
    fn from_output(output: AppOutput) -> (t: StateTransition)
        ensures
            t@ == transition_of(Some(output@)),
    {
        match output {
            AppOutput::Continue(lines) => {
                let mut update = StateUpdate::with_lines(lines);
                update.refresh_view = true;
                StateTransition::Stay(update)
            },
            AppOutput::Exit(lines) => {
                let mut update = StateUpdate::with_lines(lines);
                update.refresh_view = true;
                StateTransition::Exit(update)
            },
        }
    }

    /// The transition an optional answer calls for.
    fn from_optional_output(output: Option<AppOutput>) -> (t: StateTransition)
        ensures
            t@ == transition_of(output_view(output)),
    {
        match output {
            Some(o) => Self::from_output(o),
            None => StateTransition::stay(),
        }
    }
}

impl State for AppState {
    open spec fn well_formed(&self) -> bool {
        self.model().wf()
    }

    fn on_enter(&mut self) -> (lines: Vec<String>)
        ensures
            strings_view(lines@) == old(self).model().entry_lines(),
            final(self).model() == old(self).model().entered(),
    {
        self.runtime.on_enter();
        if self.mode == AppMode::Realtime {
            let lines: Vec<String> = Vec::new();
            assert(strings_view(lines@) =~= Seq::<Seq<char>>::empty());
            lines
        } else {
            let mut lines: Vec<String> = Vec::new();
            lines.append(&mut self.enter_lines);
            assert(strings_view(self.enter_lines@) =~= Seq::<Seq<char>>::empty());
            lines
        }
    }

    fn on_exit(&mut self)
        ensures
            final(self).model() == old(self).model(),
    {
        self.runtime.on_exit();
    }

    fn handle_command(&mut self, input: &str, context: &StateContext) -> (t: StateTransition)
        ensures
            app_command(old(self).model(), input@, final(self).model(), t@),
    {
        if self.mode == AppMode::Realtime {
            return StateTransition::stay();
        }
        let out = self.runtime.handle_command(input);
        Self::from_output(out)
    }

    fn handle_key(&mut self, key: AppKey) -> (t: StateTransition)
        ensures
            app_key(old(self).model(), key, final(self).model(), t@),
    {
        let out = self.runtime.handle_key(key);
        Self::from_optional_output(out)
    }

    fn tick(&mut self) -> (t: StateTransition)
        ensures
            app_tick(old(self).model(), final(self).model(), t@),
    {
        if self.mode != AppMode::Realtime {
            return StateTransition::stay();
        }
        if !self.runtime.can_tick() {
            return StateTransition::stay();
        }
        let out = self.runtime.tick();
        Self::from_optional_output(out)
    }

    fn view(&self) -> (lines: Vec<AppLine>)
        ensures
            app_lines_view(lines@) == self.model().drawn(),
    {
        if self.mode != AppMode::Realtime {
            return self.runtime.view();
        }
        let mut lines = copy_app_lines(&self.intro_view);
        let mut rest = self.runtime.view();
        lines.append(&mut rest);
        assert(app_lines_view(lines@) =~= self.model().drawn());
        lines
    }

    fn prompt_enabled(&self) -> (r: bool)
        ensures
            r == (self.model().mode == AppMode::Interactive),
    {
        self.mode == AppMode::Interactive
    }

    fn captures_keyboard(&self) -> (r: bool)
        ensures
            r == (self.model().mode == AppMode::Realtime),
    {
        self.mode == AppMode::Realtime
    }

    fn uses_alternate_screen(&self) -> (r: bool)
        ensures
            r == (self.model().mode == AppMode::Realtime),
    {
        self.mode == AppMode::Realtime
    }
}

} // verus!
