//! The interactive programs the terminal can run, and what they share:
//! styled output lines, the keys they react to and what they answer.
pub mod guess;
pub mod snake;
pub mod tetris;

use vstd::prelude::*;
use crate::random::{RandomSource, seeded_state};
use crate::text::{owned, strings_view, copy_string, lowercase, same_text, trim};
use self::guess::GuessGame;
use self::snake::SnakeGame;
use self::tetris::TetrisGame;

verus! {

/// The view of a segment: its text and its optional style class.
pub type SegmentView = (Seq<char>, Option<Seq<char>>);

/// A run of text on an app line, optionally styled with a class name.
pub struct AppSegment {
    text: String,
    class_name: Option<&'static str>,
}

/// One line an app draws, made of segments.
pub struct AppLine {
    segments: Vec<AppSegment>,
}

#[derive(Clone, Copy, PartialEq, Eq, Structural, Debug)]
pub enum AppKind {
    Guess,
    Snake,
    Tetris,
}

/// Interactive apps read typed commands; realtime apps run on a clock and
/// read keys.
#[derive(Clone, Copy, PartialEq, Eq, Structural, Debug)]
pub enum AppMode {
    Interactive,
    Realtime,
}

#[derive(Clone, Copy, PartialEq, Eq, Structural, Debug)]
pub enum AppKey {
    Up,
    Down,
    Left,
    Right,
    Escape,
}

/// What an app answers: lines to print, and whether it keeps running.
pub enum AppOutput {
    Continue(Vec<String>),
    Exit(Vec<String>),
}

/// The view of an `AppOutput`.
pub enum OutputView {
    Continue(Seq<Seq<char>>),
    Exit(Seq<Seq<char>>),
}

impl View for AppSegment {
    type V = SegmentView;

    closed spec fn view(&self) -> SegmentView {
        (
            self.text@,
            match self.class_name {
                Some(c) => Some(c@),
                None => None,
            },
        )
    }
}

impl View for AppLine {
    type V = Seq<SegmentView>;

    closed spec fn view(&self) -> Seq<SegmentView> {
        self.segments@.map_values(|s: AppSegment| s@)
    }
}

impl View for AppOutput {
    type V = OutputView;

    open spec fn view(&self) -> OutputView {
        match self {
            AppOutput::Continue(lines) => OutputView::Continue(strings_view(lines@)),
            AppOutput::Exit(lines) => OutputView::Exit(strings_view(lines@)),
        }
    }
}

/// The view of an optional output.
pub open spec fn output_view(o: Option<AppOutput>) -> Option<OutputView> {
    match o {
        Some(out) => Some(out@),
        None => None,
    }
}

/// The views of a list of app lines.
pub open spec fn app_lines_view(v: Seq<AppLine>) -> Seq<Seq<SegmentView>> {
    v.map_values(|l: AppLine| l@)
}

/// An unstyled line holding `text`.
pub open spec fn plain_line(text: Seq<char>) -> Seq<SegmentView> {
    seq![(text, None)]
}

impl AppSegment {
    pub fn plain(value: String) -> (s: Self)
        ensures
            s@ == (value@, None::<Seq<char>>),
    {
        AppSegment { text: value, class_name: None }
    }

    pub fn styled(value: String, class_name: &'static str) -> (s: Self)
        ensures
            s@ == (value@, Some(class_name@)),
    {
        AppSegment { text: value, class_name: Some(class_name) }
    }

    pub fn text(&self) -> (r: &str)
        ensures
            r@ == self@.0,
    {
        self.text.as_str()
    }

    pub fn class_name(&self) -> (r: Option<&'static str>)
        ensures
            match r {
                Some(c) => self@.1 == Some(c@),
                None => self@.1 is None,
            },
    {
        self.class_name
    }

    /// Whether two segments hold the same text and style.
    pub fn same_as(&self, other: &AppSegment) -> (r: bool)
        ensures
            r == (self@ == other@),
    {
        if !same_text(self.text.as_str(), other.text.as_str()) {
            return false;
        }
        match (self.class_name, other.class_name) {
            (None, None) => true,
            (Some(a), Some(b)) => same_text(a, b),
            _ => false,
        }
    }

    /// A copy of this segment.
    pub fn duplicate(&self) -> (r: Self)
        ensures
            r@ == self@,
    {
        AppSegment { text: copy_string(&self.text), class_name: self.class_name }
    }
}

impl AppLine {
    /// A line with no segments.
    pub fn empty() -> (l: Self)
        ensures
            l@ == Seq::<SegmentView>::empty(),
    {
        let l = AppLine { segments: Vec::new() };
        assert(l@ =~= Seq::<SegmentView>::empty());
        l
    }

    /// An unstyled line holding `value`.
    pub fn text(value: String) -> (l: Self)
        ensures
            l@ == plain_line(value@),
    {
        let l = AppLine { segments: vec![AppSegment::plain(value)] };
        assert(l@ =~= plain_line(value@));
        l
    }

    pub fn segments(&self) -> (r: &[AppSegment])
        ensures
            r@.map_values(|s: AppSegment| s@) == self@,
    {
        self.segments.as_slice()
    }

    pub fn push_plain(&mut self, value: String)
        ensures
            final(self)@ == old(self)@.push((value@, None::<Seq<char>>)),
    {
        self.segments.push(AppSegment::plain(value));
        assert(self@ =~= old(self)@.push((value@, None::<Seq<char>>)));
    }

    pub fn push_styled(&mut self, value: String, class_name: &'static str)
        ensures
            final(self)@ == old(self)@.push((value@, Some(class_name@))),
    {
        self.segments.push(AppSegment::styled(value, class_name));
        assert(self@ =~= old(self)@.push((value@, Some(class_name@))));
    }

    /// Whether two lines hold the same segments.
    pub fn same_as(&self, other: &AppLine) -> (r: bool)
        ensures
            r == (self@ == other@),
    {
        if self.segments.len() != other.segments.len() {
            assert(self@.len() != other@.len());
            return false;
        }
        let mut i: usize = 0;
        while i < self.segments.len()
            invariant
                i <= self.segments@.len(),
                self.segments@.len() == other.segments@.len(),
                forall|j: int| 0 <= j < i ==> (#[trigger] self.segments@[j])@ == other.segments@[j]@,
            decreases self.segments@.len() - i,
        {
            if !self.segments[i].same_as(&other.segments[i]) {
                assert(self@[i as int] != other@[i as int]);
                return false;
            }
            i = i + 1;
        }
        assert(self@ =~= other@);
        true
    }

    /// A copy of this line.
    pub fn duplicate(&self) -> (r: Self)
        ensures
            r@ == self@,
    {
        let mut segments: Vec<AppSegment> = Vec::new();
        let mut i: usize = 0;
        while i < self.segments.len()
            invariant
                i <= self.segments@.len(),
                segments@.len() == i,
                forall|j: int| 0 <= j < i ==> (#[trigger] segments@[j])@ == self.segments@[j]@,
            decreases self.segments@.len() - i,
        {
            segments.push(self.segments[i].duplicate());
            i = i + 1;
        }
        let r = AppLine { segments };
        assert(r@ =~= self@);
        r
    }
}

impl Default for AppLine {
    fn default() -> (l: Self)
        ensures
            l@ == Seq::<SegmentView>::empty(),
    {
        AppLine::empty()
    }
}

/// A copy of a list of app lines.
pub fn copy_app_lines(v: &Vec<AppLine>) -> (r: Vec<AppLine>)
    ensures
        app_lines_view(r@) == app_lines_view(v@),
{
    let mut r: Vec<AppLine> = Vec::new();
    let mut i: usize = 0;
    while i < v.len()
        invariant
            i <= v@.len(),
            r@.len() == i,
            forall|j: int| 0 <= j < i ==> (#[trigger] r@[j])@ == v@[j]@,
        decreases v@.len() - i,
    {
        r.push(v[i].duplicate());
        i = i + 1;
    }
    assert(app_lines_view(r@) =~= app_lines_view(v@));
    r
}

/// Unstyled app lines holding `values`.
pub fn text_lines(values: &Vec<String>) -> (r: Vec<AppLine>)
    ensures
        app_lines_view(r@) == strings_view(values@).map_values(|t: Seq<char>| plain_line(t)),
{
    let mut r: Vec<AppLine> = Vec::new();
    let mut i: usize = 0;
    while i < values.len()
        invariant
            i <= values@.len(),
            r@.len() == i,
            forall|j: int| 0 <= j < i ==> (#[trigger] r@[j])@ == plain_line(values@[j]@),
        decreases values@.len() - i,
    {
        r.push(AppLine::text(copy_string(&values[i])));
        i = i + 1;
    }
    assert(app_lines_view(r@) =~= strings_view(values@).map_values(|t: Seq<char>| plain_line(t)));
    r
}

/// Owned copies of the given lines.
pub fn lines(values: &[&str]) -> (r: Vec<String>)
    ensures
        strings_view(r@) == values@.map_values(|s: &str| s@),
{
    let mut r: Vec<String> = Vec::new();
    let mut i: usize = 0;
    while i < values.len()
        invariant
            i <= values@.len(),
            r@.len() == i,
            forall|j: int| 0 <= j < i ==> (#[trigger] r@[j])@ == values@[j]@,
        decreases values@.len() - i,
    {
        r.push(owned(values[i]));
        i = i + 1;
    }
    assert(strings_view(r@) =~= values@.map_values(|s: &str| s@));
    r
}

/// The interface every app offers to the terminal that hosts it.
pub trait AppRuntime {
    /// The app's own consistency condition, which it keeps while it runs.
    spec fn valid(&self) -> bool;

    /// Whether a clock tick in this state comes back.
    spec fn tick_returns(&self) -> bool;

    fn handle_command(&mut self, input: &str) -> (out: AppOutput)
        requires
            old(self).valid(),
        ensures
            final(self).valid() || out is Exit,
    ;

    fn on_enter(&mut self)
        requires
            old(self).valid(),
        ensures
            final(self).valid(),
    ;

    fn handle_key(&mut self, key: AppKey) -> (out: Option<AppOutput>)
        requires
            old(self).valid(),
        ensures
            final(self).valid() || out matches Some(AppOutput::Exit(_)),
    ;

    /// Whether `tick` comes back in this state.
    fn can_tick(&self) -> (r: bool)
        requires
            self.valid(),
        ensures
            r == self.tick_returns(),
    ;

    fn tick(&mut self) -> (out: Option<AppOutput>)
        requires
            old(self).valid(),
            old(self).tick_returns(),
        ensures
            final(self).valid() || out matches Some(AppOutput::Exit(_)),
    ;

    fn view(&self) -> (lines: Vec<AppLine>)
        requires
            self.valid(),
    ;

    fn mode(&self) -> AppMode;

    fn on_exit(&mut self);
}

/// A running app of one of the three kinds.
pub enum AppInstance {
    Guess(GuessGame),
    Snake(SnakeGame),
    Tetris(TetrisGame),
}

impl AppInstance {
    pub open spec fn kind(&self) -> AppKind {
        match self {
            AppInstance::Guess(_) => AppKind::Guess,
            AppInstance::Snake(_) => AppKind::Snake,
            AppInstance::Tetris(_) => AppKind::Tetris,
        }
    }

    /// The mode an app of this kind runs in.
    pub open spec fn kind_mode(&self) -> AppMode {
        match self {
            AppInstance::Guess(_) => AppMode::Interactive,
            _ => AppMode::Realtime,
        }
    }
}

/// The mode an app of kind `kind` runs in.
pub open spec fn mode_of(kind: AppKind) -> AppMode {
    match kind {
        AppKind::Guess => AppMode::Interactive,
        _ => AppMode::Realtime,
    }
}

/// What an app answers to a typed command, and the app afterwards: the
/// guessing game answers the trimmed, lower-cased input; the others ignore
/// it.
pub open spec fn command_step(a: AppInstance, input: Seq<char>, b: AppInstance, o: OutputView) -> bool {
    match a {
        AppInstance::Guess(g) => {
            &&& b matches AppInstance::Guess(h)
            &&& o == guess::respond_output(g, lowercase(trim(input)))
            &&& guess::responded(g, lowercase(trim(input)), h)
        },
        _ => o == OutputView::Continue(Seq::empty()) && b == a,
    }
}

/// What an app answers to a key, and the app afterwards.
pub open spec fn key_step(a: AppInstance, key: AppKey, b: AppInstance, o: Option<OutputView>) -> bool {
    match a {
        AppInstance::Guess(_) => o is None && b == a,
        AppInstance::Snake(g) => {
            &&& b matches AppInstance::Snake(h)
            &&& o matches Some(v) && snake::key_step(g, key, h, v)
        },
        AppInstance::Tetris(g) => {
            &&& b matches AppInstance::Tetris(h)
            &&& o matches Some(v) && tetris::key_step(g, key, h, v)
        },
    }
}

/// What an app answers to a clock tick, and the app afterwards.
pub open spec fn tick_step(a: AppInstance, b: AppInstance, o: Option<OutputView>) -> bool {
    match a {
        AppInstance::Guess(_) => o is None && b == a,
        AppInstance::Snake(g) => {
            &&& b matches AppInstance::Snake(h)
            &&& o matches Some(v) && snake::tick_step(g, h, v)
        },
        AppInstance::Tetris(g) => {
            &&& b matches AppInstance::Tetris(h)
            &&& tetris::tick_step(g, h, o)
        },
    }
}

/// What an app draws.
pub open spec fn app_view(a: AppInstance) -> Seq<Seq<SegmentView>> {
    match a {
        AppInstance::Guess(_) => Seq::empty(),
        AppInstance::Snake(g) => snake::board_view(g),
        AppInstance::Tetris(g) => tetris::board_view(g),
    }
}

/// An app of kind `kind` just started from `seed`.
pub open spec fn started(kind: AppKind, seed: u64, a: AppInstance) -> bool {
    &&& a.kind() == kind
    &&& match a {
        AppInstance::Guess(g) => guess::fresh(g, seeded_state(seed)),
        AppInstance::Snake(g) => snake::fresh(g, seeded_state(seed)),
        AppInstance::Tetris(g) => tetris::fresh(g, seeded_state(seed)),
    }
}

/// The lines an app of kind `kind` opens with.
pub open spec fn start_lines_of(kind: AppKind) -> Seq<Seq<char>> {
    match kind {
        AppKind::Guess => guess::start_lines(),
        AppKind::Snake => snake::start_lines(),
        AppKind::Tetris => tetris::start_lines(),
    }
}

impl AppRuntime for AppInstance {
    open spec fn valid(&self) -> bool {
        match self {
            AppInstance::Guess(g) => g.is_valid(),
            AppInstance::Snake(g) => g.is_valid(),
            AppInstance::Tetris(g) => g.is_valid(),
        }
    }

    open spec fn tick_returns(&self) -> bool {
        match self {
            AppInstance::Snake(g) => !g.fills_board(),
            _ => true,
        }
    }

    fn handle_command(&mut self, input: &str) -> (out: AppOutput)
        ensures
            final(self).kind() == old(self).kind(),
            command_step(*old(self), input@, *final(self), out@),
    {
        match self {
            AppInstance::Guess(g) => g.handle_command(input),
            AppInstance::Snake(g) => g.handle_command(input),
            AppInstance::Tetris(g) => g.handle_command(input),
        }
    }

    fn on_enter(&mut self)
        ensures
            *final(self) == *old(self),
    {
    }

    fn handle_key(&mut self, key: AppKey) -> (out: Option<AppOutput>)
        ensures
            final(self).kind() == old(self).kind(),
            key_step(*old(self), key, *final(self), output_view(out)),
            !(*old(self) is Guess) && key == AppKey::Escape ==> (out matches Some(o) && o is Exit),
    {
        match self {
            AppInstance::Guess(g) => g.handle_key(key),
            AppInstance::Snake(g) => g.handle_key(key),
            AppInstance::Tetris(g) => g.handle_key(key),
        }
    }

    fn can_tick(&self) -> (r: bool) {
        match self {
            AppInstance::Guess(g) => g.can_tick(),
            AppInstance::Snake(g) => g.can_tick(),
            AppInstance::Tetris(g) => g.can_tick(),
        }
    }

    fn tick(&mut self) -> (out: Option<AppOutput>)
        ensures
            final(self).kind() == old(self).kind(),
            tick_step(*old(self), *final(self), output_view(out)),
    {
        match self {
            AppInstance::Guess(g) => g.tick(),
            AppInstance::Snake(g) => g.tick(),
            AppInstance::Tetris(g) => g.tick(),
        }
    }

    fn view(&self) -> (lines: Vec<AppLine>)
        ensures
            app_lines_view(lines@) == app_view(*self),
    {
        match self {
            AppInstance::Guess(g) => g.view(),
            AppInstance::Snake(g) => g.view(),
            AppInstance::Tetris(g) => g.view(),
        }
    }

    fn mode(&self) -> (m: AppMode)
        ensures
            m == self.kind_mode(),
    {
        match self {
            AppInstance::Guess(g) => g.mode(),
            AppInstance::Snake(g) => g.mode(),
            AppInstance::Tetris(g) => g.mode(),
        }
    }

    fn on_exit(&mut self)
        ensures
            *final(self) == *old(self),
    {
    }
}

/// Starts apps by kind.
pub struct AppRegistry;

impl AppRegistry {
    /// Starts an app of kind `kind` whose random choices come from `seed`,
    /// with its opening lines.
    pub fn launch(kind: AppKind, seed: u64) -> (r: (AppInstance, Vec<String>))
        ensures
            started(kind, seed, r.0),
            r.0.valid(),
            strings_view(r.1@) == start_lines_of(kind),
    {
        let rng = RandomSource::from_seed(seed);
        match kind {
            AppKind::Guess => {
                let (g, lines) = guess::launch(rng);
                (AppInstance::Guess(g), lines)
            },
            AppKind::Snake => {
                let (g, lines) = snake::launch(rng);
                (AppInstance::Snake(g), lines)
            },
            AppKind::Tetris => {
                let (g, lines) = tetris::launch(rng);
                (AppInstance::Tetris(g), lines)
            },
        }
    }
}

} // verus!
