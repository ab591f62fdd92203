//! What the terminal shows: history entries, screen lines, the effects it
//! asks the page to perform, and the view handed to the renderer.
use vstd::prelude::*;
use crate::apps::{AppLine, SegmentView, app_lines_view, copy_app_lines};
use crate::text::{copy_string, owned, same_text};

verus! {

#[derive(Clone, Copy, PartialEq, Eq, Structural, Debug)]
pub enum EntryKind {
    Command,
    Output,
}

/// A line of the shell's history: a command the user typed or a line of
/// output.
pub struct Entry {
    pub kind: EntryKind,
    pub text: String,
}

pub type EntryView = (EntryKind, Seq<char>);

impl View for Entry {
    type V = EntryView;

    open spec fn view(&self) -> EntryView {
        (self.kind, self.text@)
    }
}

/// Something the terminal asks the page to do.
pub enum Effect {
    OpenLink(String),
}

impl View for Effect {
    type V = Seq<char>;

    open spec fn view(&self) -> Seq<char> {
        match self {
            Effect::OpenLink(href) => href@,
        }
    }
}

/// A line on one of the terminal's screens.
pub enum ScreenLine {
    Command(String),
    Output(String),
    App(AppLine),
}

pub enum ScreenView {
    Command(Seq<char>),
    Output(Seq<char>),
    App(Seq<SegmentView>),
}

impl View for ScreenLine {
    type V = ScreenView;

    open spec fn view(&self) -> ScreenView {
        match self {
            ScreenLine::Command(t) => ScreenView::Command(t@),
            ScreenLine::Output(t) => ScreenView::Output(t@),
            ScreenLine::App(l) => ScreenView::App(l@),
        }
    }
}

pub open spec fn entries_view(v: Seq<Entry>) -> Seq<EntryView> {
    v.map_values(|e: Entry| e@)
}

pub open spec fn effects_view(v: Seq<Effect>) -> Seq<Seq<char>> {
    v.map_values(|e: Effect| e@)
}

pub open spec fn screen_view(v: Seq<ScreenLine>) -> Seq<ScreenView> {
    v.map_values(|l: ScreenLine| l@)
}

/// The screen line a history entry is shown as.
pub open spec fn entry_screen(e: EntryView) -> ScreenView {
    match e.0 {
        EntryKind::Command => ScreenView::Command(e.1),
        EntryKind::Output => ScreenView::Output(e.1),
    }
}

/// The screen lines a history is shown as.
pub open spec fn history_screen(h: Seq<EntryView>) -> Seq<ScreenView> {
    h.map_values(|e: EntryView| entry_screen(e))
}

/// The screen lines an app's view is shown as.
pub open spec fn app_screen(lines: Seq<Seq<SegmentView>>) -> Seq<ScreenView> {
    lines.map_values(|l: Seq<SegmentView>| ScreenView::App(l))
}

pub open spec fn prefix_of(kind: EntryKind) -> Seq<char> {
    match kind {
        EntryKind::Command => "$"@,
        EntryKind::Output => ">"@,
    }
}

pub open spec fn class_of(kind: EntryKind) -> Seq<char> {
    match kind {
        EntryKind::Command => "line-prefix command"@,
        EntryKind::Output => "line-prefix output"@,
    }
}

impl EntryKind {
    /// The marker shown before a line of this kind.
    pub fn prefix(self) -> (r: &'static str)
        ensures
            r@ == prefix_of(self),
    {
        match self {
            EntryKind::Command => "$",
            EntryKind::Output => ">",
        }
    }

    /// The style class of that marker.
    pub fn class_name(self) -> (r: &'static str)
        ensures
            r@ == class_of(self),
    {
        match self {
            EntryKind::Command => "line-prefix command",
            EntryKind::Output => "line-prefix output",
        }
    }
}

impl Entry {
    pub fn command(text: String) -> (e: Self)
        ensures
            e@ == (EntryKind::Command, text@),
    {
        Entry { kind: EntryKind::Command, text }
    }

    pub fn output(text: String) -> (e: Self)
        ensures
            e@ == (EntryKind::Output, text@),
    {
        Entry { kind: EntryKind::Output, text }
    }

    pub fn duplicate(&self) -> (e: Self)
        ensures
            e@ == self@,
    {
        Entry { kind: self.kind, text: copy_string(&self.text) }
    }
}

/// A copy of a history.
pub fn copy_entries(v: &[Entry]) -> (r: Vec<Entry>)
    ensures
        entries_view(r@) == entries_view(v@),
{
    let mut r: Vec<Entry> = Vec::new();
    let mut i: usize = 0;
    while i < v.len()
        invariant
            i <= v@.len(),
            r@.len() == i,
            forall|j: int| 0 <= j < i ==> (#[trigger] r@[j])@ == v@[j]@,
        decreases v@.len() - i,
    {
        r.push(v[i].duplicate());
        i = i + 1;
    }
    assert(entries_view(r@) =~= entries_view(v@));
    r
}

impl ScreenLine {
    pub fn command(text: String) -> (l: Self)
        ensures
            l@ == ScreenView::Command(text@),
    {
        ScreenLine::Command(text)
    }

    pub fn output(text: String) -> (l: Self)
        ensures
            l@ == ScreenView::Output(text@),
    {
        ScreenLine::Output(text)
    }

    pub fn from_app_line(line: &AppLine) -> (l: Self)
        ensures
            l@ == ScreenView::App(line@),
    {
        ScreenLine::App(line.duplicate())
    }

    pub fn from_entry(entry: &Entry) -> (l: Self)
        ensures
            l@ == entry_screen(entry@),
    {
        match entry.kind {
            EntryKind::Command => ScreenLine::Command(copy_string(&entry.text)),
            EntryKind::Output => ScreenLine::Output(copy_string(&entry.text)),
        }
    }

    pub fn duplicate(&self) -> (l: Self)
        ensures
            l@ == self@,
    {
        match self {
            ScreenLine::Command(t) => ScreenLine::Command(copy_string(t)),
            ScreenLine::Output(t) => ScreenLine::Output(copy_string(t)),
            ScreenLine::App(a) => ScreenLine::App(a.duplicate()),
        }
    }

    /// Whether two screen lines show the same thing.
    pub fn same_as(&self, other: &ScreenLine) -> (r: bool)
        ensures
            r == (self@ == other@),
    {
        match (self, other) {
            (ScreenLine::Command(a), ScreenLine::Command(b)) => same_text(a.as_str(), b.as_str()),
            (ScreenLine::Output(a), ScreenLine::Output(b)) => same_text(a.as_str(), b.as_str()),
            (ScreenLine::App(a), ScreenLine::App(b)) => a.same_as(b),
            _ => false,
        }
    }
}

/// A copy of a list of screen lines.
pub fn copy_screen(v: &[ScreenLine]) -> (r: Vec<ScreenLine>)
    ensures
        screen_view(r@) == screen_view(v@),
{
    let mut r: Vec<ScreenLine> = Vec::new();
    let mut i: usize = 0;
    while i < v.len()
        invariant
            i <= v@.len(),
            r@.len() == i,
            forall|j: int| 0 <= j < i ==> (#[trigger] r@[j])@ == v@[j]@,
        decreases v@.len() - i,
    {
        r.push(v[i].duplicate());
        i = i + 1;
    }
    assert(screen_view(r@) =~= screen_view(v@));
    r
}

/// What the renderer draws: the history, the running app's view, the lines
/// of the visible screen, and whether the prompt takes input.
pub struct ViewModel {
    history: Vec<Entry>,
    active_view: Vec<AppLine>,
    visible_lines: Vec<ScreenLine>,
    prompt_enabled: bool,
}

pub struct ViewModelView {
    pub history: Seq<EntryView>,
    pub active_view: Seq<Seq<SegmentView>>,
    pub visible_lines: Seq<ScreenView>,
    pub prompt_enabled: bool,
}

impl View for ViewModel {
    type V = ViewModelView;

    closed spec fn view(&self) -> ViewModelView {
        ViewModelView {
            history: entries_view(self.history@),
            active_view: app_lines_view(self.active_view@),
            visible_lines: screen_view(self.visible_lines@),
            prompt_enabled: self.prompt_enabled,
        }
    }
}

impl ViewModel {
    pub fn new(
        history: Vec<Entry>,
        active_view: Vec<AppLine>,
        visible_lines: Vec<ScreenLine>,
        prompt_enabled: bool,
    ) -> (v: Self)
        ensures
            v@ == (ViewModelView {
                history: entries_view(history@),
                active_view: app_lines_view(active_view@),
                visible_lines: screen_view(visible_lines@),
                prompt_enabled,
            }),
    {
        ViewModel { history, active_view, visible_lines, prompt_enabled }
    }

    pub fn history(&self) -> (r: &[Entry])
        ensures
            entries_view(r@) == self@.history,
    {
        self.history.as_slice()
    }

    pub fn active_view(&self) -> (r: &[AppLine])
        ensures
            app_lines_view(r@) == self@.active_view,
    {
        self.active_view.as_slice()
    }

    pub fn visible_lines(&self) -> (r: &[ScreenLine])
        ensures
            screen_view(r@) == self@.visible_lines,
    {
        self.visible_lines.as_slice()
    }

    pub fn prompt_enabled(&self) -> (r: bool)
        ensures
            r == self@.prompt_enabled,
    {
        self.prompt_enabled
    }
}

} // verus!
