//! What a fresh terminal shows.
use vstd::prelude::*;
use crate::terminal::model::{Entry, EntryKind, EntryView, ScreenLine, history_screen, screen_view};
use crate::text::owned;

verus! {

pub const BANNER_TEXT: &'static str = "terminal v1.0";

pub const HELP_PROMPT_TEXT: &'static str = "type `help` to begin";

/// The history a fresh terminal starts with: the banner and a hint.
pub open spec fn initial_history_view() -> Seq<EntryView> {
    seq![(EntryKind::Output, BANNER_TEXT@), (EntryKind::Output, HELP_PROMPT_TEXT@)]
}

pub fn initial_history() -> (r: Vec<Entry>)
    ensures
        crate::terminal::model::entries_view(r@) == initial_history_view(),
{
    let r = vec![Entry::output(owned(BANNER_TEXT)), Entry::output(owned(HELP_PROMPT_TEXT))];
    assert(crate::terminal::model::entries_view(r@) =~= initial_history_view());
    r
}

/// The screen of a fresh terminal: its history, line by line.
pub fn initial_screen() -> (r: Vec<ScreenLine>)
    ensures
        screen_view(r@) == history_screen(initial_history_view()),
{
    let r = vec![
        ScreenLine::output(owned(BANNER_TEXT)),
        ScreenLine::output(owned(HELP_PROMPT_TEXT)),
    ];
    assert(screen_view(r@) =~= history_screen(initial_history_view()));
    r
}

} // verus!
