//! What a terminal session keeps: its file tree, its history, the effects
//! waiting to be performed and the screens that show it all.
use vstd::prelude::*;
use crate::apps::{AppLine, app_lines_view};
use crate::terminal::emulator::{EmulatorView, TerminalEmulator, output_screen};
use crate::terminal::model::{
    Effect, Entry, EntryKind, EntryView, ScreenLine, ScreenView, app_screen, effects_view,
    entries_view, entry_screen, history_screen, screen_view,
};
use crate::terminal_fs::{FsView, LinkEntry, TerminalFs, link_entries_view};
use crate::text::{owned, strings_view};

verus! {

/// The text a command is recorded as: what was typed, or a single space
/// when nothing was.
pub open spec fn recorded(trimmed: Seq<char>) -> Seq<char> {
    if trimmed.len() == 0 {
        " "@
    } else {
        trimmed
    }
}

/// Output lines as history entries.
pub open spec fn output_entries(lines: Seq<Seq<char>>) -> Seq<EntryView> {
    lines.map_values(|t: Seq<char>| (EntryKind::Output, t))
}

pub struct SessionView {
    pub fs: FsView,
    pub history: Seq<EntryView>,
    pub effects: Seq<Seq<char>>,
    pub screen: EmulatorView,
}

impl SessionView {
    /// The tree is well formed and the primary screen shows the history.
    pub open spec fn valid(self) -> bool {
        &&& self.fs.valid()
        &&& self.screen.primary == history_screen(self.history)
    }
}

/// Appending entries to a history appends their lines to its screen.
pub proof fn lemma_history_screen_append(h: Seq<EntryView>, more: Seq<EntryView>)
    ensures
        history_screen(h + more) == history_screen(h) + history_screen(more),
{
    assert(history_screen(h + more) =~= history_screen(h) + history_screen(more));
}

/// Output entries are shown as output lines.
pub proof fn lemma_output_entries_screen(lines: Seq<Seq<char>>)
    ensures
        history_screen(output_entries(lines)) == output_screen(lines),
{
    assert(history_screen(output_entries(lines)) =~= output_screen(lines));
}

pub struct TerminalSession {
    terminal_fs: TerminalFs,
    history: Vec<Entry>,
    effects: Vec<Effect>,
    screen: TerminalEmulator,
}

impl View for TerminalSession {
    type V = SessionView;

    closed spec fn view(&self) -> SessionView {
        SessionView {
            fs: self.terminal_fs@,
            history: entries_view(self.history@),
            effects: effects_view(self.effects@),
            screen: self.screen@,
        }
    }
}

/// The screen lines of a history.
fn screen_of(history: &[Entry]) -> (r: Vec<ScreenLine>)
    ensures
        screen_view(r@) == history_screen(entries_view(history@)),
{
    let mut r: Vec<ScreenLine> = Vec::new();
    let mut i: usize = 0;
    while i < history.len()
        invariant
            i <= history@.len(),
            r@.len() == i,
            forall|j: int| 0 <= j < i ==> (#[trigger] r@[j])@ == entry_screen(history@[j]@),
        decreases history@.len() - i,
    {
        r.push(ScreenLine::from_entry(&history[i]));
        i = i + 1;
    }
    assert(screen_view(r@) =~= history_screen(entries_view(history@)));
    r
}

impl TerminalSession {
    /// A session on `terminal_fs` whose history is `history`, with its
    /// primary screen showing it.
    pub fn new(terminal_fs: TerminalFs, history: Vec<Entry>) -> (s: Self)
        requires
            terminal_fs@.valid(),
        ensures
            s@ == (SessionView {
                fs: terminal_fs@,
                history: entries_view(history@),
                effects: Seq::empty(),
                screen: EmulatorView {
                    primary: history_screen(entries_view(history@)),
                    alternate: Seq::empty(),
                    alternate_active: false,
                },
            }),
            s@.valid(),
    {
        let lines = screen_of(history.as_slice());
        let s = TerminalSession {
            terminal_fs,
            history,
            effects: Vec::new(),
            screen: TerminalEmulator::new(lines),
        };
        assert(effects_view(s.effects@) =~= Seq::<Seq<char>>::empty());
        s
    }

    pub fn history(&self) -> (r: &[Entry])
        ensures
            entries_view(r@) == self@.history,
    {
        self.history.as_slice()
    }

    pub fn links(&self) -> (r: &Vec<LinkEntry>)
        ensures
            link_entries_view(r@) == self@.fs.links,
    {
        self.terminal_fs.links()
    }

    pub fn terminal_fs(&self) -> (r: &TerminalFs)
        ensures
            r@ == self@.fs,
    {
        &self.terminal_fs
    }

    /// Starts over with `history`: pending effects are dropped and the
    /// primary screen shows the new history.
    pub fn reset(&mut self, history: Vec<Entry>)
        requires
            old(self)@.valid(),
        ensures
            final(self)@ == (SessionView {
                fs: old(self)@.fs,
                history: entries_view(history@),
                effects: Seq::empty(),
                screen: EmulatorView {
                    primary: history_screen(entries_view(history@)),
                    alternate: Seq::empty(),
                    alternate_active: false,
                },
            }),
            final(self)@.valid(),
    {
        let lines = screen_of(history.as_slice());
        self.history = history;
        self.effects.clear();
        self.screen.reset_primary(lines);
        assert(effects_view(self.effects@) =~= Seq::<Seq<char>>::empty());
    }

    /// Records a command line; an empty one is recorded as a space.
    pub fn record_command(&mut self, trimmed: &str)
        requires
            old(self)@.valid(),
        ensures
            final(self)@ == (SessionView {
                history: old(self)@.history.push((EntryKind::Command, recorded(trimmed@))),
                screen: EmulatorView {
                    primary: old(self)@.screen.primary.push(
                        ScreenView::Command(recorded(trimmed@)),
                    ),
                    ..old(self)@.screen
                },
                ..old(self)@
            }),
            final(self)@.valid(),
    {
        let text = if trimmed.unicode_len() == 0 {
            owned(" ")
        } else {
            owned(trimmed)
        };
        proof {
            reveal_strlit(" ");
        }
        self.screen.write_command(text.as_str());
        self.history.push(Entry::command(text));
        proof {
            assert(entries_view(self.history@) =~= old(self)@.history.push(
                (EntryKind::Command, recorded(trimmed@)),
            ));
            assert(history_screen(entries_view(self.history@)) =~= history_screen(
                old(self)@.history,
            ).push(ScreenView::Command(recorded(trimmed@))));
        }
    }

    /// Appends output lines to the history and its screen.
    pub fn append_output(&mut self, lines: Vec<String>)
        requires
            old(self)@.valid(),
        ensures
            final(self)@ == (SessionView {
                history: old(self)@.history + output_entries(strings_view(lines@)),
                screen: EmulatorView {
                    primary: old(self)@.screen.primary + output_screen(strings_view(lines@)),
                    ..old(self)@.screen
                },
                ..old(self)@
            }),
            final(self)@.valid(),
    {
        let ghost all = strings_view(lines@);
        let mut i: usize = 0;
        while i < lines.len()
            invariant
                i <= lines@.len(),
                all == strings_view(lines@),
                entries_view(self.history@) == old(self)@.history + output_entries(
                    all.subrange(0, i as int),
                ),
                self.terminal_fs == old(self).terminal_fs,
                self.effects == old(self).effects,
                self.screen == old(self).screen,
            decreases lines@.len() - i,
        {
            let ghost before = self.history@;
            self.history.push(Entry::output(owned(lines[i].as_str())));
            assert(entries_view(self.history@) =~= entries_view(before).push(
                (EntryKind::Output, all[i as int]),
            ));
            assert(output_entries(all.subrange(0, i + 1)) =~= output_entries(
                all.subrange(0, i as int),
            ).push((EntryKind::Output, all[i as int])));
            assert(entries_view(self.history@) =~= old(self)@.history + output_entries(
                all.subrange(0, i + 1),
            ));
            i = i + 1;
        }
        assert(all.subrange(0, lines@.len() as int) =~= all);
        self.screen.write_output_lines(lines);
        proof {
            lemma_history_screen_append(old(self)@.history, output_entries(all));
            lemma_output_entries_screen(all);
        }
    }

    /// Queues an effect for the page.
    pub fn push_effect(&mut self, effect: Effect)
        ensures
            final(self)@ == (SessionView {
                effects: old(self)@.effects.push(effect@),
                ..old(self)@
            }),
    {
        self.effects.push(effect);
        assert(effects_view(self.effects@) =~= old(self)@.effects.push(effect@));
    }

    /// Hands over the queued effects, leaving none.
    pub fn take_effects(&mut self) -> (r: Vec<Effect>)
        ensures
            effects_view(r@) == old(self)@.effects,
            final(self)@ == (SessionView { effects: Seq::empty(), ..old(self)@ }),
    {
        let mut r: Vec<Effect> = Vec::new();
        r.append(&mut self.effects);
        assert(effects_view(self.effects@) =~= Seq::<Seq<char>>::empty());
        assert(effects_view(r@) =~= old(self)@.effects);
        r
    }

    /// Shows the running app's `view` on the alternate screen when
    /// `alternate`, else shows the primary screen.
    pub fn sync_state_view(&mut self, view: Vec<AppLine>, alternate: bool)
        ensures
            final(self)@ == (SessionView {
                screen: if alternate {
                    EmulatorView {
                        alternate: app_screen(app_lines_view(view@)),
                        alternate_active: true,
                        ..old(self)@.screen
                    }
                } else {
                    EmulatorView {
                        alternate: Seq::empty(),
                        alternate_active: false,
                        ..old(self)@.screen
                    }
                },
                ..old(self)@
            }),
    {
        self.screen.sync_alternate_screen(view.as_slice(), alternate);
    }

    /// The lines of the screen that is shown.
    pub fn visible_lines(&self) -> (r: &[ScreenLine])
        ensures
            screen_view(r@) == self@.screen.visible(),
    {
        self.screen.visible_lines()
    }
}

} // verus!
