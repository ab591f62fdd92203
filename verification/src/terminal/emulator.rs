//! The two screens of the terminal: the primary one, which shows the
//! history, and the alternate one, which a full-screen app draws on.
use vstd::prelude::*;
use crate::apps::{AppLine, SegmentView, app_lines_view};
use crate::terminal::model::{ScreenLine, ScreenView, app_screen, screen_view};
use crate::text::{owned, strings_view};

verus! {

#[derive(Clone, Copy, PartialEq, Eq, Structural)]
enum ActiveScreen {
    Primary,
    Alternate,
}

/// The lines of one screen.
struct ScreenBuffer {
    lines: Vec<ScreenLine>,
}

impl ScreenBuffer {
    spec fn view(&self) -> Seq<ScreenView> {
        screen_view(self.lines@)
    }

    fn new(lines: Vec<ScreenLine>) -> (b: Self)
        ensures
            b.view() == screen_view(lines@),
    {
        ScreenBuffer { lines }
    }

    fn lines(&self) -> (r: &[ScreenLine])
        ensures
            screen_view(r@) == self.view(),
    {
        self.lines.as_slice()
    }

    fn clear(&mut self)
        ensures
            final(self).view() == Seq::<ScreenView>::empty(),
    {
        self.lines.clear();
        assert(self.view() =~= Seq::<ScreenView>::empty());
    }

    fn push(&mut self, line: ScreenLine)
        ensures
            final(self).view() == old(self).view().push(line@),
    {
        self.lines.push(line);
        assert(self.view() =~= old(self).view().push(line@));
    }

    fn replace(&mut self, lines: Vec<ScreenLine>)
        ensures
            final(self).view() == screen_view(lines@),
    {
        self.lines = lines;
    }
}

/// The state of the two screens, and which one is shown.
pub struct EmulatorView {
    pub primary: Seq<ScreenView>,
    pub alternate: Seq<ScreenView>,
    pub alternate_active: bool,
}

impl EmulatorView {
    /// The lines that are shown.
    pub open spec fn visible(self) -> Seq<ScreenView> {
        if self.alternate_active {
            self.alternate
        } else {
            self.primary
        }
    }
}

/// Output lines as screen lines.
pub open spec fn output_screen(lines: Seq<Seq<char>>) -> Seq<ScreenView> {
    lines.map_values(|t: Seq<char>| ScreenView::Output(t))
}

pub struct TerminalEmulator {
    primary: ScreenBuffer,
    alternate: ScreenBuffer,
    active: ActiveScreen,
}

impl View for TerminalEmulator {
    type V = EmulatorView;

    closed spec fn view(&self) -> EmulatorView {
        EmulatorView {
            primary: self.primary.view(),
            alternate: self.alternate.view(),
            alternate_active: self.active == ActiveScreen::Alternate,
        }
    }
}

impl TerminalEmulator {
    /// An emulator showing `lines` on its primary screen.
    pub fn new(lines: Vec<ScreenLine>) -> (e: Self)
        ensures
            e@ == (EmulatorView {
                primary: screen_view(lines@),
                alternate: Seq::empty(),
                alternate_active: false,
            }),
    {
        let e = TerminalEmulator {
            primary: ScreenBuffer::new(lines),
            alternate: ScreenBuffer::new(Vec::new()),
            active: ActiveScreen::Primary,
        };
        assert(e.alternate.view() =~= Seq::<ScreenView>::empty());
        e
    }

    /// Replaces the primary screen and goes back to it.
    pub fn reset_primary(&mut self, lines: Vec<ScreenLine>)
        ensures
            final(self)@ == (EmulatorView {
                primary: screen_view(lines@),
                alternate: Seq::empty(),
                alternate_active: false,
            }),
    {
        self.primary = ScreenBuffer::new(lines);
        self.alternate.clear();
        self.active = ActiveScreen::Primary;
    }

    /// Writes a command line on the primary screen.
    pub fn write_command(&mut self, command: &str)
        ensures
            final(self)@ == (EmulatorView {
                primary: old(self)@.primary.push(ScreenView::Command(command@)),
                ..old(self)@
            }),
    {
        self.primary.push(ScreenLine::command(owned(command)));
    }

    /// Writes output lines on the primary screen.
    pub fn write_output_lines(&mut self, lines: Vec<String>)
        ensures
            final(self)@ == (EmulatorView {
                primary: old(self)@.primary + output_screen(strings_view(lines@)),
                ..old(self)@
            }),
    {
        let ghost start = self.primary.view();
        let ghost all = strings_view(lines@);
        let mut i: usize = 0;
        while i < lines.len()
            invariant
                i <= lines@.len(),
                all == strings_view(lines@),
                self.primary.view() == start + output_screen(all.subrange(0, i as int)),
                self.alternate == old(self).alternate,
                self.active == old(self).active,
            decreases lines@.len() - i,
        {
            self.primary.push(ScreenLine::output(owned(lines[i].as_str())));
            assert(output_screen(all.subrange(0, i + 1)) =~= output_screen(all.subrange(0, i as int)).push(
                ScreenView::Output(all[i as int]),
            ));
            i = i + 1;
        }
        assert(all.subrange(0, lines@.len() as int) =~= all);
    }

    /// Shows `lines` on the alternate screen when `enabled`, else clears it
    /// and shows the primary screen.
    pub fn sync_alternate_screen(&mut self, lines: &[AppLine], enabled: bool)
        ensures
            final(self)@ == (if enabled {
                EmulatorView {
                    alternate: app_screen(app_lines_view(lines@)),
                    alternate_active: true,
                    ..old(self)@
                }
            } else {
                EmulatorView { alternate: Seq::empty(), alternate_active: false, ..old(self)@ }
            }),
    {
        if enabled {
            let mut screen: Vec<ScreenLine> = Vec::new();
            let mut i: usize = 0;
            while i < lines.len()
                invariant
                    i <= lines@.len(),
                    screen@.len() == i,
                    forall|j: int| 0 <= j < i ==> (#[trigger] screen@[j])@ == ScreenView::App(lines@[j]@),
                decreases lines@.len() - i,
            {
                screen.push(ScreenLine::from_app_line(&lines[i]));
                i = i + 1;
            }
            assert(screen_view(screen@) =~= app_screen(app_lines_view(lines@)));
            self.alternate.replace(screen);
            self.active = ActiveScreen::Alternate;
        } else {
            self.alternate.clear();
            self.active = ActiveScreen::Primary;
        }
    }

    /// The lines of the screen that is shown.
    pub fn visible_lines(&self) -> (r: &[ScreenLine])
        ensures
            screen_view(r@) == self@.visible(),
    {
        match self.active {
            ActiveScreen::Primary => self.primary.lines(),
            ActiveScreen::Alternate => self.alternate.lines(),
        }
    }
}

impl Default for TerminalEmulator {
    fn default() -> (e: Self)
        ensures
            e@ == (EmulatorView {
                primary: Seq::empty(),
                alternate: Seq::empty(),
                alternate_active: false,
            }),
    {
        let e = Self::new(Vec::new());
        assert(screen_view(Seq::<ScreenLine>::empty()) =~= Seq::<ScreenView>::empty());
        e
    }
}

} // verus!
