//! Shell commands: what running one asks of the terminal, the built-in
//! commands and the registry that finds and runs them.
pub mod builtin;
pub mod registry;

use vstd::prelude::*;
use crate::apps::AppKind;
use crate::terminal_fs::FsView;
use crate::text::{strings_view, copy_strings, copy_string};

pub use self::registry::CommandRegistry;

verus! {

/// What a terminal offers its commands: printing the list of commands or a
/// directory listing, starting an app, starting over, printing lines and
/// opening a link.
pub trait TerminalActions {
    /// The terminal's own consistency condition, which every action keeps.
    spec fn ready(&self) -> bool;

    fn show_help(&mut self)
        requires
            old(self).ready(),
        ensures
            final(self).ready(),
    ;

    fn list_directory(&mut self, target: &str)
        requires
            old(self).ready(),
        ensures
            final(self).ready(),
    ;

    fn launch_app(&mut self, kind: AppKind)
        requires
            old(self).ready(),
        ensures
            final(self).ready(),
    ;

    fn reset_terminal(&mut self)
        requires
            old(self).ready(),
        ensures
            final(self).ready(),
    ;

    fn append_output(&mut self, lines: Vec<String>)
        requires
            old(self).ready(),
        ensures
            final(self).ready(),
    ;

    fn open_link(&mut self, href: String)
        requires
            old(self).ready(),
        ensures
            final(self).ready(),
    ;
}

/// A command line split into the command's name and its target.
pub struct CommandInvocation {
    pub name: Vec<char>,
    pub target: Vec<char>,
}

/// What running a command asks of the terminal: lines to print, and
/// possibly an app to start, a link to open, or a reset of the screen.
pub struct CommandResult {
    lines: Vec<String>,
    start_program: Option<AppKind>,
    open_link: Option<String>,
    reset_terminal: bool,
}

pub struct ResultView {
    pub lines: Seq<Seq<char>>,
    pub start_program: Option<AppKind>,
    pub open_link: Option<Seq<char>>,
    pub reset_terminal: bool,
}

impl View for CommandResult {
    type V = ResultView;

    closed spec fn view(&self) -> ResultView {
        ResultView {
            lines: strings_view(self.lines@),
            start_program: self.start_program,
            open_link: match self.open_link {
                Some(h) => Some(h@),
                None => None,
            },
            reset_terminal: self.reset_terminal,
        }
    }
}

/// A result that only prints `lines`.
pub open spec fn lines_result(lines: Seq<Seq<char>>) -> ResultView {
    ResultView { lines, start_program: None, open_link: None, reset_terminal: false }
}

impl Default for CommandResult {
    fn default() -> (r: Self)
        ensures
            r@ == lines_result(Seq::empty()),
    {
        let r = CommandResult {
            lines: Vec::new(),
            start_program: None,
            open_link: None,
            reset_terminal: false,
        };
        assert(strings_view(r.lines@) =~= Seq::<Seq<char>>::empty());
        r
    }
}

impl CommandResult {
    pub fn with_lines(lines: Vec<String>) -> (r: Self)
        ensures
            r@ == lines_result(strings_view(lines@)),
    {
        CommandResult { lines, start_program: None, open_link: None, reset_terminal: false }
    }

    pub fn with_program(kind: AppKind, lines: Vec<String>) -> (r: Self)
        ensures
            r@ == (ResultView {
                lines: strings_view(lines@),
                start_program: Some(kind),
                open_link: None,
                reset_terminal: false,
            }),
    {
        CommandResult { lines, start_program: Some(kind), open_link: None, reset_terminal: false }
    }

    pub fn with_open_link(href: String, lines: Vec<String>) -> (r: Self)
        ensures
            r@ == (ResultView {
                lines: strings_view(lines@),
                start_program: None,
                open_link: Some(href@),
                reset_terminal: false,
            }),
    {
        CommandResult { lines, start_program: None, open_link: Some(href), reset_terminal: false }
    }

    pub fn reset_terminal() -> (r: Self)
        ensures
            r@ == (ResultView {
                lines: Seq::empty(),
                start_program: None,
                open_link: None,
                reset_terminal: true,
            }),
    {
        let r = CommandResult {
            lines: Vec::new(),
            start_program: None,
            open_link: None,
            reset_terminal: true,
        };
        assert(strings_view(r.lines@) =~= Seq::<Seq<char>>::empty());
        r
    }

    pub fn lines(&self) -> (r: &[String])
        ensures
            strings_view(r@) == self@.lines,
    {
        self.lines.as_slice()
    }

    /// A copy of the lines.
    pub fn lines_vec(&self) -> (r: Vec<String>)
        ensures
            strings_view(r@) == self@.lines,
    {
        copy_strings(&self.lines)
    }

    pub fn start_program(&self) -> (r: Option<AppKind>)
        ensures
            r == self@.start_program,
    {
        self.start_program
    }

    pub fn open_link(&self) -> (r: Option<&str>)
        ensures
            match r {
                Some(h) => self@.open_link == Some(h@),
                None => self@.open_link is None,
            },
    {
        match &self.open_link {
            Some(h) => Some(h.as_str()),
            None => None,
        }
    }

    /// A copy of the link to open.
    pub fn open_link_string(&self) -> (r: Option<String>)
        ensures
            match r {
                Some(h) => self@.open_link == Some(h@),
                None => self@.open_link is None,
            },
    {
        match &self.open_link {
            Some(h) => Some(copy_string(h)),
            None => None,
        }
    }

    pub fn should_reset_terminal(&self) -> (r: bool)
        ensures
            r == self@.reset_terminal,
    {
        self.reset_terminal
    }
}

/// A command the shell knows by name.
pub trait BuiltinCommand {
    spec fn spec_name(&self) -> Seq<char>;

    spec fn spec_aliases(&self) -> Seq<Seq<char>>;

    /// What running the command with `target` gives, against the file tree
    /// `fs`.
    spec fn spec_execute(&self, target: Seq<char>, fs: FsView) -> ResultView;

    fn name(&self) -> (r: &'static str)
        ensures
            r@ == self.spec_name(),
    ;

    fn aliases(&self) -> (r: Vec<&'static str>)
        ensures
            r@.map_values(|a: &str| a@) == self.spec_aliases(),
    ;

    fn execute(&self, target: &str, registry: &CommandRegistry) -> (r: CommandResult)
        requires
            registry.valid(),
        ensures
            r@ == self.spec_execute(target@, registry@),
    ;
}

} // verus!
