//! The built-in commands: what each prints, starts or opens. The registry
//! holds clear, guess, help, ls and snake; about, github, linkedin, stack and
//! tetris are commands that can be run directly but that the shell does not
//! list or find.
use vstd::prelude::*;
use crate::apps::AppKind;
use crate::commands::{BuiltinCommand, CommandRegistry, CommandResult, ResultView, lines_result};
use crate::commands::registry::available;
use crate::terminal_fs::{FsView, lookup, normalized_target};
use crate::text::{join, join_strings, owned, one_line, push_str, string_of, strings_view};

verus! {

pub const GITHUB_URL: &'static str = "https://github.com/brettseton";

pub const LINKEDIN_URL: &'static str = "https://www.linkedin.com/in/brett-seton-b00776195";

pub open spec fn about_lines() -> Seq<Seq<char>> {
    seq![
        "Brett Seton"@,
        "Sydney, Australia"@,
        "Builds software across web, systems, and infrastructure."@,
    ]
}

pub open spec fn stack_lines() -> Seq<Seq<char>> {
    seq!["rust"@, "webassembly"@, "html"@, "css"@]
}

pub open spec fn usage_line(name: Seq<char>) -> Seq<Seq<char>> {
    seq!["usage: "@ + name]
}

/// Starting an app: only without a target, else the usage is printed.
pub open spec fn app_command(target: Seq<char>, name: Seq<char>, kind: AppKind) -> ResultView {
    if target.len() == 0 {
        ResultView { lines: Seq::empty(), start_program: Some(kind), open_link: None, reset_terminal: false }
    } else {
        lines_result(usage_line(name))
    }
}

/// Opening a link: only without a target, else the usage is printed.
pub open spec fn link_command(target: Seq<char>, name: Seq<char>, href: Seq<char>) -> ResultView {
    if target.len() == 0 {
        ResultView {
            lines: seq!["opening "@ + name + "..."@],
            start_program: None,
            open_link: Some(href),
            reset_terminal: false,
        }
    } else {
        lines_result(usage_line(name))
    }
}

/// Printing fixed lines: only without a target, else the usage is printed.
pub open spec fn text_command(target: Seq<char>, name: Seq<char>, text: Seq<Seq<char>>) -> ResultView {
    if target.len() == 0 {
        lines_result(text)
    } else {
        lines_result(usage_line(name))
    }
}

/// What `ls target` prints.
pub open spec fn ls_result(target: Seq<char>, fs: FsView) -> ResultView {
    match lookup(fs.directories, normalized_target(target)) {
        Some(entries) => lines_result(seq![join(entries, "  "@)]),
        None => lines_result(
            seq![
                "ls: "@ + (if target.len() == 0 {
                    "missing target"@
                } else {
                    target
                }) + ": no such directory"@,
            ],
        ),
    }
}

pub fn launch_app_command(target: &str, name: &str, kind: AppKind) -> (r: CommandResult)
    ensures
        r@ == app_command(target@, name@, kind),
{
    if target.unicode_len() == 0 {
        let r = CommandResult::with_program(kind, Vec::new());
        assert(strings_view(Seq::<String>::empty()) =~= Seq::<Seq<char>>::empty());
        r
    } else {
        CommandResult::with_lines(usage(name))
    }
}

pub fn launch_link_command(target: &str, name: &str, href: &str) -> (r: CommandResult)
    ensures
        r@ == link_command(target@, name@, href@),
{
    if target.unicode_len() == 0 {
        let mut msg: Vec<char> = Vec::new();
        push_str(&mut msg, "opening ");
        push_str(&mut msg, name);
        push_str(&mut msg, "...");
        let lines = vec![string_of(msg.as_slice())];
        assert(strings_view(lines@) =~= seq!["opening "@ + name@ + "..."@]);
        CommandResult::with_open_link(owned(href), lines)
    } else {
        CommandResult::with_lines(usage(name))
    }
}

fn usage(name: &str) -> (r: Vec<String>)
    ensures
        strings_view(r@) == usage_line(name@),
{
    let mut msg: Vec<char> = Vec::new();
    push_str(&mut msg, "usage: ");
    push_str(&mut msg, name);
    let r = vec![string_of(msg.as_slice())];
    assert(strings_view(r@) =~= usage_line(name@));
    r
}

pub struct AboutCommand;

pub struct ClearCommand;

pub struct GithubCommand;

pub struct GuessCommand;

pub struct HelpCommand;

pub struct LinkedInCommand;

pub struct LsCommand;

pub struct SnakeCommand;

pub struct StackCommand;

pub struct TetrisCommand;

impl BuiltinCommand for AboutCommand {
    open spec fn spec_name(&self) -> Seq<char> {
        "about"@
    }

    open spec fn spec_aliases(&self) -> Seq<Seq<char>> {
        Seq::empty()
    }

    open spec fn spec_execute(&self, target: Seq<char>, fs: FsView) -> ResultView {
        text_command(target, "about"@, about_lines())
    }

    fn name(&self) -> (r: &'static str) {
        "about"
    }

    fn aliases(&self) -> (r: Vec<&'static str>) {
        let r: Vec<&'static str> = Vec::new();
        assert(r@.map_values(|a: &str| a@) =~= Seq::<Seq<char>>::empty());
        r
    }

    fn execute(&self, target: &str, registry: &CommandRegistry) -> (r: CommandResult) {
        if target.unicode_len() == 0 {
            let lines = vec![
                owned("Brett Seton"),
                owned("Sydney, Australia"),
                owned("Builds software across web, systems, and infrastructure."),
            ];
            assert(strings_view(lines@) =~= about_lines());
            CommandResult::with_lines(lines)
        } else {
            CommandResult::with_lines(usage("about"))
        }
    }
}

impl BuiltinCommand for ClearCommand {
    open spec fn spec_name(&self) -> Seq<char> {
        "clear"@
    }

    open spec fn spec_aliases(&self) -> Seq<Seq<char>> {
        Seq::empty()
    }

    open spec fn spec_execute(&self, target: Seq<char>, fs: FsView) -> ResultView {
        ResultView { lines: Seq::empty(), start_program: None, open_link: None, reset_terminal: true }
    }

    fn name(&self) -> (r: &'static str) {
        "clear"
    }

    fn aliases(&self) -> (r: Vec<&'static str>) {
        let r: Vec<&'static str> = Vec::new();
        assert(r@.map_values(|a: &str| a@) =~= Seq::<Seq<char>>::empty());
        r
    }

    fn execute(&self, target: &str, registry: &CommandRegistry) -> (r: CommandResult) {
        CommandResult::reset_terminal()
    }
}

impl BuiltinCommand for GithubCommand {
    open spec fn spec_name(&self) -> Seq<char> {
        "github"@
    }

    open spec fn spec_aliases(&self) -> Seq<Seq<char>> {
        Seq::empty()
    }

    open spec fn spec_execute(&self, target: Seq<char>, fs: FsView) -> ResultView {
        link_command(target, "github"@, GITHUB_URL@)
    }

    fn name(&self) -> (r: &'static str) {
        "github"
    }

    fn aliases(&self) -> (r: Vec<&'static str>) {
        let r: Vec<&'static str> = Vec::new();
        assert(r@.map_values(|a: &str| a@) =~= Seq::<Seq<char>>::empty());
        r
    }

    fn execute(&self, target: &str, registry: &CommandRegistry) -> (r: CommandResult) {
        launch_link_command(target, "github", GITHUB_URL)
    }
}

impl BuiltinCommand for GuessCommand {
    open spec fn spec_name(&self) -> Seq<char> {
        "guess"@
    }

    open spec fn spec_aliases(&self) -> Seq<Seq<char>> {
        Seq::empty()
    }

    open spec fn spec_execute(&self, target: Seq<char>, fs: FsView) -> ResultView {
        app_command(target, "guess"@, AppKind::Guess)
    }

    fn name(&self) -> (r: &'static str) {
        "guess"
    }

    fn aliases(&self) -> (r: Vec<&'static str>) {
        let r: Vec<&'static str> = Vec::new();
        assert(r@.map_values(|a: &str| a@) =~= Seq::<Seq<char>>::empty());
        r
    }

    fn execute(&self, target: &str, registry: &CommandRegistry) -> (r: CommandResult) {
        launch_app_command(target, "guess", AppKind::Guess)
    }
}

impl BuiltinCommand for HelpCommand {
    open spec fn spec_name(&self) -> Seq<char> {
        "help"@
    }

    open spec fn spec_aliases(&self) -> Seq<Seq<char>> {
        seq!["?"@]
    }

    /// Every name the shell answers to, sorted, after a heading.
    open spec fn spec_execute(&self, target: Seq<char>, fs: FsView) -> ResultView {
        lines_result(seq!["commands:"@] + available(fs))
    }

    fn name(&self) -> (r: &'static str) {
        "help"
    }

    fn aliases(&self) -> (r: Vec<&'static str>) {
        let r: Vec<&'static str> = vec!["?"];
        assert(r@.map_values(|a: &str| a@) =~= seq!["?"@]);
        r
    }

    fn execute(&self, target: &str, registry: &CommandRegistry) -> (r: CommandResult) {
        let mut lines = vec![owned("commands:")];
        let mut names = registry.available_commands();
        let ghost head = lines@;
        lines.append(&mut names);
        assert(strings_view(lines@) =~= seq!["commands:"@] + available(registry@));
        CommandResult::with_lines(lines)
    }
}

impl BuiltinCommand for LinkedInCommand {
    open spec fn spec_name(&self) -> Seq<char> {
        "linkedin"@
    }

    open spec fn spec_aliases(&self) -> Seq<Seq<char>> {
        Seq::empty()
    }

    open spec fn spec_execute(&self, target: Seq<char>, fs: FsView) -> ResultView {
        link_command(target, "linkedin"@, LINKEDIN_URL@)
    }

    fn name(&self) -> (r: &'static str) {
        "linkedin"
    }

    fn aliases(&self) -> (r: Vec<&'static str>) {
        let r: Vec<&'static str> = Vec::new();
        assert(r@.map_values(|a: &str| a@) =~= Seq::<Seq<char>>::empty());
        r
    }

    fn execute(&self, target: &str, registry: &CommandRegistry) -> (r: CommandResult) {
        launch_link_command(target, "linkedin", LINKEDIN_URL)
    }
}

impl BuiltinCommand for LsCommand {
    open spec fn spec_name(&self) -> Seq<char> {
        "ls"@
    }

    open spec fn spec_aliases(&self) -> Seq<Seq<char>> {
        Seq::empty()
    }

    open spec fn spec_execute(&self, target: Seq<char>, fs: FsView) -> ResultView {
        ls_result(target, fs)
    }

    fn name(&self) -> (r: &'static str) {
        "ls"
    }

    fn aliases(&self) -> (r: Vec<&'static str>) {
        let r: Vec<&'static str> = Vec::new();
        assert(r@.map_values(|a: &str| a@) =~= Seq::<Seq<char>>::empty());
        r
    }

    fn execute(&self, target: &str, registry: &CommandRegistry) -> (r: CommandResult) {
        match registry.resolve_directory(target) {
            Some(entries) => {
                let line = join_strings(entries, "  ");
                let lines = vec![line];
                assert(strings_view(lines@) =~= seq![join(strings_view(entries@), "  "@)]);
                CommandResult::with_lines(lines)
            },
            None => {
                let mut msg: Vec<char> = Vec::new();
                push_str(&mut msg, "ls: ");
                if target.unicode_len() == 0 {
                    push_str(&mut msg, "missing target");
                } else {
                    push_str(&mut msg, target);
                }
                push_str(&mut msg, ": no such directory");
                let lines = vec![string_of(msg.as_slice())];
                assert(strings_view(lines@) =~= seq![
                    "ls: "@ + (if target@.len() == 0 {
                        "missing target"@
                    } else {
                        target@
                    }) + ": no such directory"@,
                ]);
                CommandResult::with_lines(lines)
            },
        }
    }
}

impl BuiltinCommand for SnakeCommand {
    open spec fn spec_name(&self) -> Seq<char> {
        "snake"@
    }

    open spec fn spec_aliases(&self) -> Seq<Seq<char>> {
        Seq::empty()
    }

    open spec fn spec_execute(&self, target: Seq<char>, fs: FsView) -> ResultView {
        app_command(target, "snake"@, AppKind::Snake)
    }

    fn name(&self) -> (r: &'static str) {
        "snake"
    }

    fn aliases(&self) -> (r: Vec<&'static str>) {
        let r: Vec<&'static str> = Vec::new();
        assert(r@.map_values(|a: &str| a@) =~= Seq::<Seq<char>>::empty());
        r
    }

    fn execute(&self, target: &str, registry: &CommandRegistry) -> (r: CommandResult) {
        launch_app_command(target, "snake", AppKind::Snake)
    }
}

impl BuiltinCommand for StackCommand {
    open spec fn spec_name(&self) -> Seq<char> {
        "stack"@
    }

    open spec fn spec_aliases(&self) -> Seq<Seq<char>> {
        Seq::empty()
    }

    open spec fn spec_execute(&self, target: Seq<char>, fs: FsView) -> ResultView {
        text_command(target, "stack"@, stack_lines())
    }

    fn name(&self) -> (r: &'static str) {
        "stack"
    }

    fn aliases(&self) -> (r: Vec<&'static str>) {
        let r: Vec<&'static str> = Vec::new();
        assert(r@.map_values(|a: &str| a@) =~= Seq::<Seq<char>>::empty());
        r
    }

    fn execute(&self, target: &str, registry: &CommandRegistry) -> (r: CommandResult) {
        if target.unicode_len() == 0 {
            let lines = vec![owned("rust"), owned("webassembly"), owned("html"), owned("css")];
            assert(strings_view(lines@) =~= stack_lines());
            CommandResult::with_lines(lines)
        } else {
            CommandResult::with_lines(usage("stack"))
        }
    }
}

impl BuiltinCommand for TetrisCommand {
    open spec fn spec_name(&self) -> Seq<char> {
        "tetris"@
    }

    open spec fn spec_aliases(&self) -> Seq<Seq<char>> {
        Seq::empty()
    }

    open spec fn spec_execute(&self, target: Seq<char>, fs: FsView) -> ResultView {
        app_command(target, "tetris"@, AppKind::Tetris)
    }

    fn name(&self) -> (r: &'static str) {
        "tetris"
    }

    fn aliases(&self) -> (r: Vec<&'static str>) {
        let r: Vec<&'static str> = Vec::new();
        assert(r@.map_values(|a: &str| a@) =~= Seq::<Seq<char>>::empty());
        r
    }

    fn execute(&self, target: &str, registry: &CommandRegistry) -> (r: CommandResult) {
        launch_app_command(target, "tetris", AppKind::Tetris)
    }
}

} // verus!
