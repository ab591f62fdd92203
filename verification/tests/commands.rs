use webterm::apps::AppKind;
use webterm::commands::builtin::{
    AboutCommand, GITHUB_URL, GithubCommand, LINKEDIN_URL, LinkedInCommand, StackCommand, TetrisCommand,
};
use webterm::commands::registry::{Builtin, Executable, aliases, find, names, parse, resolve};
use webterm::commands::{BuiltinCommand, CommandRegistry, CommandResult};
use webterm::terminal_fs::{TerminalFs, key_from_lowered, load_terminal_fs, normalize_target, root_entries};

fn sample_fs() -> TerminalFs {
    load_terminal_fs(
        vec![
            (
                ".".to_string(),
                vec![
                    "guess".to_string(),
                    "help".to_string(),
                    "snake".to_string(),
                    "resume.txt".to_string(),
                    "blog".to_string(),
                ],
            ),
            ("docs".to_string(), vec!["resume.txt".to_string()]),
        ],
        vec![(
            "docs/resume.txt".to_string(),
            vec!["Experience".to_string(), "Skills".to_string()],
        )],
        vec![("links/blog".to_string(), "https://example.org/blog".to_string())],
    )
}

fn lines(r: &CommandResult) -> Vec<String> {
    r.lines().to_vec()
}

#[test]
fn names_and_aliases_of_the_builtins() {
    assert_eq!(
        names(),
        vec!["clear", "guess", "help", "ls", "snake"]
    );
    assert_eq!(aliases(), vec!["?"]);
    assert_eq!(find("HELP"), Some(Builtin::Help));
    assert_eq!(find("?"), Some(Builtin::Help));
    assert_eq!(find("Ls"), Some(Builtin::Ls));
    assert_eq!(find("tetris"), None);
    assert_eq!(find("help "), None);
    assert_eq!(find(""), None);
    assert_eq!(find("nope"), None);
    assert_eq!(Builtin::Help.name(), "help");
}

#[test]
fn parse_splits_name_and_target() {
    let inv = parse("ls  docs");
    assert_eq!(inv.name.iter().collect::<String>(), "ls");
    assert_eq!(inv.target.iter().collect::<String>(), "docs");
    let inv = parse("help");
    assert_eq!(inv.name.iter().collect::<String>(), "help");
    assert!(inv.target.is_empty());
}

#[test]
fn help_lists_every_name_sorted_once() {
    let fs = sample_fs();
    let registry = CommandRegistry::new(&fs);
    let r = registry.execute("help");
    let expected: Vec<String> = [
        "commands:", "?", "blog", "clear", "guess", "help", "ls", "resume.txt", "snake",
    ]
    .iter()
    .map(|s| s.to_string())
    .collect();
    assert_eq!(lines(&r), expected);
    assert_eq!(lines(&registry.execute("?")), expected);
    assert_eq!(registry.available_commands().len(), 8);
}

#[test]
fn ls_lists_directories() {
    let fs = sample_fs();
    let registry = CommandRegistry::new(&fs);
    assert_eq!(lines(&registry.execute("ls")), vec!["guess  help  snake  resume.txt  blog"]);
    assert_eq!(lines(&registry.execute("ls ./DOCS/")), vec!["resume.txt"]);
    assert_eq!(lines(&registry.execute("ls nope")), vec!["ls: nope: no such directory"]);
}

#[test]
fn unknown_commands_are_reported() {
    let fs = sample_fs();
    let registry = CommandRegistry::new(&fs);
    assert_eq!(lines(&registry.execute("foo")), vec!["foo: not found"]);
    assert_eq!(lines(&registry.execute("foo bar")), vec!["foo: command not found"]);
    assert_eq!(lines(&registry.execute("blog extra")), vec!["blog: command not found"]);
}

#[test]
fn files_print_and_links_open() {
    let fs = sample_fs();
    let registry = CommandRegistry::new(&fs);
    assert_eq!(lines(&registry.execute("resume.txt")), vec!["Experience", "Skills"]);
    assert_eq!(lines(&registry.execute("docs/resume.txt")), vec!["Experience", "Skills"]);
    let r = registry.execute("blog");
    assert_eq!(lines(&r), vec!["opening blog..."]);
    assert_eq!(r.open_link(), Some("https://example.org/blog"));
    assert!(matches!(registry.resolve("blog"), Some(Executable::External(_))));
    assert!(matches!(registry.resolve("ls"), Some(Executable::Builtin(Builtin::Ls))));
    assert!(matches!(resolve("LS", &fs), Some(Executable::Builtin(Builtin::Ls))));
    assert!(matches!(resolve("resume.txt", &fs), Some(Executable::External(_))));
    assert!(resolve("missing", &fs).is_none());
}

#[test]
fn builtins_with_targets_print_their_usage() {
    let fs = sample_fs();
    let registry = CommandRegistry::new(&fs);
    assert_eq!(lines(&registry.execute("guess 3")), vec!["usage: guess"]);
    assert_eq!(registry.execute("guess 3").start_program(), None);
    assert_eq!(lines(&registry.execute("snake x")), vec!["usage: snake"]);
}

#[test]
fn unregistered_commands_are_not_found() {
    let fs = sample_fs();
    let registry = CommandRegistry::new(&fs);
    for name in ["about", "github", "linkedin", "stack", "tetris"] {
        assert_eq!(lines(&registry.execute(name)), vec![format!("{name}: not found")]);
        assert_eq!(
            lines(&registry.execute(&format!("{name} x"))),
            vec![format!("{name}: command not found")]
        );
    }
}

#[test]
fn builtins_start_apps_and_clear() {
    let fs = sample_fs();
    let registry = CommandRegistry::new(&fs);
    assert_eq!(registry.execute("guess").start_program(), Some(AppKind::Guess));
    assert_eq!(registry.execute("SNAKE").start_program(), Some(AppKind::Snake));
    let clear = registry.execute("clear");
    assert!(clear.should_reset_terminal());
    assert!(lines(&clear).is_empty());
}

#[test]
fn help_on_an_empty_tree_lists_the_registered_commands() {
    let fs = load_terminal_fs(vec![], vec![], vec![]);
    let registry = CommandRegistry::new(&fs);
    assert_eq!(
        lines(&registry.execute("help")),
        vec!["commands:", "?", "clear", "guess", "help", "ls", "snake"]
    );
}

#[test]
fn the_other_commands_answer_when_run_directly() {
    let fs = sample_fs();
    let registry = CommandRegistry::new(&fs);
    assert_eq!(TetrisCommand.execute("", &registry).start_program(), Some(AppKind::Tetris));
    let gh = GithubCommand.execute("", &registry);
    assert_eq!(lines(&gh), vec!["opening github..."]);
    assert_eq!(gh.open_link(), Some(GITHUB_URL));
    assert_eq!(LinkedInCommand.execute("", &registry).open_link(), Some(LINKEDIN_URL));
    assert_eq!(lines(&GithubCommand.execute("x", &registry)), vec!["usage: github"]);
    assert_eq!(
        lines(&AboutCommand.execute("", &registry)),
        vec!["Brett Seton", "Sydney, Australia", "Builds software across web, systems, and infrastructure."]
    );
    assert_eq!(lines(&AboutCommand.execute("me", &registry)), vec!["usage: about"]);
    assert_eq!(lines(&StackCommand.execute("", &registry)), vec!["rust", "webassembly", "html", "css"]);
    assert_eq!(AboutCommand.name(), "about");
    assert!(TetrisCommand.aliases().is_empty());
}

#[test]
fn targets_are_normalized() {
    assert_eq!(normalize_target("  ./Docs/ "), "docs");
    assert_eq!(normalize_target(""), ".");
    assert_eq!(normalize_target("/"), ".");
    assert_eq!(normalize_target("A/B"), "a/b");
    assert_eq!(key_from_lowered(String::new()), ".");
    assert_eq!(key_from_lowered("docs".to_string()), "docs");
}

#[test]
fn later_entries_replace_earlier_ones() {
    let fs = load_terminal_fs(
        vec![("x".to_string(), vec!["1".to_string()]), ("x".to_string(), vec!["2".to_string()])],
        vec![],
        vec![],
    );
    assert_eq!(fs.resolve_directory("x"), Some(&vec!["2".to_string()]));
    assert!(fs.root_items().is_empty());
}

#[test]
fn root_listing_holds_commands_and_base_names_sorted_once() {
    let files = vec!["docs/resume.txt".to_string(), "notes/help".to_string()];
    let links = vec!["links/github".to_string(), "blog".to_string()];
    assert_eq!(
        root_entries(&files, &links),
        vec!["blog", "github", "guess", "help", "resume.txt", "snake"]
    );
    assert_eq!(root_entries(&Vec::new(), &Vec::new()), vec!["guess", "help", "snake"]);
}
