use webterm::apps::{AppKey, AppKind, AppLine};
use webterm::commands::TerminalActions;
use webterm::terminal::bootstrap::{initial_history, initial_screen};
use webterm::terminal::emulator::TerminalEmulator;
use webterm::terminal::engine::{Action, TerminalCore};
use webterm::terminal::input::{handle_keydown, map_app_key};
use webterm::terminal::model::{Effect, Entry, EntryKind, ScreenLine};
use webterm::terminal::render_state::RenderState;
use webterm::terminal::session::TerminalSession;
use webterm::terminal::ui::diff::{RenderDiffStrategy, VisibleScreenChange};
use webterm::terminal_fs::{TerminalFs, load_terminal_fs};

fn sample_fs() -> TerminalFs {
    load_terminal_fs(
        vec![(
            ".".to_string(),
            vec!["guess".to_string(), "help".to_string(), "snake".to_string(), "notes.txt".to_string()],
        )],
        vec![("notes.txt".to_string(), vec!["hello there".to_string()])],
        vec![("links/blog".to_string(), "https://example.org/blog".to_string())],
    )
}

fn history(core: &TerminalCore) -> Vec<(EntryKind, String)> {
    core.history().iter().map(|e| (e.kind, e.text.clone())).collect()
}

fn out(s: &str) -> (EntryKind, String) {
    (EntryKind::Output, s.to_string())
}

fn cmd(s: &str) -> (EntryKind, String) {
    (EntryKind::Command, s.to_string())
}

fn line_text(line: &AppLine) -> String {
    line.segments().iter().map(|s| s.text().to_string()).collect::<Vec<_>>().join("")
}

fn submit(core: &mut TerminalCore, raw: &str) -> (Vec<Effect>, bool) {
    let r = core.dispatch(Action::SubmitCommand(raw.to_string()));
    let changed = r.state_changed();
    (r.effects(), changed)
}

#[test]
fn a_new_terminal_shows_its_banner_in_the_shell() {
    let core = TerminalCore::new(sample_fs(), 1);
    assert_eq!(history(&core), vec![out("terminal v1.0"), out("type `help` to begin")]);
    assert!(core.prompt_enabled());
    assert!(!core.captures_keyboard());
    let view = core.view();
    assert_eq!(view.visible_lines().len(), 2);
    assert!(matches!(&view.visible_lines()[0], ScreenLine::Output(t) if t == "terminal v1.0"));
    assert!(view.active_view().is_empty());
    assert_eq!(initial_history().len(), 2);
    assert_eq!(initial_screen().len(), 2);
}

#[test]
fn blank_submissions_change_nothing() {
    let mut core = TerminalCore::new(sample_fs(), 1);
    let (effects, changed) = submit(&mut core, "   \t ");
    assert!(effects.is_empty());
    assert!(!changed);
    assert_eq!(history(&core), vec![out("terminal v1.0"), out("type `help` to begin")]);
}

#[test]
fn commands_are_recorded_trimmed_then_answered() {
    let mut core = TerminalCore::new(sample_fs(), 1);
    let (effects, changed) = submit(&mut core, "  notes.txt  ");
    assert!(effects.is_empty());
    assert!(changed);
    assert_eq!(
        history(&core),
        vec![out("terminal v1.0"), out("type `help` to begin"), cmd("notes.txt"), out("hello there")]
    );
    let view = core.view();
    assert_eq!(view.visible_lines().len(), 4);
    assert!(matches!(&view.visible_lines()[2], ScreenLine::Command(t) if t == "notes.txt"));
}

#[test]
fn unknown_command_then_clear_starts_over() {
    let mut core = TerminalCore::new(sample_fs(), 1);
    submit(&mut core, "nope");
    assert_eq!(history(&core)[3], out("nope: not found"));
    let (_, changed) = submit(&mut core, "clear");
    assert!(changed);
    assert_eq!(history(&core), vec![out("terminal v1.0"), out("type `help` to begin")]);
    assert_eq!(core.view().visible_lines().len(), 2);
}

#[test]
fn link_commands_hand_out_an_effect() {
    let mut core = TerminalCore::new(sample_fs(), 1);
    let (effects, _) = submit(&mut core, "blog");
    assert_eq!(effects.len(), 1);
    assert!(matches!(&effects[0], Effect::OpenLink(h) if h == "https://example.org/blog"));
    assert_eq!(history(&core).last().unwrap(), &out("opening blog..."));
    let (effects, _) = submit(&mut core, "help");
    assert!(effects.is_empty());
}

#[test]
fn guessing_game_reads_commands_until_it_ends() {
    let mut core = TerminalCore::new(sample_fs(), 77);
    submit(&mut core, "guess");
    assert!(core.prompt_enabled());
    assert!(!core.captures_keyboard());
    let h = history(&core);
    assert_eq!(h[2], cmd("guess"));
    assert_eq!(h[3], out("guessing game started"));
    assert_eq!(h.len(), 6);
    let (_, changed) = submit(&mut core, "help");
    assert!(changed);
    let h = history(&core);
    assert_eq!(h[6], cmd("help"));
    assert_eq!(h[7], out("enter a number between 1 and 100"));
    submit(&mut core, "quit");
    assert_eq!(history(&core).last().unwrap(), &out("game over"));
    submit(&mut core, "notes.txt");
    assert_eq!(history(&core).last().unwrap(), &out("hello there"));
}

#[test]
fn realtime_apps_take_the_keyboard_and_the_alternate_screen() {
    let mut core = TerminalCore::new(sample_fs(), 5);
    let (_, changed) = submit(&mut core, "snake");
    assert!(changed);
    assert!(core.captures_keyboard());
    assert!(!core.prompt_enabled());
    let h = history(&core);
    assert_eq!(h.len(), 3);
    let view = core.view();
    assert_eq!(view.visible_lines().len(), 3 + 15);
    match &view.visible_lines()[0] {
        ScreenLine::App(l) => assert_eq!(line_text(l), "snake started"),
        _ => panic!("the alternate screen shows the app"),
    }
    match &view.visible_lines()[3] {
        ScreenLine::App(l) => assert_eq!(line_text(l), "snake score: 0"),
        _ => panic!("the alternate screen shows the app"),
    }
    let (effects, changed) = submit(&mut core, "help");
    assert!(effects.is_empty());
    assert!(!changed);
    assert_eq!(history(&core).len(), 3);
    assert!(core.tick());
    assert!(core.handle_key(AppKey::Escape));
    assert!(!core.captures_keyboard());
    assert!(core.prompt_enabled());
    assert_eq!(history(&core).last().unwrap(), &out("snake over"));
    let view = core.view();
    assert!(matches!(view.visible_lines().last().unwrap(), ScreenLine::Output(t) if t == "snake over"));
}

#[test]
fn tetris_escape_returns_to_the_shell() {
    let mut core = TerminalCore::new(sample_fs(), 8);
    submit(&mut core, "tetris");
    assert_eq!(history(&core).last().unwrap(), &out("tetris: not found"));
    core.launch_app(AppKind::Tetris);
    assert!(core.captures_keyboard());
    assert_eq!(core.active_view().len(), 3 + 23);
    assert!(core.handle_key(AppKey::Escape));
    assert_eq!(history(&core).last().unwrap(), &out("tetris over"));
}

#[test]
fn the_guessing_game_ignores_keys_and_ticks() {
    let mut core = TerminalCore::new(sample_fs(), 3);
    core.run_command("guess".to_string());
    let before = history(&core);
    assert!(!core.handle_key(AppKey::Left));
    assert!(!core.tick());
    assert_eq!(history(&core), before);
}

#[test]
fn history_only_grows_until_it_starts_over() {
    let mut core = TerminalCore::new(sample_fs(), 3);
    let mut previous = history(&core);
    for raw in ["help", "notes.txt", "guess", "50", "quit", "ls", "nope x"] {
        core.run_command(raw.to_string());
        let now = history(&core);
        assert!(now.starts_with(&previous));
        previous = now;
    }
    core.run_command("clear".to_string());
    let now = history(&core);
    assert!(now.starts_with(&[out("terminal v1.0"), out("type `help` to begin")]));
}

#[test]
fn the_shell_ignores_keys_and_ticks() {
    let mut core = TerminalCore::new(sample_fs(), 1);
    assert!(!core.tick());
    assert!(!core.handle_key(AppKey::Up));
    assert_eq!(history(&core).len(), 2);
}

#[test]
fn terminal_actions_drive_the_same_core() {
    let mut core = TerminalCore::new(sample_fs(), 1);
    TerminalActions::append_output(&mut core, vec!["x".to_string()]);
    assert_eq!(history(&core).last().unwrap(), &out("x"));
    core.list_directory("");
    assert_eq!(history(&core).last().unwrap(), &out("guess  help  snake  notes.txt"));
    core.show_help();
    assert_eq!(history(&core)[4], out("commands:"));
    core.open_link("https://example.org".to_string());
    let effects = core.run_command(" ".to_string());
    assert_eq!(effects.len(), 1);
    core.launch_app(AppKind::Snake);
    assert!(core.captures_keyboard());
    core.reset_terminal();
    assert!(!core.captures_keyboard());
    assert_eq!(history(&core), vec![out("terminal v1.0"), out("type `help` to begin")]);
}

#[test]
fn keys_are_mapped_from_their_names() {
    assert_eq!(map_app_key("ArrowUp"), Some(AppKey::Up));
    assert_eq!(map_app_key("W"), Some(AppKey::Up));
    assert_eq!(map_app_key("s"), Some(AppKey::Down));
    assert_eq!(map_app_key("a"), Some(AppKey::Left));
    assert_eq!(map_app_key("ArrowRight"), Some(AppKey::Right));
    assert_eq!(map_app_key("Escape"), Some(AppKey::Escape));
    assert_eq!(map_app_key("x"), None);
    assert_eq!(map_app_key("arrowup"), None);
}

#[test]
fn keydown_is_kept_from_the_page_while_an_app_holds_the_keyboard() {
    let mut core = TerminalCore::new(sample_fs(), 1);
    let (update, prevent) = handle_keydown(&mut core, "ArrowUp");
    assert!(!prevent);
    assert!(!update.unwrap().state_changed());
    let (update, prevent) = handle_keydown(&mut core, "q");
    assert!(update.is_none());
    assert!(!prevent);
    core.run_command("snake".to_string());
    let (update, prevent) = handle_keydown(&mut core, "q");
    assert!(update.is_none());
    assert!(prevent);
    let (update, prevent) = handle_keydown(&mut core, "Escape");
    assert!(prevent);
    assert!(update.unwrap().state_changed());
    assert!(!core.captures_keyboard());
}

#[test]
fn render_plans_append_noop_and_replace() {
    let mut core = TerminalCore::new(sample_fs(), 1);
    let strategy = RenderDiffStrategy;
    let mut state = RenderState::default();
    let view = core.view();
    let plan = strategy.build(&state, &view);
    assert!(plan.prompt_enabled);
    assert!(matches!(plan.visible_screen, VisibleScreenChange::Append(lines) if lines.len() == 2));
    state.update(view.visible_lines(), view.prompt_enabled());
    let plan = strategy.build(&state, &view);
    assert!(matches!(plan.visible_screen, VisibleScreenChange::Noop));
    core.run_command("notes.txt".to_string());
    let view = core.view();
    let plan = strategy.build(&state, &view);
    assert!(matches!(plan.visible_screen, VisibleScreenChange::Append(lines) if lines.len() == 2));
    state.update(view.visible_lines(), view.prompt_enabled());
    core.run_command("clear".to_string());
    let view = core.view();
    let plan = strategy.build(&state, &view);
    assert!(matches!(plan.visible_screen, VisibleScreenChange::ReplaceAll(lines) if lines.len() == 2));
}

#[test]
fn emulator_switches_screens() {
    let mut emulator = TerminalEmulator::default();
    emulator.write_command("ls");
    emulator.write_output_lines(vec!["a".to_string(), "b".to_string()]);
    assert_eq!(emulator.visible_lines().len(), 3);
    emulator.sync_alternate_screen(&[AppLine::text("app".to_string())], true);
    assert_eq!(emulator.visible_lines().len(), 1);
    emulator.sync_alternate_screen(&[], false);
    assert_eq!(emulator.visible_lines().len(), 3);
    emulator.reset_primary(Vec::new());
    assert!(emulator.visible_lines().is_empty());
}

#[test]
fn session_records_an_empty_command_as_a_space() {
    let mut session = TerminalSession::new(sample_fs(), Vec::new());
    session.record_command("");
    assert_eq!(session.history()[0].kind, EntryKind::Command);
    assert_eq!(session.history()[0].text, " ");
    session.append_output(vec!["one".to_string()]);
    assert_eq!(session.visible_lines().len(), 2);
    session.push_effect(Effect::OpenLink("u".to_string()));
    assert_eq!(session.take_effects().len(), 1);
    assert!(session.take_effects().is_empty());
    session.reset(vec![Entry::output("fresh".to_string())]);
    assert_eq!(session.history().len(), 1);
    assert_eq!(session.visible_lines().len(), 1);
}

#[test]
fn links_are_found_by_exact_path() {
    let fs = load_terminal_fs(
        vec![],
        vec![],
        vec![("links/github".to_string(), "https://github.com/someone".to_string())],
    );
    let core = TerminalCore::new(fs, 1);
    assert_eq!(core.link("links/github"), Some(&"https://github.com/someone".to_string()));
    assert_eq!(core.link("github"), None);
    assert_eq!(core.links().len(), 1);
}

#[test]
fn entry_kinds_have_prefixes() {
    assert_eq!(EntryKind::Command.prefix(), "$");
    assert_eq!(EntryKind::Output.prefix(), ">");
    assert_eq!(EntryKind::Command.class_name(), "line-prefix command");
    assert_eq!(EntryKind::Output.class_name(), "line-prefix output");
}

#[test]
fn reseeding_decides_the_next_game() {
    let mut a = TerminalCore::new(sample_fs(), 1);
    let mut b = TerminalCore::new(sample_fs(), 2);
    a.reseed(99);
    b.reseed(99);
    a.run_command("snake".to_string());
    b.run_command("snake".to_string());
    let va: Vec<String> = a.active_view().iter().map(line_text).collect();
    let vb: Vec<String> = b.active_view().iter().map(line_text).collect();
    assert_eq!(va, vb);
}
