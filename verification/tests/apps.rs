use webterm::apps::guess::{self, GuessGame};
use webterm::apps::snake;
use webterm::apps::tetris::{self, Tetromino, draw_tetromino};
use webterm::apps::{AppInstance, AppKey, AppKind, AppLine, AppMode, AppOutput, AppRegistry, AppRuntime};
use webterm::random::RandomSource;

fn xorshift(s: u64) -> u64 {
    let a = s ^ (s << 13);
    let b = a ^ (a >> 7);
    b ^ (b << 17)
}

fn lines_of(out: &AppOutput) -> (bool, Vec<String>) {
    match out {
        AppOutput::Continue(lines) => (false, lines.clone()),
        AppOutput::Exit(lines) => (true, lines.clone()),
    }
}

fn text_of(line: &AppLine) -> String {
    line.segments().iter().map(|s| s.text().to_string()).collect::<Vec<_>>().join("")
}

#[test]
fn guess_answers_low_high_and_correct() {
    let mut game = GuessGame::with_target(42, RandomSource::from_seed(1));
    assert_eq!(lines_of(&game.handle_command("10")), (false, vec!["too low".to_string()]));
    assert_eq!(lines_of(&game.handle_command(" 99 ")), (false, vec!["too high".to_string()]));
    assert_eq!(
        lines_of(&game.handle_command("42")),
        (true, vec!["correct in 3 guesses".to_string(), "type `guess` to play again".to_string()])
    );
}

#[test]
fn guess_correct_first_time_is_singular() {
    let mut game = GuessGame::with_target(7, RandomSource::from_seed(1));
    assert_eq!(
        lines_of(&game.handle_command("7")),
        (true, vec!["correct in 1 guess".to_string(), "type `guess` to play again".to_string()])
    );
}

#[test]
fn guess_rejects_bad_input_without_counting_it() {
    let mut game = GuessGame::with_target(5, RandomSource::from_seed(1));
    assert_eq!(
        lines_of(&game.handle_command("abc")),
        (
            false,
            vec!["enter a number between 1 and 100".to_string(), "or type `new` or `quit`".to_string()]
        )
    );
    assert_eq!(
        lines_of(&game.handle_command("0")),
        (false, vec!["guess must be between 1 and 100".to_string()])
    );
    assert_eq!(
        lines_of(&game.handle_command("101")),
        (false, vec!["guess must be between 1 and 100".to_string()])
    );
    assert_eq!(
        lines_of(&game.handle_command("5")),
        (true, vec!["correct in 1 guess".to_string(), "type `guess` to play again".to_string()])
    );
}

#[test]
fn guess_quit_and_exit_end_the_game() {
    let mut game = GuessGame::with_target(5, RandomSource::from_seed(1));
    assert_eq!(lines_of(&game.handle_command("  QUIT ")), (true, vec!["game over".to_string()]));
    let mut game = GuessGame::with_target(5, RandomSource::from_seed(1));
    assert_eq!(lines_of(&game.handle_command("exit")), (true, vec!["game over".to_string()]));
}

#[test]
fn guess_new_restarts_with_a_fresh_number() {
    let mut game = GuessGame::with_target(5, RandomSource::from_seed(9));
    let (exit, lines) = lines_of(&game.handle_command("new"));
    assert!(!exit);
    assert_eq!(lines[0], "guessing game started");
    let target = (xorshift(9) % 100 + 1) as u8;
    let (exit, lines) = lines_of(&game.respond(&target.to_string()));
    assert!(exit);
    assert_eq!(lines[0], "correct in 1 guess");
}

#[test]
fn guess_launch_draws_from_the_seed() {
    let (mut game, lines) = guess::launch(RandomSource::from_seed(123));
    assert_eq!(lines.len(), 3);
    assert_eq!(lines[1], "pick a number from 1 to 100");
    let target = xorshift(123) % 100 + 1;
    let (exit, out) = lines_of(&game.handle_command(&target.to_string()));
    assert!(exit);
    assert_eq!(out[0], "correct in 1 guess");
    assert!(game.handle_key(AppKey::Up).is_none());
    assert!(game.tick().is_none());
    assert_eq!(game.mode(), AppMode::Interactive);
}

#[test]
fn snake_starts_with_score_zero_and_a_framed_board() {
    let (game, lines) = snake::launch(RandomSource::from_seed(5));
    assert_eq!(lines[0], "snake started");
    let view = game.view();
    assert_eq!(view.len(), 15);
    assert_eq!(text_of(&view[0]), "snake score: 0");
    assert_eq!(text_of(&view[1]), format!("+{}+", "-".repeat(18)));
    let row = text_of(&view[2 + 6]);
    assert_eq!(row.chars().nth(1 + 9), Some('@'));
    assert_eq!(row.chars().nth(1 + 8), Some('o'));
    assert_eq!(game.mode(), AppMode::Realtime);
}

#[test]
fn snake_escape_ends_and_reverse_is_ignored() {
    let (mut game, _) = snake::launch(RandomSource::from_seed(5));
    let out = game.handle_key(AppKey::Escape).unwrap();
    assert_eq!(lines_of(&out), (true, vec!["snake over".to_string()]));
    let (mut game, _) = snake::launch(RandomSource::from_seed(5));
    let out = game.handle_key(AppKey::Left).unwrap();
    assert_eq!(lines_of(&out), (false, vec![]));
    game.tick();
    let view = game.view();
    let row = text_of(&view[2 + 6]);
    assert_eq!(row.chars().nth(1 + 10), Some('@'));
}

#[test]
fn snake_runs_into_the_wall() {
    let (mut game, _) = snake::launch(RandomSource::from_seed(5));
    let mut ended = None;
    for _ in 0..40 {
        if let Some(AppOutput::Exit(lines)) = game.tick() {
            ended = Some(lines);
            break;
        }
    }
    let lines = ended.expect("the snake reaches the wall");
    assert!(lines[0].starts_with("snake crashed into a wall with score "));
    assert_eq!(lines[1], "type `snake` to play again");
}

#[test]
fn snake_turns_up() {
    let (mut game, _) = snake::launch(RandomSource::from_seed(5));
    game.handle_key(AppKey::Up);
    game.tick();
    let view = game.view();
    let row = text_of(&view[2 + 5]);
    assert_eq!(row.chars().nth(1 + 9), Some('@'));
}

#[test]
fn tetris_starts_and_escape_ends() {
    let (mut game, lines) = tetris::launch(RandomSource::from_seed(3));
    assert_eq!(lines[0], "tetris started");
    let view = game.view();
    assert_eq!(view.len(), 23);
    assert!(text_of(&view[0]).starts_with("score: 0   level: 1   lines: 0   next: "));
    let out = game.handle_key(AppKey::Escape).unwrap();
    assert_eq!(lines_of(&out), (true, vec!["tetris over".to_string()]));
}

#[test]
fn tetris_ticks_count_up_to_the_gravity_interval() {
    let (mut game, _) = tetris::launch(RandomSource::from_seed(3));
    assert_eq!(game.level(), 1);
    assert_eq!(game.gravity_interval(), 7);
    for _ in 0..6 {
        assert!(game.tick().is_none());
    }
    assert!(game.tick().is_some());
}

#[test]
fn tetris_drops_until_the_stack_tops_out() {
    let (mut game, _) = tetris::launch(RandomSource::from_seed(11));
    let mut over = None;
    for _ in 0..2000 {
        if let Some(AppOutput::Exit(lines)) = game.handle_key(AppKey::Down) {
            over = Some(lines);
            break;
        }
    }
    let lines = over.expect("dropping pieces in place ends the game");
    assert!(lines[0].starts_with("game over with score "));
    assert_eq!(lines[1], "type `tetris` to play again");
}

#[test]
fn tetromino_labels_and_classes() {
    assert_eq!(Tetromino::I.label(), "I");
    assert!(Tetromino::T.class_name().len() > 0);
}

#[test]
fn registry_launches_each_kind() {
    for (kind, first) in [
        (AppKind::Guess, "guessing game started"),
        (AppKind::Snake, "snake started"),
        (AppKind::Tetris, "tetris started"),
    ] {
        let (app, lines) = AppRegistry::launch(kind, 17);
        assert_eq!(lines[0], first);
        match (&app, kind) {
            (AppInstance::Guess(_), AppKind::Guess) => {}
            (AppInstance::Snake(_), AppKind::Snake) => {}
            (AppInstance::Tetris(_), AppKind::Tetris) => {}
            _ => panic!("wrong app"),
        }
    }
}

#[test]
fn every_bag_holds_each_piece_once() {
    let mut bag = Vec::new();
    let mut rng = RandomSource::from_seed(2024);
    for _round in 0..3 {
        let mut drawn = Vec::new();
        for _ in 0..7 {
            drawn.push(draw_tetromino(&mut bag, &mut rng).label());
        }
        drawn.sort();
        assert_eq!(drawn, vec!["I", "J", "L", "O", "S", "T", "Z"]);
        assert!(bag.is_empty());
    }
}

#[test]
fn snake_food_lies_on_a_free_cell() {
    for seed in [1u64, 2, 3, 99, 1000] {
        let (game, _) = snake::launch(RandomSource::from_seed(seed));
        let view = game.view();
        let board: String = view[2..14].iter().map(|l| text_of(l)).collect();
        assert_eq!(board.matches('*').count(), 1);
        assert_eq!(board.matches('@').count(), 1);
        assert_eq!(board.matches('o').count(), 1);
    }
}

#[test]
fn snake_food_is_drawn_styled() {
    let (game, _) = snake::launch(RandomSource::from_seed(4));
    let view = game.view();
    let mut styled = Vec::new();
    for line in &view[2..14] {
        for segment in line.segments() {
            if let Some(class) = segment.class_name() {
                styled.push((segment.text().to_string(), class));
            }
        }
    }
    assert_eq!(styled, vec![("*".to_string(), "snake-food")]);
    assert!(view[0].segments().iter().all(|s| s.class_name().is_none()));
}
