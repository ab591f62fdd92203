//! The guessing game: the player guesses a hidden number from 1 to 100 and
//! is told whether each guess is too low or too high.
use vstd::prelude::*;
use crate::apps::{AppKey, AppLine, AppMode, AppOutput, AppRuntime, OutputView};
use crate::random::{RandomSource, next_state};
use crate::text::{
    chars_of, decimal, is_digit, lemma_decimal_parses, lowercase, one_line, owned, parse_u8, parse_u8_chars, push_decimal,
    push_str, same_text, string_of, strings_view, to_lowercase, trim, trim_str,
};

verus! {

pub open spec fn start_lines() -> Seq<Seq<char>> {
    seq![
        "guessing game started"@,
        "pick a number from 1 to 100"@,
        "type a number to guess, `new` for a new game, or `quit` to leave"@,
    ]
}

pub open spec fn invalid_input_lines() -> Seq<Seq<char>> {
    seq!["enter a number between 1 and 100"@, "or type `new` or `quit`"@]
}

/// The message after the winning guess, the `attempts`-th.
pub open spec fn correct_message(attempts: u8) -> Seq<char> {
    "correct in "@ + decimal(attempts as nat) + " guess"@ + (if attempts == 1 {
        Seq::<char>::empty()
    } else {
        "es"@
    })
}

/// The hidden number a game draws from a generator in state `s`.
pub open spec fn drawn_target(s: u64) -> u8 {
    ((next_state(s) % 100) + 1) as u8
}

pub struct GuessGame {
    target: u8,
    attempts: u8,
    rng: RandomSource,
}

/// What the game answers to the already trimmed and lower-cased input `n`.
pub open spec fn respond_output(g: GuessGame, n: Seq<char>) -> OutputView {
    if n == "quit"@ || n == "exit"@ {
        OutputView::Exit(seq!["game over"@])
    } else if n == "new"@ {
        OutputView::Continue(start_lines())
    } else {
        match parse_u8(n) {
            None => OutputView::Continue(invalid_input_lines()),
            Some(v) => if v < 1 || v > 100 {
                OutputView::Continue(seq!["guess must be between 1 and 100"@])
            } else {
                let a = counted(g.attempts());
                if v < g.target() {
                    OutputView::Continue(seq!["too low"@])
                } else if v > g.target() {
                    OutputView::Continue(seq!["too high"@])
                } else {
                    OutputView::Exit(seq![correct_message(a), "type `guess` to play again"@])
                }
            },
        }
    }
}

/// A game just started from a generator in state `s`.
pub open spec fn fresh(g: GuessGame, s: u64) -> bool {
    &&& g.target() == drawn_target(s)
    &&& g.attempts() == 0
    &&& g.rng_state() == next_state(s)
}

/// The game after answering `n`: `new` draws a fresh number, a counted
/// guess adds an attempt, anything else leaves the game as it was.
pub open spec fn responded(g: GuessGame, n: Seq<char>, h: GuessGame) -> bool {
    if n == "new"@ {
        &&& h.target() == drawn_target(g.rng_state())
        &&& h.attempts() == 0
        &&& h.rng_state() == next_state(g.rng_state())
    } else {
        &&& h.target() == g.target()
        &&& h.rng_state() == g.rng_state()
        &&& h.attempts() == if is_counted_guess(n) {
            counted(g.attempts())
        } else {
            g.attempts()
        }
    }
}

/// Whether `n` is a guess the game counts (a number from 1 to 100).
pub open spec fn is_counted_guess(n: Seq<char>) -> bool {
    &&& n != "quit"@
    &&& n != "exit"@
    &&& n != "new"@
    &&& parse_u8(n) matches Some(v)
    &&& 1 <= v <= 100
}

/// One more attempt (the counter is a `u8` and wraps).
pub open spec fn counted(attempts: u8) -> u8 {
    if attempts == 255 {
        0
    } else {
        (attempts + 1) as u8
    }
}

/// Every number from 1 to 100, written in decimal, is a counted guess and
/// is judged against the hidden number: too low, too high, or the win, with
/// this attempt counted. No number in that range is turned away.
pub proof fn lemma_guesses_in_range_are_judged(g: GuessGame, v: u8)
    requires
        g.is_valid(),
        1 <= v <= 100,
    ensures
        is_counted_guess(decimal(v as nat)),
        respond_output(g, decimal(v as nat)) == if v < g.target() {
            OutputView::Continue(seq!["too low"@])
        } else if v > g.target() {
            OutputView::Continue(seq!["too high"@])
        } else {
            OutputView::Exit(
                seq![correct_message(counted(g.attempts())), "type `guess` to play again"@],
            )
        },
{
    lemma_decimal_parses(v);
    reveal_strlit("quit");
    reveal_strlit("exit");
    reveal_strlit("new");
    let d = decimal(v as nat);
    assert(d != "quit"@ && d != "exit"@ && d != "new"@) by {
        assert(is_digit(d[0]));
        if d == "quit"@ {
            assert(d[0] == 'q');
        }
        if d == "exit"@ {
            assert(d[0] == 'e');
        }
        if d == "new"@ {
            assert(d[0] == 'n');
        }
    }
}

/// Every game can be won: answering the hidden number ends the game with
/// the win, whatever it is.
pub proof fn lemma_every_game_can_be_won(g: GuessGame)
    requires
        g.is_valid(),
    ensures
        respond_output(g, decimal(g.target() as nat)) matches OutputView::Exit(lines) && lines.len()
            == 2 && lines[0].len() >= 11 && lines[0].subrange(0, 11) == "correct in "@,
{
    lemma_guesses_in_range_are_judged(g, g.target());
    reveal_strlit("correct in ");
    let m = correct_message(counted(g.attempts()));
    assert(m.subrange(0, 11) =~= "correct in "@);
}

impl GuessGame {
    pub closed spec fn target(&self) -> u8 {
        self.target
    }

    pub closed spec fn attempts(&self) -> u8 {
        self.attempts
    }

    pub closed spec fn rng_state(&self) -> u64 {
        self.rng.state()
    }

    pub open spec fn is_valid(&self) -> bool {
        1 <= self.target() <= 100
    }

    /// A game with a hidden number drawn from `rng`.
    pub fn random(mut rng: RandomSource) -> (g: Self)
        ensures
            g.target() == drawn_target(rng.state()),
            g.attempts() == 0,
            g.rng_state() == next_state(rng.state()),
            g.is_valid(),
    {
        let roll = rng.next_below(100);
        GuessGame { target: (roll + 1) as u8, attempts: 0, rng }
    }

    /// A new game and its opening lines.
    pub fn new(rng: RandomSource) -> (r: (Self, Vec<String>))
        ensures
            r.0.target() == drawn_target(rng.state()),
            r.0.attempts() == 0,
            r.0.rng_state() == next_state(rng.state()),
            r.0.is_valid(),
            strings_view(r.1@) == start_lines(),
    {
        (Self::random(rng), start_lines_vec())
    }

    /// A game with the given hidden number.
    pub fn with_target(target: u8, rng: RandomSource) -> (g: Self)
        requires
            1 <= target <= 100,
        ensures
            g.target() == target,
            g.attempts() == 0,
            g.rng_state() == rng.state(),
            g.is_valid(),
    {
        GuessGame { target, attempts: 0, rng }
    }

    /// The answer to a command that has already been trimmed and lower-cased.
    pub fn respond(&mut self, normalized: &str) -> (out: AppOutput)
        requires
            old(self).is_valid(),
        ensures
            final(self).is_valid(),
            out@ == respond_output(*old(self), normalized@),
            responded(*old(self), normalized@, *final(self)),
    {
        if same_text(normalized, "quit") || same_text(normalized, "exit") {
            proof {
                reveal_strlit("quit");
                reveal_strlit("exit");
                reveal_strlit("new");
            }
            return AppOutput::Exit(one_line("game over"));
        }
        if same_text(normalized, "new") {
            let (next_game, lines) = GuessGame::new(self.rng);
            *self = next_game;
            return AppOutput::Continue(lines);
        }
        let chars = chars_of(normalized);
        let parsed = parse_u8_chars(&chars);
        let guess = match parsed {
            None => {
                let out = AppOutput::Continue(invalid_input_lines_vec());
                return out;
            },
            Some(v) => v,
        };
        if guess < 1 || guess > 100 {
            return AppOutput::Continue(one_line("guess must be between 1 and 100"));
        }
        self.attempts = self.attempts.wrapping_add(1);
        if guess < self.target {
            return AppOutput::Continue(one_line("too low"));
        }
        if guess > self.target {
            return AppOutput::Continue(one_line("too high"));
        }
        let attempts = self.attempts;
        let mut msg: Vec<char> = Vec::new();
        push_str(&mut msg, "correct in ");
        push_decimal(&mut msg, attempts as u32);
        push_str(&mut msg, " guess");
        if attempts != 1 {
            push_str(&mut msg, "es");
        }
        assert(msg@ =~= correct_message(attempts));
        let out = vec![string_of(msg.as_slice()), owned("type `guess` to play again")];
        assert(strings_view(out@) =~= seq![correct_message(attempts), "type `guess` to play again"@]);
        AppOutput::Exit(out)
    }
}

impl AppRuntime for GuessGame {
    open spec fn valid(&self) -> bool {
        self.is_valid()
    }

    open spec fn tick_returns(&self) -> bool {
        true
    }

    /// Trims and lower-cases the input, then answers it.
    fn handle_command(&mut self, input: &str) -> (out: AppOutput)
        ensures
            out@ == respond_output(*old(self), lowercase(trim(input@))),
            responded(*old(self), lowercase(trim(input@)), *final(self)),
    {
        assert(old(self).valid());
        let trimmed = trim_str(input);
        assert(self.is_valid());
        let normalized = to_lowercase(trimmed.as_str());
        self.respond(normalized.as_str())
    }

    fn on_enter(&mut self) {
    }

    fn handle_key(&mut self, key: AppKey) -> (out: Option<AppOutput>)
        ensures
            out is None,
            *final(self) == *old(self),
    {
        None
    }

    fn can_tick(&self) -> (r: bool) {
        true
    }

    fn tick(&mut self) -> (out: Option<AppOutput>)
        ensures
            out is None,
            *final(self) == *old(self),
    {
        None
    }

    fn view(&self) -> (lines: Vec<AppLine>)
        ensures
            lines@.len() == 0,
    {
        Vec::new()
    }

    fn mode(&self) -> (m: AppMode)
        ensures
            m == AppMode::Interactive,
    {
        AppMode::Interactive
    }

    fn on_exit(&mut self) {
    }
}

/// Starts a guessing game drawing its hidden number from `rng`.
pub fn launch(rng: RandomSource) -> (r: (GuessGame, Vec<String>))
    ensures
        fresh(r.0, rng.state()),
        r.0.is_valid(),
        strings_view(r.1@) == start_lines(),
{
    GuessGame::new(rng)
}

pub fn start_lines_vec() -> (r: Vec<String>)
    ensures
        strings_view(r@) == start_lines(),
{
    let r = vec![
        owned("guessing game started"),
        owned("pick a number from 1 to 100"),
        owned("type a number to guess, `new` for a new game, or `quit` to leave"),
    ];
    assert(strings_view(r@) =~= start_lines());
    r
}

pub fn invalid_input_lines_vec() -> (r: Vec<String>)
    ensures
        strings_view(r@) == invalid_input_lines(),
{
    let r = vec![owned("enter a number between 1 and 100"), owned("or type `new` or `quit`")];
    assert(strings_view(r@) =~= invalid_input_lines());
    r
}

} // verus!
