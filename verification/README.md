# webterm

A terminal for a personal web page: a shell with a handful of built-in
commands and a small read-only file tree, three games (a number guessing
game, snake and tetris), and the state machine that moves between the shell
and a running game. The logic is written in Verus and proved against its
specifications; the page around it is ordinary Rust for WebAssembly.

## Layout

- `src/text.rs`: whitespace, trimming, case, numbers and joining, as
  specified text functions.
- `src/random.rs`: the seeded xorshift generator behind the games' choices.
- `src/apps/`: the games and the interface a running app offers.
- `src/commands/`: command results, the built-in commands and the registry
  that parses, finds and runs them.
- `src/terminal_fs.rs`: the file tree: listings, files and links by path.
- `src/terminal/`: history, screens and session; `engine/` holds the states,
  the state machine, the action dispatcher, the terminal core and the
  properties proved about them; `ui/diff.rs` plans the page's redraws.
- `tests/`: tests of the library on concrete values.
- `app/`: the page: DOM access, event bindings, effects and the content
  tree.
