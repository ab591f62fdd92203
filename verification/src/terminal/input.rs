//! Keyboard input: which keys the apps read, and what a key press does.
use vstd::prelude::*;
use crate::apps::AppKey;
use crate::terminal::engine::{Action, DispatchResult, TerminalCore, core_step};
use crate::text::same_text;

verus! {

/// The app key a key name stands for: the arrows or `wasd` in either case,
/// and escape.
pub open spec fn key_for(name: Seq<char>) -> Option<AppKey> {
    if name == "ArrowUp"@ || name == "w"@ || name == "W"@ {
        Some(AppKey::Up)
    } else if name == "ArrowDown"@ || name == "s"@ || name == "S"@ {
        Some(AppKey::Down)
    } else if name == "ArrowLeft"@ || name == "a"@ || name == "A"@ {
        Some(AppKey::Left)
    } else if name == "ArrowRight"@ || name == "d"@ || name == "D"@ {
        Some(AppKey::Right)
    } else if name == "Escape"@ {
        Some(AppKey::Escape)
    } else {
        None
    }
}

pub fn map_app_key(value: &str) -> (r: Option<AppKey>)
    ensures
        r == key_for(value@),
{
    if same_text(value, "ArrowUp") || same_text(value, "w") || same_text(value, "W") {
        Some(AppKey::Up)
    } else if same_text(value, "ArrowDown") || same_text(value, "s") || same_text(value, "S") {
        Some(AppKey::Down)
    } else if same_text(value, "ArrowLeft") || same_text(value, "a") || same_text(value, "A") {
        Some(AppKey::Left)
    } else if same_text(value, "ArrowRight") || same_text(value, "d") || same_text(value, "D") {
        Some(AppKey::Right)
    } else if same_text(value, "Escape") {
        Some(AppKey::Escape)
    } else {
        None
    }
}

/// Handles a key press named `value`: a key the apps read is dispatched to
/// the terminal, and what that produced is returned. Also returns whether
/// the page should keep the key from its default action: always while a
/// realtime app holds the keyboard, otherwise when the key changed what is
/// shown.
pub fn handle_keydown(core: &mut TerminalCore, value: &str) -> (r: (Option<DispatchResult>, bool))
    requires
        old(core).model().wf(),
    ensures
        final(core).model().wf(),
        match key_for(value@) {
            None => {
                &&& r.0 is None
                &&& final(core).model() == old(core).model()
                &&& r.1 == old(core).model().state.captures_keyboard()
            },
            Some(key) => {
                &&& r.0 matches Some(d)
                &&& core_step(
                    old(core).model(),
                    Action::HandleKey(key),
                    final(core).model(),
                    d@.effects,
                    d@.state_changed,
                )
                &&& r.1 == (old(core).model().state.captures_keyboard() || d@.state_changed)
            },
        },
{
    let captures = core.captures_keyboard();
    match map_app_key(value) {
        Some(key) => {
            let result = core.dispatch(Action::HandleKey(key));
            let changed = result.state_changed();
            (Some(result), captures || changed)
        },
        None => (None, captures),
    }
}

/// The letters `w`, `a`, `s` and `d`, in either case, stand for the same app
/// keys as the up, left, down and right arrows; the four arrows stand for the
/// four directions and escape for escape.
pub proof fn lemma_letters_match_arrows()
    ensures
        key_for("ArrowUp"@) == Some(AppKey::Up),
        key_for("ArrowLeft"@) == Some(AppKey::Left),
        key_for("ArrowDown"@) == Some(AppKey::Down),
        key_for("ArrowRight"@) == Some(AppKey::Right),
        key_for("Escape"@) == Some(AppKey::Escape),
        key_for("w"@) == key_for("ArrowUp"@),
        key_for("W"@) == key_for("ArrowUp"@),
        key_for("a"@) == key_for("ArrowLeft"@),
        key_for("A"@) == key_for("ArrowLeft"@),
        key_for("s"@) == key_for("ArrowDown"@),
        key_for("S"@) == key_for("ArrowDown"@),
        key_for("d"@) == key_for("ArrowRight"@),
        key_for("D"@) == key_for("ArrowRight"@),
{
    reveal_strlit("ArrowUp");
    reveal_strlit("ArrowLeft");
    reveal_strlit("ArrowDown");
    reveal_strlit("ArrowRight");
    reveal_strlit("Escape");
    reveal_strlit("w");
    reveal_strlit("W");
    reveal_strlit("a");
    reveal_strlit("A");
    reveal_strlit("s");
    reveal_strlit("S");
    reveal_strlit("d");
    reveal_strlit("D");
    assert("ArrowUp"@.len() == 7);
    assert("ArrowDown"@.len() == 9);
    assert("ArrowLeft"@.len() == 9);
    assert("ArrowRight"@.len() == 10);
    assert("Escape"@.len() == 6);
    assert("w"@.len() == 1 && "w"@[0] == 'w');
    assert("W"@.len() == 1 && "W"@[0] == 'W');
    assert("s"@.len() == 1 && "s"@[0] == 's');
    assert("S"@.len() == 1 && "S"@[0] == 'S');
    assert("a"@.len() == 1 && "a"@[0] == 'a');
    assert("A"@.len() == 1 && "A"@[0] == 'A');
    assert("d"@.len() == 1 && "d"@[0] == 'd');
    assert("D"@.len() == 1 && "D"@[0] == 'D');
    assert("ArrowLeft"@[5] == 'L' && "ArrowDown"@[5] == 'D');
}

} // verus!
