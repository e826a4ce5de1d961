//! The step of the loop that reads the keyboard.

use vstd::prelude::*;

verus! {

/// A key press, as far as the session tells keys apart.
#[derive(Clone, Copy, Debug, PartialEq, Eq, Structural)]
pub enum Key {
    Esc,
    Backspace,
    Char(char),
    Enter,
    /// Any other key.
    Other,
}

/// The input buffer, the running flag and the execute flag after `key` was
/// pressed.
///
/// Escape ends the session, backspace takes the last character off the
/// buffer, a character is added at its end, and enter asks for the buffer to
/// be carried out. No other key does anything.
pub open spec fn after_key(key: Key, input: Seq<char>, running: bool, execute: bool) -> (
    Seq<char>,
    bool,
    bool,
) {
    match key {
        Key::Esc => (input, false, execute),
        Key::Backspace => (
            if input.len() > 0 {
                input.drop_last()
            } else {
                input
            },
            running,
            execute,
        ),
        Key::Char(c) => (input.push(c), running, execute),
        Key::Enter => (input, running, true),
        Key::Other => (input, running, execute),
    }
}

/// No key sets a cleared running flag again or clears a raised execute flag.
pub proof fn lemma_flags_after_key(key: Key, input: Seq<char>, running: bool, execute: bool)
    ensures
        after_key(key, input, running, execute).1 ==> running,
        execute ==> after_key(key, input, running, execute).2,
{
}

/// Applies one key press to the shared cells.
pub fn event_callback(key: Key, user_input: &mut Vec<char>, running: &mut bool, execute: &mut bool)
    ensures
        (final(user_input)@, *final(running), *final(execute)) == after_key(
            key,
            old(user_input)@,
            *old(running),
            *old(execute),
        ),
{
    match key {
        Key::Esc => {
            *running = false;
        },
        Key::Backspace => {
            let _ = user_input.pop();
        },
        Key::Char(c) => {
            user_input.push(c);
        },
        Key::Enter => {
            *execute = true;
        },
        Key::Other => {},
    }
}

/// What the keyboard loop is handed.
#[derive(Clone, Copy, Debug, PartialEq, Eq, Structural)]
pub enum InputEvent {
    /// A key was pressed.
    Press(Key),
    /// Something else happened at the terminal.
    Other,
    /// Reading the next event failed.
    Failed,
}

/// What the keyboard loop does next. The screen is drawn after every event.
#[derive(Clone, Copy, Debug, PartialEq, Eq, Structural)]
pub enum InputAction {
    /// Draw the screen and wait for the next event.
    Render,
    /// Draw the screen and leave the loop.
    RenderAndStop,
}

/// One turn of the keyboard loop.
///
/// A key press is applied as [`after_key`] says, and the loop ends if the
/// session no longer runs after it. A failed read ends the session and the
/// loop. Any other event changes nothing.
pub fn input_step(
    event: InputEvent,
    user_input: &mut Vec<char>,
    running: &mut bool,
    execute: &mut bool,
) -> (action: InputAction)
    ensures
        match event {
            InputEvent::Press(key) => {
                &&& (final(user_input)@, *final(running), *final(execute)) == after_key(
                    key,
                    old(user_input)@,
                    *old(running),
                    *old(execute),
                )
                &&& action == if *final(running) {
                    InputAction::Render
                } else {
                    InputAction::RenderAndStop
                }
            },
            InputEvent::Other => {
                &&& final(user_input)@ == old(user_input)@
                &&& *final(running) == *old(running)
                &&& *final(execute) == *old(execute)
                &&& action == InputAction::Render
            },
            InputEvent::Failed => {
                &&& final(user_input)@ == old(user_input)@
                &&& !*final(running)
                &&& *final(execute) == *old(execute)
                &&& action == InputAction::RenderAndStop
            },
        },
{
    match event {
        InputEvent::Press(key) => {
            event_callback(key, user_input, running, execute);
            if *running {
                InputAction::Render
            } else {
                InputAction::RenderAndStop
            }
        },
        InputEvent::Other => InputAction::Render,
        InputEvent::Failed => {
            *running = false;
            InputAction::RenderAndStop
        },
    }
}

} // verus!
