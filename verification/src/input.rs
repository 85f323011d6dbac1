use vstd::prelude::*;

verus! {

/// A key as the game reads it: a character key, the escape key, or any other key.
#[derive(Clone, Copy, Debug, PartialEq, Eq)]
pub enum KeyInput {
    Char(char),
    Escape,
    Other,
}

/// What a key asks of the game.
#[derive(Clone, Copy, Debug, PartialEq, Eq)]
pub enum Command {
    /// Stop the game loop.
    Quit,
    /// Start a new game.
    Restart,
    /// Make the dragon jump.
    Jump,
    /// Nothing to do.
    Ignore,
}

/// The command of a key event: only presses count; `q` and escape quit,
/// `r` restarts, space jumps, every other key is ignored.
pub open spec fn key_command(key: KeyInput, pressed: bool) -> Command {
    if !pressed {
        Command::Ignore
    } else {
        match key {
            KeyInput::Char(c) => if c == 'q' {
                Command::Quit
            } else if c == 'r' {
                Command::Restart
            } else if c == ' ' {
                Command::Jump
            } else {
                Command::Ignore
            },
            KeyInput::Escape => Command::Quit,
            KeyInput::Other => Command::Ignore,
        }
    }
}

/// The command of a key event; `pressed` is false for releases and repeats.
pub fn command_for_key(key: KeyInput, pressed: bool) -> (command: Command)
    ensures
        command == key_command(key, pressed),
{
    if !pressed {
        return Command::Ignore;
    }
    match key {
        KeyInput::Char('q') | KeyInput::Escape => Command::Quit,
        KeyInput::Char('r') => Command::Restart,
        KeyInput::Char(' ') => Command::Jump,
        _ => Command::Ignore,
    }
}

/// Only presses do anything: a release or repeat of any key is ignored; a
/// press quits exactly for `q` and escape, restarts exactly for `r`, jumps
/// exactly for space, and is ignored for every other key.
pub proof fn lemma_key_bindings(key: KeyInput)
    ensures
        key_command(key, false) == Command::Ignore,
        (key_command(key, true) == Command::Quit) <==> (key == KeyInput::Char('q') || key
            == KeyInput::Escape),
        (key_command(key, true) == Command::Restart) <==> key == KeyInput::Char('r'),
        (key_command(key, true) == Command::Jump) <==> key == KeyInput::Char(' '),
        (key_command(key, true) == Command::Ignore) <==> !(key == KeyInput::Char('q') || key
            == KeyInput::Escape || key == KeyInput::Char('r') || key == KeyInput::Char(' ')),
{
}

} // verus!
