use dragon_game::input::{command_for_key, Command, KeyInput};

#[test]
fn keys_map_to_commands() {
    assert_eq!(command_for_key(KeyInput::Char('q'), true), Command::Quit);
    assert_eq!(command_for_key(KeyInput::Escape, true), Command::Quit);
    assert_eq!(command_for_key(KeyInput::Char('r'), true), Command::Restart);
    assert_eq!(command_for_key(KeyInput::Char(' '), true), Command::Jump);
    assert_eq!(command_for_key(KeyInput::Char('Q'), true), Command::Ignore);
    assert_eq!(command_for_key(KeyInput::Other, true), Command::Ignore);
}

#[test]
fn releases_are_ignored() {
    assert_eq!(command_for_key(KeyInput::Char('q'), false), Command::Ignore);
    assert_eq!(command_for_key(KeyInput::Escape, false), Command::Ignore);
    assert_eq!(command_for_key(KeyInput::Char(' '), false), Command::Ignore);
}
