use connect_four::{parse_command, Command, ParseCommandError};

#[test]
fn challenge_with_mention_parses() {
    let r = parse_command("c4!challenge hey you", false, 7, 9, &vec![42, 43]);
    assert_eq!(
        r,
        Ok(Command::Challenge { channel: 9, challenger: 7, opponent: 42 })
    );
}

#[test]
fn leading_spaces_before_command_word_are_skipped() {
    let r = parse_command("c4!  \t challenge", false, 7, 9, &vec![42]);
    assert_eq!(
        r,
        Ok(Command::Challenge { channel: 9, challenger: 7, opponent: 42 })
    );
}

#[test]
fn message_without_prefix_is_rejected() {
    assert_eq!(
        parse_command("hello there", false, 7, 9, &vec![42]),
        Err(ParseCommandError::NoPrefix)
    );
    assert_eq!(
        parse_command("c4", false, 7, 9, &vec![42]),
        Err(ParseCommandError::NoPrefix)
    );
    assert_eq!(
        parse_command("", false, 7, 9, &vec![42]),
        Err(ParseCommandError::NoPrefix)
    );
}

#[test]
fn bot_authors_are_rejected() {
    assert_eq!(
        parse_command("c4!challenge", true, 7, 9, &vec![42]),
        Err(ParseCommandError::BotAuthor)
    );
}

#[test]
fn challenge_without_mention_has_no_target() {
    assert_eq!(
        parse_command("c4!challenge nobody", false, 7, 9, &Vec::new()),
        Err(ParseCommandError::InvalidTargetUser)
    );
}

#[test]
fn unknown_command_word_is_reported() {
    assert_eq!(
        parse_command("c4!dance now", false, 7, 9, &vec![42]),
        Err(ParseCommandError::InvalidCommand(String::from("dance")))
    );
}

#[test]
fn empty_command_word_is_reported() {
    assert_eq!(
        parse_command("c4!", false, 7, 9, &vec![42]),
        Err(ParseCommandError::InvalidCommand(String::new()))
    );
    assert_eq!(
        parse_command("c4!   ", false, 7, 9, &vec![42]),
        Err(ParseCommandError::InvalidCommand(String::new()))
    );
}

#[test]
fn prefix_check_comes_before_bot_check() {
    assert_eq!(
        parse_command("no prefix", true, 7, 9, &vec![42]),
        Err(ParseCommandError::NoPrefix)
    );
}

#[test]
fn command_word_must_match_exactly() {
    assert_eq!(
        parse_command("c4!challenger", false, 7, 9, &vec![42]),
        Err(ParseCommandError::InvalidCommand(String::from("challenger")))
    );
    assert_eq!(
        parse_command("c4!Challenge", false, 7, 9, &vec![42]),
        Err(ParseCommandError::InvalidCommand(String::from("Challenge")))
    );
}
