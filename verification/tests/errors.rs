use tonbi::{Arg, Command, ParseError};

fn error_of(cmd: &Command, tokens: Vec<String>) -> ParseError {
    match cmd.parse_args(&tokens) {
        Err(e) => e,
        Ok(_) => panic!("expected an error"),
    }
}

#[test]
fn test_unknown_long_option() {
    let cmd = Command::new("test").arg(Arg::new("known", "Declared"));
    let e = error_of(&cmd, vec!["--zzz".to_string()]);
    match e {
        ParseError::UnknownOption(name) => assert_eq!(name, "zzz"),
        _ => panic!("expected an unknown-option error"),
    }
}

#[test]
fn test_unknown_short_option() {
    let cmd = Command::new("test").arg(Arg::new("known", "Declared").short('k'));
    let e = error_of(&cmd, vec!["-z".to_string()]);
    match e {
        ParseError::UnknownShortOption(c) => assert_eq!(c, 'z'),
        _ => panic!("expected an unknown-short-option error"),
    }
}

#[test]
fn test_missing_value_for_long_option() {
    let cmd = Command::new("test").arg(Arg::new("out", "Target").takes_value());
    let e = error_of(&cmd, vec!["--out".to_string()]);
    match e {
        ParseError::MissingOptionValue(name) => assert_eq!(name, "out"),
        _ => panic!("expected a missing-value error"),
    }
}

#[test]
fn test_missing_value_for_short_option() {
    let cmd = Command::new("test").arg(Arg::new("out", "Target").short('o').takes_value());
    let e = error_of(&cmd, vec!["-o".to_string()]);
    match e {
        ParseError::MissingOptionValue(name) => assert_eq!(name, "out"),
        _ => panic!("expected a missing-value error"),
    }
}

#[test]
fn test_unknown_argument_without_positional_slot() {
    let cmd = Command::new("test").arg(Arg::new("flag", "A flag"));
    let e = error_of(&cmd, vec!["stray".to_string()]);
    match e {
        ParseError::UnknownArgument(token) => assert_eq!(token, "stray"),
        _ => panic!("expected an unknown-argument error"),
    }
}

#[test]
fn test_missing_required_argument() {
    let cmd = Command::new("test").arg(Arg::new("name", "A name").required(true).takes_value());
    let e = error_of(&cmd, vec![]);
    match e {
        ParseError::MissingRequiredArgument(name) => assert_eq!(name, "name"),
        _ => panic!("expected a missing-required error"),
    }
}

#[test]
fn test_error_in_subcommand_aborts_whole_parse() {
    let cmd = Command::new("test").subcommand(Command::new("sub"));
    let e = error_of(&cmd, vec!["sub".to_string(), "--zzz".to_string()]);
    match e {
        ParseError::UnknownOption(name) => assert_eq!(name, "zzz"),
        _ => panic!("expected the child's unknown-option error"),
    }
}

#[test]
fn test_error_messages() {
    assert_eq!(
        ParseError::UnknownOption("zzz".to_string()).message(),
        "Unknown option: zzz"
    );
    assert_eq!(
        ParseError::UnknownShortOption('z').message(),
        "Unknown option: -z"
    );
    assert_eq!(
        ParseError::MissingOptionValue("out".to_string()).message(),
        "Option out requires a value"
    );
    assert_eq!(
        ParseError::UnknownArgument("stray".to_string()).message(),
        "Unknown argument: stray"
    );
    assert_eq!(
        ParseError::MissingRequiredArgument("name".to_string()).message(),
        "Missing required argument: name"
    );
}
