use tonbi::{Arg, Command, ParseOutcome};

fn greeter() -> Command {
    Command::new("greeter")
        .version("1.0")
        .description("A simple greeting CLI application")
        .arg(
            Arg::new("name", "Name of the person to greet")
                .short('n')
                .takes_value(),
        )
        .arg(Arg::new("enthusiastic", "Add excitement to the greeting").short('e'))
        .subcommand(
            Command::new("farewell")
                .description("Say goodbye instead of hello")
                .arg(
                    Arg::new("name", "Name of the person to bid farewell")
                        .short('n')
                        .takes_value(),
                ),
        )
}

#[test]
fn test_generate_help_exact_text() {
    let expected = "Usage: greeter [OPTIONS] [SUBCOMMAND]\n\n\
                    A simple greeting CLI application\n\n\
                    Options:\n\
                    \x20 --name\tName of the person to greet\n\n\
                    \x20 --enthusiastic\tAdd excitement to the greeting\n\n\
                    Subcommands:\n\
                    \x20 farewell\tSay goodbye instead of hello\n\n";
    assert_eq!(greeter().generate_help(), expected);
}

#[test]
fn test_generate_help_without_blocks() {
    let cmd = Command::new("bare").description("Nothing declared");
    assert_eq!(
        cmd.generate_help(),
        "Usage: bare [OPTIONS] [SUBCOMMAND]\n\nNothing declared\n\n"
    );
}

#[test]
fn test_help_token_is_terminal() {
    let cmd = greeter();
    let expected = cmd.generate_help();
    let tokens = vec!["--help".to_string(), "--zzz".to_string()];
    match cmd.parse_args(&tokens).unwrap() {
        ParseOutcome::Help(text) => assert_eq!(text, expected),
        _ => panic!("expected a help outcome"),
    }
}

#[test]
fn test_short_help_token() {
    let cmd = greeter();
    let expected = cmd.generate_help();
    match cmd.parse_args(&vec!["-h".to_string()]).unwrap() {
        ParseOutcome::Help(text) => assert_eq!(text, expected),
        _ => panic!("expected a help outcome"),
    }
}

#[test]
fn test_version_token_with_version() {
    let cmd = greeter();
    match cmd.parse_args(&vec!["--version".to_string()]).unwrap() {
        ParseOutcome::Version(v) => assert_eq!(v, Some("1.0".to_string())),
        _ => panic!("expected a version outcome"),
    }
}

#[test]
fn test_version_token_without_version() {
    let cmd = Command::new("bare");
    match cmd.parse_args(&vec!["-V".to_string()]).unwrap() {
        ParseOutcome::Version(v) => assert_eq!(v, None),
        _ => panic!("expected a version outcome"),
    }
}

#[test]
fn test_help_in_subcommand_renders_child_help() {
    let cmd = greeter();
    let expected = cmd.subcommands[0].generate_help();
    let tokens = vec!["farewell".to_string(), "--help".to_string()];
    match cmd.parse_args(&tokens).unwrap() {
        ParseOutcome::Help(text) => assert_eq!(text, expected),
        _ => panic!("expected the child's help outcome"),
    }
}
