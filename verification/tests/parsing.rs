use tonbi::{Arg, ArgMatches, Command, ParseOutcome};

fn matches_of(cmd: &Command, tokens: Vec<String>) -> ArgMatches {
    match cmd.parse_args(&tokens).unwrap() {
        ParseOutcome::Matches(m) => m,
        _ => panic!("expected a matches outcome"),
    }
}

#[test]
fn test_parse_long_option() {
    let cmd = Command::new("test").arg(Arg::new("option", "A test option").takes_value());

    let args = vec!["--option".to_string(), "value".to_string()];
    let matches = matches_of(&cmd, args);
    assert_eq!(matches.value_of("option"), Some("value"))
}

#[test]
fn test_parse_short_option() {
    let cmd =
        Command::new("test").arg(Arg::new("option", "A test option").short('o').takes_value());

    let args = vec!["-o".to_string(), "value".to_string()];
    let matches = matches_of(&cmd, args);

    assert_eq!(matches.value_of("option"), Some("value"));
}

#[test]
fn test_subcommand() {
    let cmd = Command::new("test").subcommand(
        Command::new("sub").arg(Arg::new("suboption", "A sub option").takes_value()),
    );

    let args = vec![
        "sub".to_string(),
        "--suboption".to_string(),
        "value".to_string(),
    ];
    let matches = matches_of(&cmd, args);

    assert!(matches.subcommand().is_some());
    if let Some((subcmd, submatches)) = matches.subcommand() {
        assert_eq!(subcmd, "sub");
        assert_eq!(submatches.value_of("suboption"), Some("value"));
    } else {
        panic!("Subcommand was not parsed correctly");
    }
}

#[test]
fn test_value_kept_verbatim() {
    let cmd = Command::new("test").arg(Arg::new("n", "Some value").takes_value());
    let matches = matches_of(&cmd, vec!["--n".to_string(), "  MiXeD \t".to_string()]);
    assert_eq!(matches.value_of("n"), Some("  MiXeD \t"));
}

#[test]
fn test_long_flag_presence_only() {
    let cmd = Command::new("test").arg(Arg::new("loud", "Be loud"));
    let matches = matches_of(&cmd, vec!["--loud".to_string()]);
    assert!(matches.is_present("loud"));
    assert_eq!(matches.value_of("loud"), None);
    assert!(!matches.is_present("quiet"));
}

#[test]
fn test_short_flag_cluster() {
    let cmd = Command::new("test")
        .arg(Arg::new("all", "Everything").short('a'))
        .arg(Arg::new("brief", "Keep it short").short('b'));
    let matches = matches_of(&cmd, vec!["-ab".to_string()]);
    assert!(matches.is_present("all"));
    assert!(matches.is_present("brief"));
}

#[test]
fn test_cluster_with_valued_short() {
    let cmd = Command::new("test")
        .arg(Arg::new("all", "Everything").short('a'))
        .arg(Arg::new("out", "Target").short('o').takes_value());
    let matches = matches_of(&cmd, vec!["-ao".to_string(), "dest".to_string()]);
    assert!(matches.is_present("all"));
    assert_eq!(matches.value_of("out"), Some("dest"));
}

#[test]
fn test_positional_values_in_declaration_order() {
    let cmd = Command::new("test")
        .arg(Arg::new("verbose", "Say more"))
        .arg(Arg::new("source", "Input file").is_value())
        .arg(Arg::new("target", "Output file").is_value());
    let matches = matches_of(
        &cmd,
        vec![
            "--verbose".to_string(),
            "in.txt".to_string(),
            "out.txt".to_string(),
        ],
    );
    assert!(matches.is_present("verbose"));
    assert_eq!(matches.value_of("source"), Some("in.txt"));
    assert_eq!(matches.value_of("target"), Some("out.txt"));
}

#[test]
fn test_empty_tokens_give_empty_matches() {
    let cmd = Command::new("test").arg(Arg::new("name", "A name").takes_value());
    let matches = matches_of(&cmd, vec![]);
    assert_eq!(matches.value_of("name"), None);
    assert!(!matches.is_present("name"));
    assert!(matches.subcommand().is_none());
}

#[test]
fn test_required_argument_present() {
    let cmd = Command::new("test").arg(Arg::new("name", "A name").required(true).takes_value());
    let matches = matches_of(&cmd, vec!["--name".to_string(), "Ada".to_string()]);
    assert_eq!(matches.value_of("name"), Some("Ada"));
}

#[test]
fn test_subcommand_stops_parent_parsing() {
    let cmd = Command::new("test")
        .arg(Arg::new("flag", "A parent flag"))
        .subcommand(Command::new("sub").arg(Arg::new("flag", "A child flag")));
    let matches = matches_of(&cmd, vec!["sub".to_string(), "--flag".to_string()]);
    assert!(!matches.is_present("flag"));
    let (name, sub) = matches.subcommand().unwrap();
    assert_eq!(name, "sub");
    assert!(sub.is_present("flag"));
}
