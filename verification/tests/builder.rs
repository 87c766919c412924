use tonbi::{Arg, Command};

#[test]
fn test_command_creation() {
    let cmd = Command::new("test")
        .description("A test command")
        .version("1.0");

    assert_eq!(cmd.name, "test");
    assert_eq!(cmd.description, "A test command");
    assert_eq!(cmd.version, Some("1.0".to_string()));
}

#[test]
fn test_arg_creation() {
    let arg = Arg::new("name", "Name of the person")
        .short('n')
        .required(true)
        .takes_value();

    assert_eq!(arg.name, "name");
    assert_eq!(arg.description, "Name of the person");
    assert_eq!(arg.required, true);
    assert_eq!(arg.takes_value, true);
    assert_eq!(arg.short, Some('n'));
}

#[test]
fn test_arg_positional_marker() {
    let arg = Arg::new("path", "File to inspect").is_value();
    assert_eq!(arg.is_value, true);
    assert_eq!(arg.takes_value, false);
    assert_eq!(arg.short, None);
    assert_eq!(arg.required, false);
}

#[test]
fn test_command_collects_args_and_subcommands() {
    let cmd = Command::new("tool")
        .arg(Arg::new("verbose", "Say more"))
        .arg(Arg::new("output", "Where to write").takes_value())
        .subcommand(Command::new("check").description("Check things"));

    assert_eq!(cmd.args.len(), 2);
    assert_eq!(cmd.args[0].name, "verbose");
    assert_eq!(cmd.args[1].name, "output");
    assert_eq!(cmd.subcommands.len(), 1);
    assert_eq!(cmd.subcommands[0].name, "check");
    assert_eq!(cmd.version, None);
}
