use vstd::prelude::*;
use vstd::string::StringExecFns;

use crate::arg::Arg;

verus! {

/// One node of the command tree: a command or subcommand with its own
/// arguments and child commands, built once with the fluent methods below
/// and then treated as immutable by parsing and help generation.
///
/// Construction performs no validation: duplicate argument names or short
/// aliases are accepted, and lookups at parse time take the first match in
/// declaration order.
pub struct Command {
    pub name: String,
    pub description: String,
    pub version: Option<String>,
    pub args: Vec<Arg>,
    pub subcommands: Vec<Command>,
}

impl Command {
    /// Creates a command with the given name and nothing else declared.
    pub fn new(name: &str) -> (r: Command)
        ensures
            r.name@ == name@,
            r.description@ == Seq::<char>::empty(),
            r.version == None::<String>,
            r.args@ == Seq::<Arg>::empty(),
            r.subcommands@ == Seq::<Command>::empty(),
    {
        Command {
            name: String::from_str(name),
            description: String::new(),
            version: None,
            args: Vec::new(),
            subcommands: Vec::new(),
        }
    }

    /// Attaches the display description.
    pub fn description(self, desc: &str) -> (r: Command)
        ensures
            r.name == self.name,
            r.description@ == desc@,
            r.version == self.version,
            r.args == self.args,
            r.subcommands == self.subcommands,
    {
        let mut c = self;
        c.description = String::from_str(desc);
        c
    }

    /// Appends one argument declaration.
    pub fn arg(self, arg: Arg) -> (r: Command)
        ensures
            r.name == self.name,
            r.description == self.description,
            r.version == self.version,
            r.args@ == self.args@.push(arg),
            r.subcommands == self.subcommands,
    {
        let mut c = self;
        c.args.push(arg);
        c
    }

    /// Appends one child command.
    pub fn subcommand(self, subcommand: Command) -> (r: Command)
        ensures
            r.name == self.name,
            r.description == self.description,
            r.version == self.version,
            r.args == self.args,
            r.subcommands@ == self.subcommands@.push(subcommand),
    {
        let mut c = self;
        c.subcommands.push(subcommand);
        c
    }

    /// Declares the version string reported for `--version`.
    pub fn version(self, version: &str) -> (r: Command)
        ensures
            r.name == self.name,
            r.description == self.description,
            r.version matches Some(v) && v@ == version@,
            r.args == self.args,
            r.subcommands == self.subcommands,
    {
        let mut c = self;
        c.version = Some(String::from_str(version));
        c
    }
}

} // verus!
