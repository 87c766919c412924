use vstd::prelude::*;
use vstd::string::StringExecFns;

verus! {

/// Declaration of one argument: a presence-only flag, a valued option, or a
/// positional value.
///
/// Within one [`crate::Command`] the `name` is the lookup key for long
/// options (`--name`), `short` for single-character options (`-n`), and
/// `is_value` marks the argument as positional: it is matched by bare-token
/// position instead of by a prefix.
pub struct Arg {
    pub name: String,
    pub description: String,
    pub required: bool,
    pub takes_value: bool,
    pub short: Option<char>,
    pub is_value: bool,
}

impl Arg {
    /// Creates an argument with the given name and description; every other
    /// field starts out disabled.
    pub fn new(name: &str, description: &str) -> (r: Arg)
        ensures
            r.name@ == name@,
            r.description@ == description@,
            r.required == false,
            r.takes_value == false,
            r.short == None::<char>,
            r.is_value == false,
    {
        Arg {
            name: String::from_str(name),
            description: String::from_str(description),
            required: false,
            takes_value: false,
            short: None,
            is_value: false,
        }
    }

    /// Gives the argument a single-character alias.
    pub fn short(self, short: char) -> (r: Arg)
        ensures
            r == (Arg { short: Some(short), ..self }),
    {
        let mut a = self;
        a.short = Some(short);
        a
    }

    /// Marks whether the argument must appear for a parse to succeed.
    pub fn required(self, required: bool) -> (r: Arg)
        ensures
            r == (Arg { required, ..self }),
    {
        let mut a = self;
        a.required = required;
        a
    }

    /// Marks the argument as consuming the following token as its value.
    pub fn takes_value(self) -> (r: Arg)
        ensures
            r == (Arg { takes_value: true, ..self }),
    {
        let mut a = self;
        a.takes_value = true;
        a
    }

    /// Marks the argument as positional: matched by bare-token position, not
    /// by `--name` or `-c`.
    pub fn is_value(self) -> (r: Arg)
        ensures
            r == (Arg { is_value: true, ..self }),
    {
        let mut a = self;
        a.is_value = true;
        a
    }
}

} // verus!
