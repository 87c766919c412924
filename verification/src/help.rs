use vstd::prelude::*;
use vstd::string::StringExecFns;

use crate::arg::Arg;
use crate::command::Command;

verus! {

/// One line of the options block: the argument's display form and
/// description, separated by a tab.
pub open spec fn spec_arg_line(a: Arg) -> Seq<char> {
    "  --"@ + a.name@ + "\t"@ + a.description@ + "\n\n"@
}

/// The options block body, one line per argument in declaration order.
pub open spec fn spec_args_block(args: Seq<Arg>) -> Seq<char>
    decreases args.len(),
{
    if args.len() == 0 {
        Seq::empty()
    } else {
        spec_arg_line(args[0]) + spec_args_block(args.skip(1))
    }
}

/// One line of the subcommands block: the child's name and description.
pub open spec fn spec_sub_line(c: Command) -> Seq<char> {
    "  "@ + c.name@ + "\t"@ + c.description@ + "\n\n"@
}

/// The subcommands block body, one line per child in declaration order.
pub open spec fn spec_subs_block(subs: Seq<Command>) -> Seq<char>
    decreases subs.len(),
{
    if subs.len() == 0 {
        Seq::empty()
    } else {
        spec_sub_line(subs[0]) + spec_subs_block(subs.skip(1))
    }
}

/// The full help text for a command: usage line, description, then an
/// options block and a subcommands block, each present only when non-empty
/// and each order-preserving.
pub open spec fn spec_help(cmd: Command) -> Seq<char> {
    "Usage: "@ + cmd.name@ + " [OPTIONS] [SUBCOMMAND]\n\n"@ + cmd.description@ + "\n\n"@ + (
    if cmd.args@.len() > 0 {
        "Options:\n"@ + spec_args_block(cmd.args@)
    } else {
        Seq::<char>::empty()
    }) + (if cmd.subcommands@.len() > 0 {
        "Subcommands:\n"@ + spec_subs_block(cmd.subcommands@)
    } else {
        Seq::<char>::empty()
    })
}

proof fn lemma_args_block_take(args: Seq<Arg>, n: int)
    requires
        0 <= n < args.len(),
    ensures
        spec_args_block(args.take(n + 1)) == spec_args_block(args.take(n)) + spec_arg_line(
            args[n],
        ),
    decreases n,
{
    if n == 0 {
        reveal_with_fuel(spec_args_block, 3);
        assert(args.take(1).skip(1) =~= Seq::<Arg>::empty());
        assert(args.take(0) =~= Seq::<Arg>::empty());
        assert(spec_args_block(args.take(1)) =~= spec_args_block(args.take(0)) + spec_arg_line(
            args[0],
        ));
    } else {
        let tail = args.skip(1);
        assert(args.take(n + 1).skip(1) =~= tail.take(n));
        assert(args.take(n).skip(1) =~= tail.take(n - 1));
        lemma_args_block_take(tail, n - 1);
        assert(spec_args_block(args.take(n + 1)) =~= spec_args_block(args.take(n)) + spec_arg_line(
            args[n],
        ));
    }
}

proof fn lemma_subs_block_take(subs: Seq<Command>, n: int)
    requires
        0 <= n < subs.len(),
    ensures
        spec_subs_block(subs.take(n + 1)) == spec_subs_block(subs.take(n)) + spec_sub_line(
            subs[n],
        ),
    decreases n,
{
    if n == 0 {
        reveal_with_fuel(spec_subs_block, 3);
        assert(subs.take(1).skip(1) =~= Seq::<Command>::empty());
        assert(subs.take(0) =~= Seq::<Command>::empty());
        assert(spec_subs_block(subs.take(1)) =~= spec_subs_block(subs.take(0)) + spec_sub_line(
            subs[0],
        ));
    } else {
        let tail = subs.skip(1);
        assert(subs.take(n + 1).skip(1) =~= tail.take(n));
        assert(subs.take(n).skip(1) =~= tail.take(n - 1));
        lemma_subs_block_take(tail, n - 1);
        assert(spec_subs_block(subs.take(n + 1)) =~= spec_subs_block(subs.take(n)) + spec_sub_line(
            subs[n],
        ));
    }
}

impl Command {
    /// Renders the deterministic help text described by [`spec_help`]:
    /// producing the text is its only effect; writing it anywhere is the
    /// caller's separate responsibility.
    pub fn generate_help(&self) -> (r: String)
        ensures
            r@ == spec_help(*self),
    {
        let ghost head = "Usage: "@ + self.name@ + " [OPTIONS] [SUBCOMMAND]\n\n"@
            + self.description@ + "\n\n"@;
        let mut help = String::from_str("Usage: ");
        help.append(self.name.as_str());
        help.append(" [OPTIONS] [SUBCOMMAND]\n\n");
        help.append(self.description.as_str());
        help.append("\n\n");
        let ghost opts = if self.args@.len() > 0 {
            "Options:\n"@ + spec_args_block(self.args@)
        } else {
            Seq::<char>::empty()
        };
        if self.args.len() > 0 {
            help.append("Options:\n");
            let mut k: usize = 0;
            while k < self.args.len()
                invariant
                    k <= self.args.len(),
                    help@ == head + "Options:\n"@ + spec_args_block(self.args@.take(k as int)),
                decreases self.args.len() - k,
            {
                help.append("  --");
                help.append(self.args[k].name.as_str());
                help.append("\t");
                help.append(self.args[k].description.as_str());
                help.append("\n\n");
                proof {
                    lemma_args_block_take(self.args@, k as int);
                    assert(help@ =~= head + "Options:\n"@ + spec_args_block(
                        self.args@.take(k + 1),
                    ));
                }
                k += 1;
            }
            proof {
                assert(self.args@.take(self.args.len() as int) =~= self.args@);
            }
        } else {
            proof {
                assert(help@ =~= head + opts);
            }
        }
        proof {
            assert(help@ == head + opts);
        }
        if self.subcommands.len() > 0 {
            help.append("Subcommands:\n");
            let mut k: usize = 0;
            while k < self.subcommands.len()
                invariant
                    k <= self.subcommands.len(),
                    help@ == head + opts + "Subcommands:\n"@ + spec_subs_block(
                        self.subcommands@.take(k as int),
                    ),
                decreases self.subcommands.len() - k,
            {
                help.append("  ");
                help.append(self.subcommands[k].name.as_str());
                help.append("\t");
                help.append(self.subcommands[k].description.as_str());
                help.append("\n\n");
                proof {
                    lemma_subs_block_take(self.subcommands@, k as int);
                    assert(help@ =~= head + opts + "Subcommands:\n"@ + spec_subs_block(
                        self.subcommands@.take(k + 1),
                    ));
                }
                k += 1;
            }
            proof {
                assert(self.subcommands@.take(self.subcommands.len() as int)
                    =~= self.subcommands@);
                assert(help@ =~= spec_help(*self));
            }
        } else {
            proof {
                assert(help@ =~= spec_help(*self));
            }
        }
        help
    }
}

} // verus!
