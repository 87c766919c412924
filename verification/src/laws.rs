use vstd::prelude::*;

use crate::arg::Arg;
use crate::command::Command;
use crate::help::spec_help;
use crate::matches::MatchesModel;
use crate::outcome::ErrorModel;
use crate::outcome::OutcomeModel;
use crate::parse::is_long_token;
use crate::parse::spec_find_by_name;
use crate::parse::spec_find_by_short;
use crate::parse::spec_find_sub;
use crate::parse::spec_finish;
use crate::parse::spec_first_missing_required;
use crate::parse::spec_parse;
use crate::parse::spec_parse_from;
use crate::parse::spec_parse_shorts;

verus! {

/// When every required argument has an entry in `vals`, the required check
/// finds nothing missing.
pub proof fn lemma_no_missing_required(args: Seq<Arg>, vals: Map<Seq<char>, Option<Seq<char>>>)
    requires
        forall|j: int|
            0 <= j < args.len() && (#[trigger] args[j]).required ==> vals.contains_key(
                args[j].name@,
            ),
    ensures
        spec_first_missing_required(args, vals) == None::<Seq<char>>,
    decreases args.len(),
{
    if args.len() > 0 {
        let tail = args.skip(1);
        assert forall|j: int|
            0 <= j < tail.len() && (#[trigger] tail[j]).required implies vals.contains_key(
            tail[j].name@,
        ) by {
            assert(tail[j] == args[j + 1]);
        }
        lemma_no_missing_required(tail, vals);
    }
}

/// A token sequence that begins with the help token always ends the parse
/// with exactly the command's rendered help text, never with an error,
/// whatever the command declares and whatever tokens follow.
pub proof fn lemma_help_is_terminal(cmd: Command, tokens: Seq<Seq<char>>)
    requires
        tokens.len() > 0,
        tokens[0] == "--help"@ || tokens[0] == "-h"@,
    ensures
        spec_parse(cmd, tokens) == OutcomeModel::Help(spec_help(cmd)),
{
}

/// A long option declared with `takes_value` records the following token as
/// its value, exactly as given: the two tokens parse to a result whose map
/// holds precisely that one entry.
///
/// Stated for commands whose required arguments, if any, are all the matched
/// option itself: any other unmatched required argument turns the result
/// into its own error instead.
pub proof fn lemma_long_valued_option(cmd: Command, t: Seq<char>, v: Seq<char>)
    requires
        is_long_token(t),
        t != "--help"@,
        t != "--version"@,
        spec_find_by_name(cmd.args@, t.skip(2)) matches Some(a) && a.takes_value,
        forall|j: int|
            0 <= j < cmd.args@.len() && (#[trigger] cmd.args@[j]).required ==> cmd.args@[j].name@
                == t.skip(2),
    ensures
        spec_parse(cmd, seq![t, v]) == OutcomeModel::Matches(
            MatchesModel {
                values: Map::empty().insert(t.skip(2), Some(v)),
                sub: None,
            },
        ),
{
    reveal_strlit("-h");
    reveal_strlit("-V");
    let tokens = seq![t, v];
    assert(t != "-h"@ && t != "-V"@);
    let vals = Map::empty().insert(t.skip(2), Some(v));
    assert(tokens.skip(2) =~= Seq::<Seq<char>>::empty());
    assert(tokens[0] == t && tokens[1] == v && tokens.len() == 2);
    lemma_no_missing_required(cmd.args@, vals);
    assert(spec_parse_from(cmd, Seq::<Seq<char>>::empty(), vals, 0) == spec_finish(
        cmd,
        MatchesModel { values: vals, sub: None },
    ));
    assert(spec_parse_from(cmd, tokens, Map::empty(), 0) == spec_parse_from(
        cmd,
        tokens.skip(2),
        vals,
        0,
    ));
}

/// A long option token whose name no argument declares fails the parse with
/// that name's error, whatever tokens follow: no result is returned.
pub proof fn lemma_unknown_long_option(cmd: Command, t: Seq<char>, rest: Seq<Seq<char>>)
    requires
        is_long_token(t),
        t != "--help"@,
        t != "--version"@,
        spec_find_by_name(cmd.args@, t.skip(2)) == None::<Arg>,
    ensures
        spec_parse(cmd, seq![t] + rest) == OutcomeModel::Fail(
            ErrorModel::UnknownOption(t.skip(2)),
        ),
{
    reveal_strlit("-h");
    reveal_strlit("-V");
    let tokens = seq![t] + rest;
    assert(tokens[0] == t);
    assert(t != "-h"@ && t != "-V"@);
}

/// Two valueless short options cluster: one token carrying both characters
/// records both argument names, and nothing else.
///
/// Stated for commands whose required arguments, if any, are among the two
/// matched ones.
pub proof fn lemma_short_flag_cluster(cmd: Command, c1: char, c2: char)
    requires
        c1 != '-',
        spec_find_by_short(cmd.args@, c1) matches Some(a) && !a.takes_value,
        spec_find_by_short(cmd.args@, c2) matches Some(b) && !b.takes_value,
        forall|j: int|
            0 <= j < cmd.args@.len() && (#[trigger] cmd.args@[j]).required ==> (cmd.args@[j].name@
                == spec_find_by_short(cmd.args@, c1)->0.name@ || cmd.args@[j].name@
                == spec_find_by_short(cmd.args@, c2)->0.name@),
    ensures
        spec_parse(cmd, seq![seq!['-', c1, c2]]) == OutcomeModel::Matches(
            MatchesModel {
                values: Map::empty().insert(
                    spec_find_by_short(cmd.args@, c1)->0.name@,
                    None,
                ).insert(spec_find_by_short(cmd.args@, c2)->0.name@, None),
                sub: None,
            },
        ),
{
    reveal_strlit("--help");
    reveal_strlit("-h");
    reveal_strlit("--version");
    reveal_strlit("-V");
    let t = seq!['-', c1, c2];
    let a = spec_find_by_short(cmd.args@, c1)->0;
    let b = spec_find_by_short(cmd.args@, c2)->0;
    assert(t.len() == 3);
    assert(t != "--help"@ && t != "-h"@ && t != "--version"@ && t != "-V"@);
    assert(!is_long_token(t));
    assert(t.skip(1) =~= seq![c1, c2]);
    assert(seq![c1, c2].skip(1) =~= seq![c2]);
    assert(seq![c2].skip(1) =~= Seq::<char>::empty());
    let tokens = seq![t];
    assert(tokens[0] == t && tokens.len() == 1);
    let none_toks = Seq::<Seq<char>>::empty();
    assert(tokens.skip(1) =~= none_toks);
    let vals1 = Map::<Seq<char>, Option<Seq<char>>>::empty().insert(a.name@, None::<Seq<char>>);
    let vals = vals1.insert(b.name@, None::<Seq<char>>);
    lemma_no_missing_required(cmd.args@, vals);
    assert(spec_parse_from(cmd, none_toks, vals, 0) == spec_finish(
        cmd,
        MatchesModel { values: vals, sub: None },
    ));
    assert(spec_parse_shorts(cmd, Seq::<char>::empty(), none_toks, vals, 0) == spec_parse_from(
        cmd,
        none_toks,
        vals,
        0,
    ));
    assert(spec_parse_shorts(cmd, seq![c2], none_toks, vals1, 0) == spec_parse_shorts(
        cmd,
        seq![c2].skip(1),
        none_toks,
        vals,
        0,
    ));
    assert(spec_parse_shorts(cmd, seq![c1, c2], none_toks, Map::empty(), 0) == spec_parse_shorts(
        cmd,
        seq![c1, c2].skip(1),
        none_toks,
        vals1,
        0,
    ));
    assert(spec_parse_from(cmd, tokens, Map::empty(), 0) == spec_parse_shorts(
        cmd,
        t.skip(1),
        none_toks,
        Map::empty(),
        0,
    ));
}

/// Subcommand delegation: a bare token naming a child command hands every
/// following token to that child, and the parent's result holds exactly the
/// child's result under that name, with nothing recorded at the parent
/// level.
///
/// Stated for parents with no required arguments: a required parent argument
/// turns the result into its own error instead.
pub proof fn lemma_subcommand_delegation(
    cmd: Command,
    t: Seq<char>,
    rest: Seq<Seq<char>>,
    m: MatchesModel,
)
    requires
        t.len() == 0 || t[0] != '-',
        spec_find_sub(cmd.subcommands@, t) matches Some(sub) && spec_parse(sub, rest)
            == OutcomeModel::Matches(m),
        forall|j: int| 0 <= j < cmd.args@.len() ==> !(#[trigger] cmd.args@[j]).required,
    ensures
        spec_parse(cmd, seq![t] + rest) == OutcomeModel::Matches(
            MatchesModel {
                values: Map::empty(),
                sub: Some((t, Box::new(m))),
            },
        ),
{
    reveal_strlit("--help");
    reveal_strlit("-h");
    reveal_strlit("--version");
    reveal_strlit("-V");
    let tokens = seq![t] + rest;
    assert(tokens[0] == t);
    assert(t != "--help"@ && t != "-h"@ && t != "--version"@ && t != "-V"@);
    assert(!is_long_token(t));
    assert(tokens.skip(1) =~= rest);
    lemma_no_missing_required(cmd.args@, Map::empty());
}

} // verus!
