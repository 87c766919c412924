use vstd::prelude::*;
use vstd::string::StrSliceExecFns;
use vstd::string::StringExecFns;

use crate::arg::Arg;
use crate::command::Command;
use crate::help::spec_help;
use crate::matches::ArgMatches;
use crate::matches::MatchesModel;
use crate::outcome::ErrorModel;
use crate::outcome::OutcomeModel;
use crate::outcome::ParseError;
use crate::outcome::ParseOutcome;

verus! {

/// Character-for-character string comparison, so that branch decisions in
/// the parser are themselves verified rather than trusted.
pub(crate) fn str_eq(a: &str, b: &str) -> (r: bool)
    ensures
        r == (a@ == b@),
{
    let alen = a.unicode_len();
    let blen = b.unicode_len();
    if alen != blen {
        return false;
    }
    let mut k: usize = 0;
    while k < alen
        invariant
            alen == a@.len(),
            blen == b@.len(),
            alen == blen,
            k <= alen,
            forall|j: int| 0 <= j < k ==> a@[j] == b@[j],
        decreases alen - k,
    {
        if a.get_char(k) != b.get_char(k) {
            return false;
        }
        k += 1;
    }
    proof {
        assert(a@ =~= b@);
    }
    true
}

/// Whether a token is written as a long option: it begins with `--`.
pub open spec fn is_long_token(t: Seq<char>) -> bool {
    t.len() >= 2 && t[0] == '-' && t[1] == '-'
}

/// The first argument declared under `name`, in declaration order.
pub open spec fn spec_find_by_name(args: Seq<Arg>, name: Seq<char>) -> Option<Arg>
    decreases args.len(),
{
    if args.len() == 0 {
        None
    } else if args[0].name@ == name {
        Some(args[0])
    } else {
        spec_find_by_name(args.skip(1), name)
    }
}

/// The first argument declared with `c` as its short alias.
pub open spec fn spec_find_by_short(args: Seq<Arg>, c: char) -> Option<Arg>
    decreases args.len(),
{
    if args.len() == 0 {
        None
    } else if args[0].short == Some(c) {
        Some(args[0])
    } else {
        spec_find_by_short(args.skip(1), c)
    }
}

/// The first child command declared under `name`.
pub open spec fn spec_find_sub(subs: Seq<Command>, name: Seq<char>) -> Option<Command>
    decreases subs.len(),
{
    if subs.len() == 0 {
        None
    } else if subs[0].name@ == name {
        Some(subs[0])
    } else {
        spec_find_sub(subs.skip(1), name)
    }
}

/// The positional arguments among `args`, keeping declaration order. A bare
/// token that matches no subcommand is assigned to the next unfilled slot of
/// this sequence, independent of how many option tokens came before it.
pub open spec fn spec_positionals(args: Seq<Arg>) -> Seq<Arg>
    decreases args.len(),
{
    if args.len() == 0 {
        Seq::empty()
    } else if args[0].is_value {
        seq![args[0]] + spec_positionals(args.skip(1))
    } else {
        spec_positionals(args.skip(1))
    }
}

/// The name of the first argument, in declaration order, that is declared
/// `required` but has no entry in `vals`; `None` when every required
/// argument was matched.
pub open spec fn spec_first_missing_required(
    args: Seq<Arg>,
    vals: Map<Seq<char>, Option<Seq<char>>>,
) -> Option<Seq<char>>
    decreases args.len(),
{
    if args.len() == 0 {
        None
    } else if args[0].required && !vals.contains_key(args[0].name@) {
        Some(args[0].name@)
    } else {
        spec_first_missing_required(args.skip(1), vals)
    }
}

/// How a level's parse ends once it stops consuming tokens: with the first
/// missing required argument's error, or with the accumulated result.
pub open spec fn spec_finish(cmd: Command, m: MatchesModel) -> OutcomeModel {
    match spec_first_missing_required(cmd.args@, m.values) {
        Some(n) => OutcomeModel::Fail(ErrorModel::MissingRequiredArgument(n)),
        None => OutcomeModel::Matches(m),
    }
}

/// The parsing algorithm, over one level's remaining tokens.
///
/// `vals` holds what earlier tokens of this level recorded and `pos` how
/// many positional slots they filled. Tokens are classified in this order:
/// the reserved help and version tokens, long options, short-option
/// clusters, subcommand names, positional values.
pub open spec fn spec_parse_from(
    cmd: Command,
    tokens: Seq<Seq<char>>,
    vals: Map<Seq<char>, Option<Seq<char>>>,
    pos: nat,
) -> OutcomeModel
    decreases tokens.len(), 1int, 0int,
{
    if tokens.len() == 0 {
        spec_finish(cmd, MatchesModel { values: vals, sub: None })
    } else {
        let t = tokens[0];
        if t == "--help"@ || t == "-h"@ {
            OutcomeModel::Help(spec_help(cmd))
        } else if t == "--version"@ || t == "-V"@ {
            OutcomeModel::Version(
                match cmd.version {
                    Some(v) => Some(v@),
                    None => None,
                },
            )
        } else if is_long_token(t) {
            let name = t.skip(2);
            match spec_find_by_name(cmd.args@, name) {
                Some(a) => if a.takes_value {
                    if tokens.len() >= 2 {
                        spec_parse_from(
                            cmd,
                            tokens.skip(2),
                            vals.insert(name, Some(tokens[1])),
                            pos,
                        )
                    } else {
                        OutcomeModel::Fail(ErrorModel::MissingOptionValue(name))
                    }
                } else {
                    spec_parse_from(cmd, tokens.skip(1), vals.insert(name, None), pos)
                },
                None => OutcomeModel::Fail(ErrorModel::UnknownOption(name)),
            }
        } else if t.len() >= 1 && t[0] == '-' {
            spec_parse_shorts(cmd, t.skip(1), tokens.skip(1), vals, pos)
        } else {
            match spec_find_sub(cmd.subcommands@, t) {
                Some(sub) => match spec_parse_from(sub, tokens.skip(1), Map::empty(), 0) {
                    OutcomeModel::Matches(m) => spec_finish(
                        cmd,
                        MatchesModel { values: vals, sub: Some((t, Box::new(m))) },
                    ),
                    other => other,
                },
                None => {
                    if pos < spec_positionals(cmd.args@).len() {
                        spec_parse_from(
                            cmd,
                            tokens.skip(1),
                            vals.insert(spec_positionals(cmd.args@)[pos as int].name@, Some(t)),
                            pos + 1,
                        )
                    } else {
                        OutcomeModel::Fail(ErrorModel::UnknownArgument(t))
                    }
                },
            }
        }
    }
}

/// One short-option cluster, character by character.
///
/// Each character is its own option; a value-taking one consumes the next
/// whole remaining token, so a cluster may consume several tokens after it.
pub open spec fn spec_parse_shorts(
    cmd: Command,
    cluster: Seq<char>,
    rest: Seq<Seq<char>>,
    vals: Map<Seq<char>, Option<Seq<char>>>,
    pos: nat,
) -> OutcomeModel
    decreases rest.len(), 2int, cluster.len(),
{
    if cluster.len() == 0 {
        spec_parse_from(cmd, rest, vals, pos)
    } else {
        match spec_find_by_short(cmd.args@, cluster[0]) {
            Some(a) => if a.takes_value {
                if rest.len() >= 1 {
                    spec_parse_shorts(
                        cmd,
                        cluster.skip(1),
                        rest.skip(1),
                        vals.insert(a.name@, Some(rest[0])),
                        pos,
                    )
                } else {
                    OutcomeModel::Fail(ErrorModel::MissingOptionValue(a.name@))
                }
            } else {
                spec_parse_shorts(cmd, cluster.skip(1), rest, vals.insert(a.name@, None), pos)
            },
            None => OutcomeModel::Fail(ErrorModel::UnknownShortOption(cluster[0])),
        }
    }
}

/// The result a parse must have: the whole algorithm from the first token,
/// with nothing yet recorded.
pub open spec fn spec_parse(cmd: Command, tokens: Seq<Seq<char>>) -> OutcomeModel {
    spec_parse_from(cmd, tokens, Map::empty(), 0)
}

/// How an executable result realises a model: same variant, and each carried
/// value views to the model's.
pub open spec fn outcome_matches(r: Result<ParseOutcome, ParseError>, s: OutcomeModel) -> bool {
    match (r, s) {
        (Ok(ParseOutcome::Matches(m)), OutcomeModel::Matches(mm)) => m@ == mm,
        (Ok(ParseOutcome::Help(h)), OutcomeModel::Help(hh)) => h@ == hh,
        (Ok(ParseOutcome::Version(v)), OutcomeModel::Version(vv)) => v.deep_view() == vv,
        (Err(e), OutcomeModel::Fail(ee)) => e@ == ee,
        _ => false,
    }
}

fn find_arg_by_name(args: &Vec<Arg>, j: usize, name: &str) -> (r: Option<usize>)
    requires
        j <= args.len(),
    ensures
        match r {
            Some(k) => j <= k < args.len() && spec_find_by_name(args@.skip(j as int), name@)
                == Some(args@[k as int]),
            None => spec_find_by_name(args@.skip(j as int), name@) == None::<Arg>,
        },
    decreases args.len() - j,
{
    if j == args.len() {
        proof {
            assert(args@.skip(j as int) =~= Seq::<Arg>::empty());
        }
        None
    } else if str_eq(args[j].name.as_str(), name) {
        Some(j)
    } else {
        let r = find_arg_by_name(args, j + 1, name);
        proof {
            assert(args@.skip(j as int).skip(1) =~= args@.skip(j + 1));
        }
        r
    }
}

fn find_arg_by_short(args: &Vec<Arg>, j: usize, c: char) -> (r: Option<usize>)
    requires
        j <= args.len(),
    ensures
        match r {
            Some(k) => j <= k < args.len() && spec_find_by_short(args@.skip(j as int), c) == Some(
                args@[k as int],
            ),
            None => spec_find_by_short(args@.skip(j as int), c) == None::<Arg>,
        },
    decreases args.len() - j,
{
    if j == args.len() {
        proof {
            assert(args@.skip(j as int) =~= Seq::<Arg>::empty());
        }
        None
    } else {
        let hit = match args[j].short {
            Some(s) => s == c,
            None => false,
        };
        if hit {
            Some(j)
        } else {
            let r = find_arg_by_short(args, j + 1, c);
            proof {
                assert(args@.skip(j as int).skip(1) =~= args@.skip(j + 1));
            }
            r
        }
    }
}

fn find_sub(subs: &Vec<Command>, j: usize, name: &str) -> (r: Option<usize>)
    requires
        j <= subs.len(),
    ensures
        match r {
            Some(k) => j <= k < subs.len() && spec_find_sub(subs@.skip(j as int), name@) == Some(
                subs@[k as int],
            ) && subs@[k as int].name@ == name@,
            None => spec_find_sub(subs@.skip(j as int), name@) == None::<Command>,
        },
    decreases subs.len() - j,
{
    if j == subs.len() {
        proof {
            assert(subs@.skip(j as int) =~= Seq::<Command>::empty());
        }
        None
    } else if str_eq(subs[j].name.as_str(), name) {
        Some(j)
    } else {
        let r = find_sub(subs, j + 1, name);
        proof {
            assert(subs@.skip(j as int).skip(1) =~= subs@.skip(j + 1));
        }
        r
    }
}

fn find_positional(args: &Vec<Arg>, j: usize, pos: usize) -> (r: Option<usize>)
    requires
        j <= args.len(),
    ensures
        match r {
            Some(k) => j <= k < args.len() && (pos as int) < spec_positionals(
                args@.skip(j as int),
            ).len() && spec_positionals(args@.skip(j as int))[pos as int] == args@[k as int],
            None => pos >= spec_positionals(args@.skip(j as int)).len(),
        },
    decreases args.len() - j,
{
    if j == args.len() {
        proof {
            assert(args@.skip(j as int) =~= Seq::<Arg>::empty());
        }
        None
    } else if args[j].is_value {
        if pos == 0 {
            Some(j)
        } else {
            let r = find_positional(args, j + 1, pos - 1);
            proof {
                assert(args@.skip(j as int).skip(1) =~= args@.skip(j + 1));
            }
            r
        }
    } else {
        let r = find_positional(args, j + 1, pos);
        proof {
            assert(args@.skip(j as int).skip(1) =~= args@.skip(j + 1));
        }
        r
    }
}

fn find_missing_required(args: &Vec<Arg>, m: &ArgMatches, j: usize) -> (r: Option<usize>)
    requires
        j <= args.len(),
    ensures
        match r {
            Some(k) => j <= k < args.len() && spec_first_missing_required(
                args@.skip(j as int),
                m@.values,
            ) == Some(args@[k as int].name@),
            None => spec_first_missing_required(args@.skip(j as int), m@.values) == None::<
                Seq<char>,
            >,
        },
    decreases args.len() - j,
{
    if j == args.len() {
        proof {
            assert(args@.skip(j as int) =~= Seq::<Arg>::empty());
        }
        None
    } else if args[j].required && !m.is_present(args[j].name.as_str()) {
        Some(j)
    } else {
        let r = find_missing_required(args, m, j + 1);
        proof {
            assert(args@.skip(j as int).skip(1) =~= args@.skip(j + 1));
        }
        r
    }
}

} // verus!

verus! {

impl Command {
    fn finish(&self, matches: ArgMatches) -> (r: Result<ParseOutcome, ParseError>)
        ensures
            outcome_matches(r, spec_finish(*self, matches@)),
    {
        match find_missing_required(&self.args, &matches, 0) {
            Some(k) => {
                proof {
                    assert(self.args@.skip(0) =~= self.args@);
                }
                Err(ParseError::MissingRequiredArgument(self.args[k].name.clone()))
            },
            None => {
                proof {
                    assert(self.args@.skip(0) =~= self.args@);
                }
                Ok(ParseOutcome::Matches(matches))
            },
        }
    }
}

} // verus!

verus! {

proof fn lemma_positionals_len(args: Seq<Arg>)
    ensures
        spec_positionals(args).len() <= args.len(),
    decreases args.len(),
{
    if args.len() > 0 {
        lemma_positionals_len(args.skip(1));
    }
}

impl Command {
    /// Parses one level's tokens from index `i` on, with `matches` holding
    /// what the tokens before `i` recorded and `pos` counting the positional
    /// slots they filled.
    fn parse_from(&self, args: &Vec<String>, i: usize, matches: ArgMatches, pos: usize) -> (r:
        Result<ParseOutcome, ParseError>)
        requires
            i <= args.len(),
            matches@.sub == None::<(Seq<char>, Box<MatchesModel>)>,
        ensures
            outcome_matches(
                r,
                spec_parse_from(
                    *self,
                    args.deep_view().skip(i as int),
                    matches@.values,
                    pos as nat,
                ),
            ),
        decreases args.len() - i, 1int, 0int,
    {
        let ghost toks = args.deep_view().skip(i as int);
        let ghost vals0 = matches@.values;
        if i == args.len() {
            proof {
                assert(toks =~= Seq::<Seq<char>>::empty());
                assert(matches@ =~= (MatchesModel { values: vals0, sub: None }));
            }
            return self.finish(matches);
        }
        let ts: &str = args[i].as_str();
        proof {
            assert(toks[0] == ts@);
        }
        if str_eq(ts, "--help") || str_eq(ts, "-h") {
            return Ok(ParseOutcome::Help(self.generate_help()));
        }
        if str_eq(ts, "--version") || str_eq(ts, "-V") {
            let v: Option<String> = match &self.version {
                Some(s) => Some(s.clone()),
                None => None,
            };
            return Ok(ParseOutcome::Version(v));
        }
        let tlen = ts.unicode_len();
        if tlen >= 2 && ts.get_char(0) == '-' && ts.get_char(1) == '-' {
            let name = ts.substring_char(2, tlen);
            proof {
                assert(name@ =~= toks[0].skip(2));
                assert(self.args@.skip(0) =~= self.args@);
            }
            match find_arg_by_name(&self.args, 0, name) {
                Some(k) => {
                    if self.args[k].takes_value {
                        if i + 1 < args.len() {
                            let value = args[i + 1].clone();
                            let mut matches = matches;
                            matches.insert_value(String::from_str(name), Some(value));
                            proof {
                                assert(toks.skip(2) =~= args.deep_view().skip(i + 2));
                                assert(toks[1] == args.deep_view()[i + 1]);
                            }
                            self.parse_from(args, i + 2, matches, pos)
                        } else {
                            Err(ParseError::MissingOptionValue(String::from_str(name)))
                        }
                    } else {
                        let mut matches = matches;
                        matches.insert_value(String::from_str(name), None);
                        proof {
                            assert(toks.skip(1) =~= args.deep_view().skip(i + 1));
                        }
                        self.parse_from(args, i + 1, matches, pos)
                    }
                },
                None => Err(ParseError::UnknownOption(String::from_str(name))),
            }
        } else if tlen >= 1 && ts.get_char(0) == '-' {
            proof {
                assert(toks.skip(1) =~= args.deep_view().skip(i + 1));
                assert(ts@.skip(1) =~= toks[0].skip(1));
            }
            self.parse_shorts_from(ts, 1, args, i + 1, matches, pos)
        } else {
            proof {
                assert(self.subcommands@.skip(0) =~= self.subcommands@);
            }
            match find_sub(&self.subcommands, 0, ts) {
                Some(k) => {
                    let sub = &self.subcommands[k];
                    let mut sub_args: Vec<String> = Vec::new();
                    let mut j: usize = i + 1;
                    while j < args.len()
                        invariant
                            i + 1 <= j <= args.len(),
                            sub_args@.len() == j - (i + 1),
                            forall|q: int|
                                0 <= q < sub_args@.len() ==> sub_args@[q] == args@[i + 1 + q],
                        decreases args.len() - j,
                    {
                        sub_args.push(args[j].clone());
                        j += 1;
                    }
                    proof {
                        assert(sub_args.deep_view() =~= toks.skip(1));
                    }
                    match sub.parse_args(&sub_args) {
                        Ok(ParseOutcome::Matches(m)) => {
                            let mut matches = matches;
                            matches.set_subcommand(sub.name.clone(), m);
                            proof {
                                assert(matches@ =~= (MatchesModel {
                                    values: vals0,
                                    sub: Some((toks[0], Box::new(m@))),
                                }));
                            }
                            self.finish(matches)
                        },
                        Ok(ParseOutcome::Help(h)) => Ok(ParseOutcome::Help(h)),
                        Ok(ParseOutcome::Version(v)) => Ok(ParseOutcome::Version(v)),
                        Err(e) => Err(e),
                    }
                },
                None => {
                    proof {
                        assert(self.args@.skip(0) =~= self.args@);
                        lemma_positionals_len(self.args@);
                    }
                    match find_positional(&self.args, 0, pos) {
                        Some(k) => {
                            let value = args[i].clone();
                            let mut matches = matches;
                            matches.insert_value(self.args[k].name.clone(), Some(value));
                            proof {
                                assert(toks.skip(1) =~= args.deep_view().skip(i + 1));
                            }
                            self.parse_from(args, i + 1, matches, pos + 1)
                        },
                        None => Err(ParseError::UnknownArgument(args[i].clone())),
                    }
                },
            }
        }
    }

    /// Processes the characters of one short-option cluster from index `cj`
    /// on; `i` points at the first token after those the cluster's earlier
    /// value-taking characters consumed.
    fn parse_shorts_from(
        &self,
        cluster: &str,
        cj: usize,
        args: &Vec<String>,
        i: usize,
        matches: ArgMatches,
        pos: usize,
    ) -> (r: Result<ParseOutcome, ParseError>)
        requires
            cj <= cluster@.len(),
            i <= args.len(),
            matches@.sub == None::<(Seq<char>, Box<MatchesModel>)>,
        ensures
            outcome_matches(
                r,
                spec_parse_shorts(
                    *self,
                    cluster@.skip(cj as int),
                    args.deep_view().skip(i as int),
                    matches@.values,
                    pos as nat,
                ),
            ),
        decreases args.len() - i, 2int, cluster@.len() - cj,
    {
        let ghost chars = cluster@.skip(cj as int);
        let ghost rest = args.deep_view().skip(i as int);
        let clen = cluster.unicode_len();
        if cj == clen {
            proof {
                assert(chars =~= Seq::<char>::empty());
            }
            return self.parse_from(args, i, matches, pos);
        }
        let c = cluster.get_char(cj);
        proof {
            assert(chars[0] == c);
            assert(self.args@.skip(0) =~= self.args@);
            assert(chars.skip(1) =~= cluster@.skip(cj + 1));
        }
        match find_arg_by_short(&self.args, 0, c) {
            Some(k) => {
                if self.args[k].takes_value {
                    if i < args.len() {
                        let value = args[i].clone();
                        let mut matches = matches;
                        matches.insert_value(self.args[k].name.clone(), Some(value));
                        proof {
                            assert(rest[0] == args.deep_view()[i as int]);
                            assert(rest.skip(1) =~= args.deep_view().skip(i + 1));
                        }
                        self.parse_shorts_from(cluster, cj + 1, args, i + 1, matches, pos)
                    } else {
                        proof {
                            assert(rest.len() == 0);
                        }
                        Err(ParseError::MissingOptionValue(self.args[k].name.clone()))
                    }
                } else {
                    let mut matches = matches;
                    matches.insert_value(self.args[k].name.clone(), None);
                    self.parse_shorts_from(cluster, cj + 1, args, i, matches, pos)
                }
            },
            None => Err(ParseError::UnknownShortOption(c)),
        }
    }

    /// Parses a token sequence against this command.
    ///
    /// Returns exactly what the spec-level parser [`spec_parse`] prescribes:
    /// the structured matches, a terminal help or version request, or the
    /// first error met at any nesting level.
    pub fn parse_args(&self, args: &Vec<String>) -> (r: Result<ParseOutcome, ParseError>)
        ensures
            outcome_matches(r, spec_parse(*self, args.deep_view())),
        decreases args.len(), 3int, 0int,
    {
        let matches = ArgMatches::new();
        proof {
            assert(args.deep_view().skip(0) =~= args.deep_view());
        }
        self.parse_from(args, 0, matches, 0)
    }
}

} // verus!
