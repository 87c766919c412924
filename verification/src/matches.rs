use vstd::prelude::*;

verus! {

/// Mathematical model of an [`ArgMatches`]: a map from argument name to the
/// recorded value (`Some` for valued options and positionals, `None` for
/// presence-only flags), plus at most one activated subcommand with its own
/// model.
#[verifier::ext_equal]
pub struct MatchesModel {
    pub values: Map<Seq<char>, Option<Seq<char>>>,
    pub sub: Option<(Seq<char>, Box<MatchesModel>)>,
}

/// The parsed, read-only outcome for one command level.
///
/// Presence in the `values` mapping (not a boolean) denotes "matched": a
/// flag is recorded with no value, a valued option or positional with one.
/// At most one child result is held, for the activated subcommand.
pub struct ArgMatches {
    values: Vec<(String, Option<String>)>,
    subcommand: Option<(String, Box<ArgMatches>)>,
}

/// The model of a concrete result. Later entries of the association list are
/// shadowed by earlier ones, so the entry most recently put in front wins.
spec fn matches_model(m: ArgMatches) -> MatchesModel
    decreases m,
{
    MatchesModel {
        values: assoc_map(m.values@),
        sub: match m.subcommand {
            Some(pair) => Some((pair.0@, Box::new(matches_model(*pair.1)))),
            None => None,
        },
    }
}

spec fn assoc_map(entries: Seq<(String, Option<String>)>) -> Map<Seq<char>, Option<Seq<char>>>
    decreases entries.len(),
{
    if entries.len() == 0 {
        Map::empty()
    } else {
        assoc_map(entries.skip(1)).insert(entries[0].0@, entries[0].1.deep_view())
    }
}

proof fn lemma_assoc_map_first(entries: Seq<(String, Option<String>)>, key: Seq<char>, i: int)
    requires
        0 <= i < entries.len(),
        entries[i].0@ == key,
        forall|j: int| 0 <= j < i ==> (#[trigger] entries[j]).0@ != key,
    ensures
        assoc_map(entries).contains_key(key),
        assoc_map(entries)[key] == entries[i].1.deep_view(),
    decreases entries.len(),
{
    if i > 0 {
        let tail = entries.skip(1);
        assert forall|j: int| 0 <= j < i - 1 implies (#[trigger] tail[j]).0@ != key by {
            assert(tail[j] == entries[j + 1]);
        }
        lemma_assoc_map_first(tail, key, i - 1);
    }
}

proof fn lemma_assoc_map_absent(entries: Seq<(String, Option<String>)>, key: Seq<char>)
    requires
        forall|j: int| 0 <= j < entries.len() ==> (#[trigger] entries[j]).0@ != key,
    ensures
        !assoc_map(entries).contains_key(key),
    decreases entries.len(),
{
    if entries.len() > 0 {
        let tail = entries.skip(1);
        assert forall|j: int| 0 <= j < tail.len() implies (#[trigger] tail[j]).0@ != key by {
            assert(tail[j] == entries[j + 1]);
        }
        lemma_assoc_map_absent(tail, key);
    }
}

impl View for ArgMatches {
    type V = MatchesModel;

    closed spec fn view(&self) -> MatchesModel {
        matches_model(*self)
    }
}

impl ArgMatches {
    /// An empty result: nothing matched, no subcommand activated.
    pub(crate) fn new() -> (r: ArgMatches)
        ensures
            r@ == (MatchesModel { values: Map::empty(), sub: None }),
    {
        ArgMatches { values: Vec::new(), subcommand: None }
    }

    /// Records `name` as matched, with `value` for a valued option or
    /// positional and `None` for a flag. Overwrites any earlier record.
    pub(crate) fn insert_value(&mut self, name: String, value: Option<String>)
        ensures
            final(self)@.values == old(self)@.values.insert(name@, value.deep_view()),
            final(self)@.sub == old(self)@.sub,
    {
        let ghost pre = self.values@;
        self.values.insert(0, (name, value));
        proof {
            assert(self.values@.skip(1) =~= pre);
        }
    }

    /// Records the activated subcommand.
    pub(crate) fn set_subcommand(&mut self, name: String, sub: ArgMatches)
        ensures
            final(self)@.values == old(self)@.values,
            final(self)@.sub == Some((name@, Box::new(sub@))),
    {
        self.subcommand = Some((name, Box::new(sub)));
    }

    /// The value recorded for `name`, or `None` if `name` is absent or was
    /// matched as a presence-only flag.
    pub fn value_of(&self, name: &str) -> (r: Option<&str>)
        ensures
            match r {
                Some(v) => self@.values.contains_key(name@) && self@.values[name@] == Some(v@),
                None => !self@.values.contains_key(name@) || self@.values[name@] == None::<
                    Seq<char>,
                >,
            },
    {
        let mut k: usize = 0;
        while k < self.values.len()
            invariant
                k <= self.values.len(),
                forall|j: int| 0 <= j < k ==> (#[trigger] self.values@[j]).0@ != name@,
            decreases self.values.len() - k,
        {
            if crate::parse::str_eq(self.values[k].0.as_str(), name) {
                proof {
                    lemma_assoc_map_first(self.values@, name@, k as int);
                }
                return match &self.values[k].1 {
                    Some(v) => Some(v.as_str()),
                    None => None,
                };
            }
            k += 1;
        }
        proof {
            lemma_assoc_map_absent(self.values@, name@);
        }
        None
    }

    /// Whether `name` was matched at all, with or without a value.
    pub fn is_present(&self, name: &str) -> (r: bool)
        ensures
            r == self@.values.contains_key(name@),
    {
        let mut k: usize = 0;
        while k < self.values.len()
            invariant
                k <= self.values.len(),
                forall|j: int| 0 <= j < k ==> (#[trigger] self.values@[j]).0@ != name@,
            decreases self.values.len() - k,
        {
            if crate::parse::str_eq(self.values[k].0.as_str(), name) {
                proof {
                    lemma_assoc_map_first(self.values@, name@, k as int);
                }
                return true;
            }
            k += 1;
        }
        proof {
            lemma_assoc_map_absent(self.values@, name@);
        }
        false
    }

    /// The single activated subcommand, as its name and result, if any.
    pub fn subcommand(&self) -> (r: Option<(&str, &ArgMatches)>)
        ensures
            match (r, self@.sub) {
                (Some((n, m)), Some(p)) => p.0 == n@ && *p.1 == m@,
                (None, None) => true,
                _ => false,
            },
    {
        match &self.subcommand {
            Some(pair) => Some((pair.0.as_str(), &*pair.1)),
            None => None,
        }
    }
}

} // verus!
