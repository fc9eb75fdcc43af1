//! The lint configuration: three ordered lists of lint names, one per
//! severity, read from a `Cranky.toml` file found by walking upward from
//! the working directory.

use vstd::prelude::*;
use vstd::string::StringExecFns;

verus! {

/// Mathematical model of a configuration: the three lint-name lists as
/// sequences of character sequences.
#[verifier::ext_equal]
pub ghost struct ConfigModel {
    pub allow: Seq<Seq<char>>,
    pub warn: Seq<Seq<char>>,
    pub deny: Seq<Seq<char>>,
}

impl ConfigModel {
    /// The default configuration: every severity list empty.
    pub open spec fn empty() -> ConfigModel {
        ConfigModel { allow: seq![], warn: seq![], deny: seq![] }
    }
}

/// Lint-level overrides, in the order they were written: lints to allow,
/// to warn on, and to deny.
#[derive(Debug, PartialEq)]
pub struct CrankyConfig {
    pub allow: Vec<String>,
    pub warn: Vec<String>,
    pub deny: Vec<String>,
}

impl View for CrankyConfig {
    type V = ConfigModel;

    open spec fn view(&self) -> ConfigModel {
        ConfigModel {
            allow: self.allow.deep_view(),
            warn: self.warn.deep_view(),
            deny: self.deny.deep_view(),
        }
    }
}

impl Default for CrankyConfig {
    /// The configuration used when no configuration file exists anywhere
    /// in the ancestor chain: all three lists empty.
    fn default() -> (r: CrankyConfig)
        ensures
            r@ == ConfigModel::empty(),
    {
        let r = CrankyConfig { allow: Vec::new(), warn: Vec::new(), deny: Vec::new() };
        proof {
            assert(r@ =~= ConfigModel::empty());
        }
        r
    }
}

/// A fatal configuration condition.
#[derive(Clone, Copy, Debug, PartialEq, Eq, Structural)]
pub enum ConfigError {
    /// The configuration text is not valid TOML.
    Toml,
    /// A recognized key does not hold a list of strings.
    Shape,
    /// The configuration file exists but could not be read.
    Unreadable,
}

/// What the TOML document at the given text holds at its top level, when
/// the text parses: each entry is a key paired with, when its value is an
/// array, the array's items (`Some` for a string item, `None` for an item
/// of any other kind), and `None` for a value of any other kind.
pub uninterp spec fn toml_top_level(s: Seq<char>) -> Option<
    Seq<(Seq<char>, Option<Seq<Option<Seq<char>>>>)>,
>;

/// Relies on `toml::Table::from_str` of the `toml` crate: parsing is a
/// function of the text alone, and a parsed table maps each top-level key
/// to one value, whose array items keep their written order.
#[verifier::external_body]
fn parse_toml_top_level(text: &str) -> (r: Option<Vec<(String, Option<Vec<Option<String>>>)>>)
    ensures
        r is Some <==> toml_top_level(text@) is Some,
        r matches Some(entries) ==> Some(entries.deep_view()) == toml_top_level(text@),
{
    let table: toml::Table = match text.parse() {
        Ok(t) => t,
        Err(_) => return None,
    };
    Some(table.into_iter().map(|(key, value)| (key, match value {
        toml::Value::Array(items) => Some(items.into_iter().map(|item| match item {
            toml::Value::String(s) => Some(s),
            _ => None,
        }).collect()),
        _ => None,
    })).collect())
}

/// The value of the first entry whose key is `key`, if any entry has it.
pub open spec fn find_value(
    entries: Seq<(Seq<char>, Option<Seq<Option<Seq<char>>>>)>,
    key: Seq<char>,
) -> Option<Option<Seq<Option<Seq<char>>>>>
    decreases entries.len(),
{
    if entries.len() == 0 {
        None
    } else if entries[0].0 == key {
        Some(entries[0].1)
    } else {
        find_value(entries.drop_first(), key)
    }
}

/// The strings inside a sequence of items known to all be strings.
pub open spec fn unwrap_names(items: Seq<Option<Seq<char>>>) -> Seq<Seq<char>> {
    items.map(|i: int, o: Option<Seq<char>>| o->Some_0)
}

/// The string list a parsed document gives for `key`: the empty list when
/// the key is absent, the items in order when the key holds an array of
/// strings, and nothing (a shape fault) for a value of any other kind.
pub open spec fn spec_field(
    entries: Seq<(Seq<char>, Option<Seq<Option<Seq<char>>>>)>,
    key: Seq<char>,
) -> Option<Seq<Seq<char>>> {
    match find_value(entries, key) {
        None => Some(seq![]),
        Some(None) => None,
        Some(Some(items)) => if forall|i: int| 0 <= i < items.len() ==> items[i] is Some {
            Some(unwrap_names(items))
        } else {
            None
        },
    }
}

/// The configuration a piece of text denotes: the text must be valid TOML,
/// and each of the keys `allow`, `warn` and `deny`, where present, must
/// hold a list of strings; a missing key means the empty list, and keys
/// other than these three are ignored.
pub open spec fn spec_parse_config(s: Seq<char>) -> Result<ConfigModel, ConfigError> {
    match toml_top_level(s) {
        None => Err(ConfigError::Toml),
        Some(entries) => {
            let allow = spec_field(entries, "allow"@);
            let warn = spec_field(entries, "warn"@);
            let deny = spec_field(entries, "deny"@);
            if allow is Some && warn is Some && deny is Some {
                Ok(
                    ConfigModel {
                        allow: allow->Some_0,
                        warn: warn->Some_0,
                        deny: deny->Some_0,
                    },
                )
            } else {
                Err(ConfigError::Shape)
            }
        },
    }
}

/// Looks `key` up among the parsed top-level entries: its list of strings,
/// the empty list when the key is absent, and nothing when the key's value
/// is not a list of strings.
fn field_strings(entries: &Vec<(String, Option<Vec<Option<String>>>)>, key: &String) -> (r: Option<
    Vec<String>,
>)
    ensures
        match r {
            Some(names) => spec_field(entries.deep_view(), key@) == Some(names.deep_view()),
            None => spec_field(entries.deep_view(), key@) is None,
        },
{
    let ghost entries_v = entries.deep_view();
    proof {
        assert(entries_v.skip(0) =~= entries_v);
    }
    let mut j: usize = 0;
    while j < entries.len()
        invariant
            j <= entries.len(),
            entries_v == entries.deep_view(),
            find_value(entries_v, key@) == find_value(entries_v.skip(j as int), key@),
        decreases entries.len() - j,
    {
        proof {
            assert(entries_v.skip(j as int)[0] == entries_v[j as int]);
            assert(entries_v.skip(j as int).drop_first() =~= entries_v.skip(j + 1 as int));
            assert(entries_v[j as int].0 == entries@[j as int].0@);
        }
        if entries[j].0.eq(key) {
            proof {
                let tail = entries_v.skip(j as int);
                assert(entries@[j as int].0@ == key@);
                assert(tail[0].0 == key@);
                assert(tail.len() > 0);
                assert(find_value(tail, key@) == Some(tail[0].1));
                assert(find_value(entries_v, key@) == Some(entries_v[j as int].1));
            }
            match &entries[j].1 {
                None => {
                    proof {
                        assert(entries_v[j as int].1 is None);
                    }
                    return None;
                },
                Some(items) => {
                    let ghost items_v = items.deep_view();
                    proof {
                        assert(entries_v[j as int].1 == Some(items_v));
                    }
                    let mut names: Vec<String> = Vec::new();
                    let mut i: usize = 0;
                    while i < items.len()
                        invariant
                            i <= items.len(),
                            items_v == items.deep_view(),
                            entries_v == entries.deep_view(),
                            find_value(entries_v, key@) == Some(Some(items_v)),
                            forall|k: int| 0 <= k < i ==> items_v[k] is Some,
                            names.deep_view() =~= unwrap_names(items_v.take(i as int)),
                        decreases items.len() - i,
                    {
                        match &items[i] {
                            None => {
                                proof {
                                    assert(items_v[i as int] is None);
                                    assert(!(forall|k: int|
                                        0 <= k < items_v.len() ==> items_v[k] is Some));
                                }
                                return None;
                            },
                            Some(s) => {
                                proof {
                                    assert(items_v[i as int] == Some(s@));
                                }
                                let ghost pre = names.deep_view();
                                names.push(s.clone());
                                proof {
                                    assert(names.deep_view() =~= pre.push(
                                        items_v[i as int]->Some_0,
                                    ));
                                    assert(names.deep_view() =~= unwrap_names(
                                        items_v.take(i + 1 as int),
                                    ));
                                }
                            },
                        }
                        i = i + 1;
                    }
                    proof {
                        assert(items_v.take(items.len() as int) =~= items_v);
                        assert(names.deep_view() == unwrap_names(items_v));
                    }
                    return Some(names);
                },
            }
        }
        j = j + 1;
    }
    proof {
        assert(entries_v.skip(entries.len() as int) =~= Seq::<
            (Seq<char>, Option<Seq<Option<Seq<char>>>>),
        >::empty());
    }
    Some(Vec::new())
}

/// Parses configuration text: the recognized top-level keys `allow`,
/// `warn` and `deny` must each hold a list of strings; a missing key
/// defaults to the empty list; unrecognized keys are ignored; text that
/// is not valid TOML, or a recognized key of another shape, is an error.
pub fn parse_config(text: &str) -> (r: Result<CrankyConfig, ConfigError>)
    ensures
        match r {
            Ok(c) => spec_parse_config(text@) == Ok::<ConfigModel, ConfigError>(c@),
            Err(e) => spec_parse_config(text@) == Err::<ConfigModel, ConfigError>(e),
        },
{
    let entries = match parse_toml_top_level(text) {
        Some(entries) => entries,
        None => {
            return Err(ConfigError::Toml);
        },
    };
    let allow = match field_strings(&entries, &"allow".to_owned()) {
        Some(v) => v,
        None => {
            return Err(ConfigError::Shape);
        },
    };
    let warn = match field_strings(&entries, &"warn".to_owned()) {
        Some(v) => v,
        None => {
            return Err(ConfigError::Shape);
        },
    };
    let deny = match field_strings(&entries, &"deny".to_owned()) {
        Some(v) => v,
        None => {
            return Err(ConfigError::Shape);
        },
    };
    let c = CrankyConfig { allow, warn, deny };
    proof {
        assert(c@ =~= spec_parse_config(text@)->Ok_0);
    }
    Ok(c)
}

/// Each name in `names`, rendered as a single flag token: `prefix`
/// immediately followed by the name, with nothing in between.
pub open spec fn severity_flags(prefix: Seq<char>, names: Seq<Seq<char>>) -> Seq<Seq<char>> {
    names.map(|i: int, n: Seq<char>| prefix + n)
}

/// The lint flags a configuration contributes to the argument list:
/// deny entries first, then warn, then allow, each list in its original
/// order, each entry as one short-form token (`-D`/`-W`/`-A` plus the name).
pub open spec fn spec_extra_right_args(c: ConfigModel) -> Seq<Seq<char>> {
    severity_flags("-D"@, c.deny) + severity_flags("-W"@, c.warn) + severity_flags("-A"@, c.allow)
}

/// One short-form flag token: `prefix` directly followed by `name`.
fn make_flag(prefix: &str, name: &String) -> (r: String)
    ensures
        r@ == prefix@ + name@,
{
    let mut r = prefix.to_owned();
    r.append(name.as_str());
    r
}

/// Appends the flag tokens for one severity to `out`: `prefix` followed by
/// each name of `names`, in order.
fn push_severity_flags(out: &mut Vec<String>, prefix: &str, names: &Vec<String>)
    ensures
        final(out).deep_view() == old(out).deep_view() + severity_flags(prefix@, names.deep_view()),
{
    let ghost base = out.deep_view();
    let mut i: usize = 0;
    while i < names.len()
        invariant
            i <= names.len(),
            out.deep_view() =~= base + severity_flags(prefix@, names.deep_view().take(i as int)),
        decreases names.len() - i,
    {
        let flag = make_flag(prefix, &names[i]);
        let ghost pre = out.deep_view();
        out.push(flag);
        proof {
            assert(out.deep_view() =~= pre.push(prefix@ + names@[i as int]@));
            assert(severity_flags(prefix@, names.deep_view().take(i + 1 as int)) =~= severity_flags(
                prefix@,
                names.deep_view().take(i as int),
            ).push(prefix@ + names@[i as int]@));
            assert(out.deep_view() =~= base + severity_flags(
                prefix@,
                names.deep_view().take(i + 1 as int),
            ));
        }
        i = i + 1;
    }
    proof {
        assert(names.deep_view().take(names.len() as int) =~= names.deep_view());
    }
}

impl CrankyConfig {
    /// The extra arguments this configuration adds after the `--`
    /// separator: a `-D` flag per deny entry, then a `-W` flag per warn
    /// entry, then an `-A` flag per allow entry, each severity list kept
    /// in its original order.
    pub fn extra_right_args(&self) -> (r: Vec<String>)
        ensures
            r.deep_view() == spec_extra_right_args(self@),
    {
        let mut args: Vec<String> = Vec::new();
        proof {
            assert(args.deep_view() =~= Seq::<Seq<char>>::empty());
        }
        push_severity_flags(&mut args, "-D", &self.deny);
        push_severity_flags(&mut args, "-W", &self.warn);
        push_severity_flags(&mut args, "-A", &self.allow);
        proof {
            assert(args.deep_view() =~= spec_extra_right_args(self@));
        }
        args
    }
}

/// The outcome of one attempt to read the configuration file in a
/// candidate directory: the file's text, the file's absence, or a failure
/// to read it for any other cause (permissions, I/O).
pub enum ReadOutcome {
    Found(String),
    Absent,
    Unreadable,
}

/// What the resolver does after one read attempt.
pub enum SearchStep {
    /// A configuration file was read and parsed: the search ends with it.
    Use(CrankyConfig),
    /// No file in this directory: move on to the parent directory.
    Ascend,
    /// A fatal condition: stop resolution with this error.
    Abort(ConfigError),
}

/// The result of the upward search, over the read outcomes of the
/// candidate directories from the starting directory up to the filesystem
/// root, nearest directory first: the first directory whose file exists
/// decides (by its parse outcome), a read failure other than absence is
/// fatal, and an exhausted chain yields the default configuration.
pub open spec fn spec_search(reads: Seq<ReadOutcome>) -> Result<ConfigModel, ConfigError>
    decreases reads.len(),
{
    if reads.len() == 0 {
        Ok(ConfigModel::empty())
    } else {
        match reads[0] {
            ReadOutcome::Found(text) => spec_parse_config(text@),
            ReadOutcome::Absent => spec_search(reads.drop_first()),
            ReadOutcome::Unreadable => Err(ConfigError::Unreadable),
        }
    }
}

/// Decides one step of the upward search: a file that was read is parsed
/// and ends the search (a parse fault is fatal); an absent file sends the
/// search to the parent directory; a file that exists but could not be
/// read is fatal, never treated as absent.
pub fn resolve_step(outcome: &ReadOutcome) -> (r: SearchStep)
    ensures
        match *outcome {
            ReadOutcome::Found(text) => match spec_parse_config(text@) {
                Ok(m) => r matches SearchStep::Use(c) && c@ == m,
                Err(e) => r == SearchStep::Abort(e),
            },
            ReadOutcome::Absent => r == SearchStep::Ascend,
            ReadOutcome::Unreadable => r == SearchStep::Abort(ConfigError::Unreadable),
        },
{
    match outcome {
        ReadOutcome::Found(text) => match parse_config(text.as_str()) {
            Ok(c) => SearchStep::Use(c),
            Err(e) => SearchStep::Abort(e),
        },
        ReadOutcome::Absent => SearchStep::Ascend,
        ReadOutcome::Unreadable => SearchStep::Abort(ConfigError::Unreadable),
    }
}

/// Runs the whole upward search over the read outcomes of the candidate
/// directories, nearest first.
pub fn search_ancestors(reads: &Vec<ReadOutcome>) -> (r: Result<CrankyConfig, ConfigError>)
    ensures
        match r {
            Ok(c) => spec_search(reads@) == Ok::<ConfigModel, ConfigError>(c@),
            Err(e) => spec_search(reads@) == Err::<ConfigModel, ConfigError>(e),
        },
{
    proof {
        assert(reads@.skip(0) =~= reads@);
    }
    let mut i: usize = 0;
    while i < reads.len()
        invariant
            i <= reads.len(),
            spec_search(reads@) == spec_search(reads@.skip(i as int)),
        decreases reads.len() - i,
    {
        proof {
            assert(reads@.skip(i as int)[0] == reads@[i as int]);
            assert(reads@.skip(i as int).drop_first() =~= reads@.skip(i + 1 as int));
        }
        match resolve_step(&reads[i]) {
            SearchStep::Use(c) => {
                return Ok(c);
            },
            SearchStep::Abort(e) => {
                return Err(e);
            },
            SearchStep::Ascend => {
                i = i + 1;
            },
        }
    }
    proof {
        assert(reads@.skip(reads.len() as int) =~= Seq::<ReadOutcome>::empty());
    }
    Ok(CrankyConfig::default())
}

/// Law: a search that finds no configuration file anywhere in the
/// ancestor chain yields the default (all-empty) configuration; an absent
/// file is no error.
pub proof fn lemma_search_all_absent(reads: Seq<ReadOutcome>)
    requires
        forall|i: int| 0 <= i < reads.len() ==> reads[i] is Absent,
    ensures
        spec_search(reads) == Ok::<ConfigModel, ConfigError>(ConfigModel::empty()),
    decreases reads.len(),
{
    if reads.len() > 0 {
        lemma_search_all_absent(reads.drop_first());
    }
}

/// Law: the nearest directory whose configuration file exists decides the
/// search; directories farther up are never consulted.
pub proof fn lemma_search_first_found(reads: Seq<ReadOutcome>, i: int)
    requires
        0 <= i < reads.len(),
        forall|j: int| 0 <= j < i ==> reads[j] is Absent,
        reads[i] is Found,
    ensures
        spec_search(reads) == spec_parse_config(reads[i]->Found_0@),
    decreases i,
{
    if i > 0 {
        lemma_search_first_found(reads.drop_first(), i - 1);
    }
}

/// Law: a configuration file that exists but cannot be read stops the
/// search with an error; it is never passed over as if absent.
pub proof fn lemma_search_unreadable(reads: Seq<ReadOutcome>, i: int)
    requires
        0 <= i < reads.len(),
        forall|j: int| 0 <= j < i ==> reads[j] is Absent,
        reads[i] is Unreadable,
    ensures
        spec_search(reads) == Err::<ConfigModel, ConfigError>(ConfigError::Unreadable),
    decreases i,
{
    if i > 0 {
        lemma_search_unreadable(reads.drop_first(), i - 1);
    }
}

} // verus!
