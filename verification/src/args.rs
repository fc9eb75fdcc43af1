//! The tool's own command line: recognized flags, the split of the
//! remaining arguments at the `--` separator, the reassembled argument
//! list handed to the child linter, and its printed form.

use vstd::prelude::*;
use vstd::string::StringExecFns;

use crate::config::{spec_extra_right_args, ConfigModel};

verus! {

/// Flags controlling a run: `dry_run` suppresses the child process;
/// `verbose` counts the verbose flags seen.
#[derive(Clone, Copy, Debug, PartialEq, Eq, Structural)]
pub struct Options {
    pub dry_run: bool,
    pub verbose: usize,
}

/// The remaining arguments, split at the first `--` separator, with the
/// recognized flags.
#[derive(Debug)]
pub struct SplitArgs {
    pub options: Options,
    pub left: Vec<String>,
    pub right: Vec<String>,
}

/// Mathematical model of a parse in progress, and of its result.
#[verifier::ext_equal]
pub ghost struct ParseModel {
    pub dry_run: bool,
    pub verbose: nat,
    pub left: Seq<Seq<char>>,
    pub right: Seq<Seq<char>>,
}

impl View for SplitArgs {
    type V = ParseModel;

    open spec fn view(&self) -> ParseModel {
        ParseModel {
            dry_run: self.options.dry_run,
            verbose: self.options.verbose as nat,
            left: self.left.deep_view(),
            right: self.right.deep_view(),
        }
    }
}

/// How an argument list is understood, in the model.
pub ghost enum SpecParse {
    /// A help flag was seen before anything fatal: print usage and stop.
    Help,
    /// A normal run with these flags and split arguments.
    Run(ParseModel),
    /// A second `--` separator: a fatal usage error.
    ExtraSeparator,
}

pub open spec fn is_help_token(a: Seq<char>) -> bool {
    a == "-h"@ || a == "--help"@
}

pub open spec fn is_dry_run_token(a: Seq<char>) -> bool {
    a == "--dry-run"@
}

pub open spec fn is_verbose_token(a: Seq<char>) -> bool {
    a == "-v"@ || a == "--verbose"@
}

pub open spec fn is_sep_token(a: Seq<char>) -> bool {
    a == "--"@
}

/// The parse state before any argument is read.
pub open spec fn initial_model() -> ParseModel {
    ParseModel { dry_run: false, verbose: 0, left: seq![], right: seq![] }
}

/// One pass over the arguments, in order: a help flag wins immediately;
/// `--dry-run` is consumed; a verbose flag is counted, the first one
/// consumed and later ones passed through; every other argument goes to
/// the left of the first `--`, or to its right after it; a second `--`
/// is fatal. `seen` says whether the separator was already met.
pub open spec fn parse_from(args: Seq<Seq<char>>, st: ParseModel, seen: bool) -> SpecParse
    decreases args.len(),
{
    if args.len() == 0 {
        SpecParse::Run(st)
    } else {
        let a = args[0];
        let rest = args.drop_first();
        if is_help_token(a) {
            SpecParse::Help
        } else if is_dry_run_token(a) {
            parse_from(
                rest,
                ParseModel { dry_run: true, verbose: st.verbose, left: st.left, right: st.right },
                seen,
            )
        } else if is_verbose_token(a) && st.verbose == 0 {
            parse_from(
                rest,
                ParseModel { dry_run: st.dry_run, verbose: 1, left: st.left, right: st.right },
                seen,
            )
        } else {
            let st1 = if is_verbose_token(a) {
                ParseModel {
                    dry_run: st.dry_run,
                    verbose: st.verbose + 1,
                    left: st.left,
                    right: st.right,
                }
            } else {
                st
            };
            if !seen && is_sep_token(a) {
                parse_from(rest, st1, true)
            } else if !seen {
                parse_from(
                    rest,
                    ParseModel {
                        dry_run: st1.dry_run,
                        verbose: st1.verbose,
                        left: st1.left.push(a),
                        right: st1.right,
                    },
                    seen,
                )
            } else if !is_sep_token(a) {
                parse_from(
                    rest,
                    ParseModel {
                        dry_run: st1.dry_run,
                        verbose: st1.verbose,
                        left: st1.left,
                        right: st1.right.push(a),
                    },
                    seen,
                )
            } else {
                SpecParse::ExtraSeparator
            }
        }
    }
}

/// How the whole argument list (everything after the binary and
/// subcommand names) is understood.
pub open spec fn spec_parse_args(args: Seq<Seq<char>>) -> SpecParse {
    parse_from(args, initial_model(), false)
}

/// How the tool's arguments were understood.
#[derive(Debug)]
pub enum ParsedArgs {
    /// A help flag was seen: print usage and stop, successfully.
    Help,
    /// A normal run.
    Run(SplitArgs),
}

/// A fatal usage condition.
#[derive(Clone, Copy, Debug, PartialEq, Eq, Structural)]
pub enum UsageError {
    /// More than one `--` separator was supplied.
    ExtraSeparator,
}

/// Parses the tool's arguments, those after the binary and subcommand
/// names: a help flag short-circuits everything with success; `--dry-run`
/// and the first verbose flag are consumed; the rest is split at the
/// first `--`; a second `--` is a fatal usage error.
pub fn parse_args(args: &Vec<String>) -> (r: Result<ParsedArgs, UsageError>)
    ensures
        match r {
            Ok(ParsedArgs::Help) => spec_parse_args(args.deep_view()) == SpecParse::Help,
            Ok(ParsedArgs::Run(p)) => spec_parse_args(args.deep_view()) == SpecParse::Run(p@),
            Err(UsageError::ExtraSeparator) => spec_parse_args(args.deep_view())
                == SpecParse::ExtraSeparator,
        },
{
    let ghost args_v = args.deep_view();
    let mut dry_run = false;
    let mut verbose: usize = 0;
    let mut seen = false;
    let mut left: Vec<String> = Vec::new();
    let mut right: Vec<String> = Vec::new();
    proof {
        assert(args_v.skip(0) =~= args_v);
        assert(left.deep_view() =~= Seq::<Seq<char>>::empty());
        assert(right.deep_view() =~= Seq::<Seq<char>>::empty());
    }
    let mut i: usize = 0;
    while i < args.len()
        invariant
            i <= args.len(),
            verbose <= i,
            args_v == args.deep_view(),
            spec_parse_args(args_v) == parse_from(
                args_v.skip(i as int),
                ParseModel {
                    dry_run,
                    verbose: verbose as nat,
                    left: left.deep_view(),
                    right: right.deep_view(),
                },
                seen,
            ),
        decreases args.len() - i,
    {
        proof {
            assert(args_v.skip(i as int)[0] == args_v[i as int]);
            assert(args_v.skip(i as int).drop_first() =~= args_v.skip(i + 1 as int));
            assert(args_v[i as int] == args@[i as int]@);
        }
        let a = &args[i];
        let is_verbose = a.eq(&"-v".to_owned()) || a.eq(&"--verbose".to_owned());
        if a.eq(&"-h".to_owned()) || a.eq(&"--help".to_owned()) {
            return Ok(ParsedArgs::Help);
        } else if a.eq(&"--dry-run".to_owned()) {
            dry_run = true;
        } else if is_verbose && verbose == 0 {
            verbose = 1;
        } else {
            if is_verbose {
                verbose = verbose + 1;
            }
            let is_sep = a.eq(&"--".to_owned());
            if !seen && is_sep {
                seen = true;
            } else if !seen {
                let ghost pre = left.deep_view();
                left.push(a.clone());
                proof {
                    assert(left.deep_view() =~= pre.push(args_v[i as int]));
                }
            } else if !is_sep {
                let ghost pre = right.deep_view();
                right.push(a.clone());
                proof {
                    assert(right.deep_view() =~= pre.push(args_v[i as int]));
                }
            } else {
                return Err(UsageError::ExtraSeparator);
            }
        }
        i = i + 1;
    }
    proof {
        assert(args_v.skip(args.len() as int) =~= Seq::<Seq<char>>::empty());
    }
    let split = SplitArgs { options: Options { dry_run, verbose }, left, right };
    Ok(ParsedArgs::Run(split))
}

/// The reassembled argument list: when anything is to stand after the
/// separator, it is `left`, one `--`, then `right` followed by the
/// derived `extra`; otherwise `left` alone — the separator is only
/// emitted when something follows it.
pub open spec fn spec_compose(
    left: Seq<Seq<char>>,
    right: Seq<Seq<char>>,
    extra: Seq<Seq<char>>,
) -> Seq<Seq<char>> {
    if right.len() + extra.len() == 0 {
        left
    } else {
        left + seq!["--"@] + right + extra
    }
}

/// Reassembles the final flat argument list from the split arguments and
/// the extra arguments the configuration derived.
pub fn compose_args(left: Vec<String>, right: Vec<String>, extra: Vec<String>) -> (r: Vec<String>)
    ensures
        r.deep_view() == spec_compose(left.deep_view(), right.deep_view(), extra.deep_view()),
{
    let ghost left_v = left.deep_view();
    let ghost right_v = right.deep_view();
    let ghost extra_v = extra.deep_view();
    let mut right = right;
    let mut extra = extra;
    if right.len() == 0 && extra.len() == 0 {
        proof {
            assert(right_v =~= Seq::<Seq<char>>::empty());
            assert(extra_v =~= Seq::<Seq<char>>::empty());
        }
        return left;
    }
    let mut out = left;
    out.push("--".to_owned());
    out.append(&mut right);
    out.append(&mut extra);
    proof {
        assert(out.deep_view() =~= left_v + seq!["--"@] + right_v + extra_v);
        assert(right_v.len() + extra_v.len() > 0);
    }
    out
}

/// The arguments joined by single spaces.
pub open spec fn join_spaces(args: Seq<Seq<char>>) -> Seq<char>
    decreases args.len(),
{
    if args.len() == 0 {
        Seq::empty()
    } else if args.len() == 1 {
        args[0]
    } else {
        args[0] + " "@ + join_spaces(args.drop_first())
    }
}

proof fn lemma_join_spaces_push(args: Seq<Seq<char>>, a: Seq<char>)
    ensures
        join_spaces(args.push(a)) == if args.len() == 0 {
            a
        } else {
            join_spaces(args) + " "@ + a
        },
    decreases args.len(),
{
    if args.len() == 0 {
        assert(args.push(a)[0] == a);
    } else {
        lemma_join_spaces_push(args.drop_first(), a);
        assert(args.push(a).drop_first() =~= args.drop_first().push(a));
        assert(args.push(a)[0] == args[0]);
        if args.len() == 1 {
            assert(join_spaces(args.push(a)) == args[0] + " "@ + a);
        } else {
            assert(join_spaces(args.push(a)) == args[0] + " "@ + (join_spaces(args.drop_first())
                + " "@ + a));
            assert(args[0] + " "@ + (join_spaces(args.drop_first()) + " "@ + a) =~= (args[0] + " "@
                + join_spaces(args.drop_first())) + " "@ + a);
        }
    }
}

/// The command line as printed before a dry run or under verbosity: the
/// child program's name, then the composed arguments joined by spaces.
pub fn render_command(args: &Vec<String>) -> (r: String)
    ensures
        r@ == "> cargo clippy "@ + join_spaces(args.deep_view()),
{
    let ghost args_v = args.deep_view();
    let mut out: String = "> cargo clippy ".to_owned();
    proof {
        assert(args_v.take(0) =~= Seq::<Seq<char>>::empty());
        assert(out@ =~= "> cargo clippy "@ + join_spaces(args_v.take(0)));
    }
    let mut i: usize = 0;
    while i < args.len()
        invariant
            i <= args.len(),
            args_v == args.deep_view(),
            out@ == "> cargo clippy "@ + join_spaces(args_v.take(i as int)),
        decreases args.len() - i,
    {
        proof {
            assert(args_v[i as int] == args@[i as int]@);
            assert(args_v.take(i + 1 as int) =~= args_v.take(i as int).push(args_v[i as int]));
            lemma_join_spaces_push(args_v.take(i as int), args_v[i as int]);
        }
        if i > 0 {
            out.append(" ");
            out.append(args[i].as_str());
            proof {
                assert(out@ =~= "> cargo clippy "@ + join_spaces(args_v.take(i + 1 as int)));
            }
        } else {
            out.append(args[i].as_str());
            proof {
                assert(out@ =~= "> cargo clippy "@ + join_spaces(args_v.take(i + 1 as int)));
            }
        }
        i = i + 1;
    }
    proof {
        assert(args_v.take(args.len() as int) =~= args_v);
    }
    out
}

/// No help flag stands among the first `j` arguments.
pub open spec fn no_help_before(args: Seq<Seq<char>>, j: int) -> bool {
    forall|k: int| 0 <= k < j ==> !(#[trigger] is_help_token(args[k]))
}

/// Whether the remaining arguments force the duplicate-separator error:
/// once the separator was already met, one more `--` with no help flag
/// before it; otherwise two `--` tokens with no help flag before the
/// second one.
pub open spec fn forces_extra_separator(args: Seq<Seq<char>>, seen: bool) -> bool {
    if seen {
        exists|j: int|
            0 <= j < args.len() && #[trigger] is_sep_token(args[j]) && no_help_before(args, j)
    } else {
        exists|i: int, j: int|
            0 <= i < j < args.len() && #[trigger] is_sep_token(args[i]) && #[trigger] is_sep_token(
                args[j],
            ) && no_help_before(args, j)
    }
}

proof fn lemma_forces_shift(args: Seq<Seq<char>>, seen: bool)
    requires
        args.len() > 0,
        forces_extra_separator(args, seen),
        !(seen && is_sep_token(args[0])),
    ensures
        forces_extra_separator(args.drop_first(), seen || is_sep_token(args[0])),
{
    let rest = args.drop_first();
    if seen {
        let j = choose|j: int|
            0 <= j < args.len() && #[trigger] is_sep_token(args[j]) && no_help_before(args, j);
        assert(j >= 1);
        assert(is_sep_token(rest[j - 1]) && no_help_before(rest, j - 1));
    } else {
        let (i, j) = choose|i: int, j: int|
            0 <= i < j < args.len() && #[trigger] is_sep_token(args[i]) && #[trigger] is_sep_token(
                args[j],
            ) && no_help_before(args, j);
        if is_sep_token(args[0]) {
            assert(is_sep_token(rest[j - 1]) && no_help_before(rest, j - 1));
        } else {
            assert(i >= 1);
            assert(0 <= i - 1 < j - 1 < rest.len() && is_sep_token(rest[i - 1]) && is_sep_token(
                rest[j - 1],
            ) && no_help_before(rest, j - 1));
        }
    }
}

proof fn lemma_special_tokens_distinct()
    ensures
        !is_help_token("--"@),
        !is_dry_run_token("--"@),
        !is_verbose_token("--"@),
        !is_sep_token("--dry-run"@),
        !is_sep_token("-v"@),
        !is_sep_token("--verbose"@),
{
    reveal_strlit("-h");
    reveal_strlit("--help");
    reveal_strlit("--dry-run");
    reveal_strlit("-v");
    reveal_strlit("--verbose");
    reveal_strlit("--");
    assert("--"@[1] == '-');
    assert("-h"@[1] == 'h');
    assert("-v"@[1] == 'v');
    assert("--"@.len() == 2);
    assert("--help"@.len() == 6);
    assert("--dry-run"@.len() == 9);
    assert("--verbose"@.len() == 9);
}

proof fn lemma_parse_from_extra_separator(args: Seq<Seq<char>>, st: ParseModel, seen: bool)
    requires
        forces_extra_separator(args, seen),
    ensures
        parse_from(args, st, seen) == SpecParse::ExtraSeparator,
    decreases args.len(),
{
    lemma_special_tokens_distinct();
    assert(args.len() > 0);
    let a = args[0];
    let rest = args.drop_first();
    if is_help_token(a) {
        if seen {
            let j = choose|j: int|
                0 <= j < args.len() && #[trigger] is_sep_token(args[j]) && no_help_before(args, j);
            if j == 0 {
                assert(is_sep_token(a));
                assert(a == "--"@);
                assert(false);
            } else {
                assert(!is_help_token(args[0]));
                assert(false);
            }
        } else {
            let (i, j) = choose|i: int, j: int|
                0 <= i < j < args.len() && #[trigger] is_sep_token(args[i])
                    && #[trigger] is_sep_token(args[j]) && no_help_before(args, j);
            assert(j >= 1);
            assert(!is_help_token(args[0]));
            assert(false);
        }
    } else if seen && is_sep_token(a) {
        assert(parse_from(args, st, seen) == SpecParse::ExtraSeparator);
    } else {
        lemma_forces_shift(args, seen);
        if is_dry_run_token(a) {
            lemma_parse_from_extra_separator(
                rest,
                ParseModel { dry_run: true, verbose: st.verbose, left: st.left, right: st.right },
                seen,
            );
        } else if is_verbose_token(a) && st.verbose == 0 {
            lemma_parse_from_extra_separator(
                rest,
                ParseModel { dry_run: st.dry_run, verbose: 1, left: st.left, right: st.right },
                seen,
            );
        } else {
            let st1 = if is_verbose_token(a) {
                ParseModel {
                    dry_run: st.dry_run,
                    verbose: st.verbose + 1,
                    left: st.left,
                    right: st.right,
                }
            } else {
                st
            };
            if !seen && is_sep_token(a) {
                lemma_parse_from_extra_separator(rest, st1, true);
            } else if !seen {
                lemma_parse_from_extra_separator(
                    rest,
                    ParseModel {
                        dry_run: st1.dry_run,
                        verbose: st1.verbose,
                        left: st1.left.push(a),
                        right: st1.right,
                    },
                    seen,
                );
            } else {
                lemma_parse_from_extra_separator(
                    rest,
                    ParseModel {
                        dry_run: st1.dry_run,
                        verbose: st1.verbose,
                        left: st1.left,
                        right: st1.right.push(a),
                    },
                    seen,
                );
            }
        }
    }
}

/// Law: an argument list holding two `--` separators, with no help flag
/// standing before the second of them, fails as a fatal usage error —
/// whatever else the list holds.
pub proof fn lemma_two_separators_fail(args: Seq<Seq<char>>)
    requires
        forces_extra_separator(args, false),
    ensures
        spec_parse_args(args) == SpecParse::ExtraSeparator,
{
    lemma_parse_from_extra_separator(args, initial_model(), false);
}

/// Law: an empty configuration derives no extra arguments, and a
/// composition with nothing to the right of the separator is the left
/// arguments alone, with no trailing separator appended.
pub proof fn lemma_empty_config_composes_left(left: Seq<Seq<char>>, c: ConfigModel)
    requires
        c == ConfigModel::empty(),
    ensures
        spec_extra_right_args(c) == Seq::<Seq<char>>::empty(),
        spec_compose(left, seq![], spec_extra_right_args(c)) == left,
{
    assert(spec_extra_right_args(c) =~= Seq::<Seq<char>>::empty());
}

} // verus!
