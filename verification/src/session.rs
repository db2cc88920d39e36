//! The mathematical model of classification: what a single pass over the
//! argument vector makes of each token.

use vstd::prelude::*;
use crate::command::Command;
use crate::param::{FlagOptionParam, ParamData, PositionalParam};
use crate::text::{dashed, double_dashed, first_index_of};

verus! {

/// What kind of word could come next, for completion.
pub enum Guess {
    FlagOrOption,
    /// A short flag that further short flags may be appended to; it carries
    /// the token as it was typed.
    FlagOrOptionCombine(Seq<char>),
    CommandOrPositional,
    /// A value of the named option is awaited; the number is the position of
    /// the value among the values of one occurrence.
    OptionValue(Seq<char>, nat),
    Any,
}

/// One level of the command path.
pub struct PathEntry {
    /// The token that selected the node.
    pub token: Seq<char>,
    pub cmd: Command,
    /// The name under which the node is shown.
    pub name: Seq<char>,
    /// The position of the token in the argument vector.
    pub index: nat,
}

/// One occurrence of a flag or option.
pub struct Occurrence {
    /// The spelling as it was typed.
    pub key: Seq<char>,
    /// The value tokens that the occurrence captured.
    pub values: Seq<Seq<char>>,
    /// The canonical name of the parameter, or `None` for a spelling that no
    /// parameter of the node recognizes.
    pub param: Option<Seq<char>>,
}

/// The outcome of classification.
pub struct Session {
    /// One entry per level of the command tree that was descended into; the
    /// root comes first.
    pub path: Seq<PathEntry>,
    /// The occurrences of flags and options, per level of the path.
    pub occurrences: Seq<Seq<Occurrence>>,
    /// The positional tokens, in input order.
    pub positionals: Seq<Seq<char>>,
    /// For each `--`, the number of positional tokens that preceded it.
    pub dashes: Seq<nat>,
    pub comp: Guess,
    /// The routines against whose output values are to be checked, each
    /// once, in the order in which they were met.
    pub choice_fns: Seq<Seq<char>>,
    /// Whether the last token has the form `key=value`.
    pub last_assign: bool,
}

/// The state of the pass between two tokens.
pub struct Scan {
    pub session: Session,
    /// Once set, every further token is positional.
    pub rest: bool,
}

/// What capturing the values of one occurrence yields.
pub struct Capture {
    pub occurrence: Occurrence,
    pub comp: Guess,
    /// The number of tokens taken as values.
    pub taken: nat,
}

/// The state after one token, with the number of further tokens that the
/// token took as values.
pub struct Stepped {
    pub state: Scan,
    pub taken: nat,
}

/// The spellings that ask for help or for the version wherever they stand.
pub open spec fn known_option(word: Seq<char>) -> bool {
    ||| word == "-h"@
    ||| word == "-help"@
    ||| word == "--help"@
    ||| word == "-V"@
    ||| word == "-version"@
    ||| word == "--version"@
}

/// The guess that the last token alone suggests.
pub open spec fn initial_guess(last: Seq<char>) -> Guess {
    if dashed(last) {
        Guess::FlagOrOption
    } else if last.len() > 0 {
        Guess::CommandOrPositional
    } else {
        Guess::Any
    }
}

/// Whether `count` positional tokens reach the last positional parameter of
/// `cmd` and that parameter is terminated.
pub open spec fn reaches_terminated(cmd: Command, count: nat) -> bool {
    &&& cmd.positional_params@.len() > 0
    &&& cmd.positional_params@.last().data.terminated
    &&& count >= cmd.positional_params@.len() - 1
}

/// The state after `word` was taken as a positional token at `cmd`.
pub open spec fn with_positional(s: Scan, word: Seq<char>, cmd: Command) -> Scan {
    let positionals = s.session.positionals.push(word);
    Scan {
        session: Session { positionals, ..s.session },
        rest: s.rest || reaches_terminated(cmd, positionals.len()),
    }
}

/// `fns` with the checked routine of `data`, if it has one that `fns` lacks.
pub open spec fn noted_choice_fn(fns: Seq<Seq<char>>, data: ParamData) -> Seq<Seq<char>> {
    match data.checked_choice_fn() {
        Some(name) => if fns.contains(name) {
            fns
        } else {
            fns.push(name)
        },
        None => fns,
    }
}

/// `fns` with the checked routines of the first `upto` positional parameters.
pub open spec fn noted_positional_fns(
    fns: Seq<Seq<char>>,
    params: Seq<PositionalParam>,
    upto: int,
) -> Seq<Seq<char>>
    decreases upto,
{
    if upto <= 0 {
        fns
    } else {
        noted_choice_fn(noted_positional_fns(fns, params, upto - 1), params[upto - 1].data)
    }
}

/// How many of the tokens from `start` on are taken as values: at most
/// `limit`, and none from the first token on that begins with a dash.
pub open spec fn taken_count(args: Seq<Seq<char>>, start: int, limit: nat) -> nat
    decreases limit,
{
    if limit == 0 || start < 0 || start >= args.len() || dashed(args[start]) {
        0
    } else {
        1 + taken_count(args, start + 1, (limit - 1) as nat)
    }
}

/// The tokens from `start` on that are taken as values.
pub open spec fn taken_values(args: Seq<Seq<char>>, start: int, limit: nat) -> Seq<Seq<char>> {
    Seq::new(taken_count(args, start, limit), |k: int| args[start + k])
}

/// The occurrence of `param` spelled by the token at `at`, with the values
/// it captures and the guess it leaves.
pub open spec fn capture(
    args: Seq<Seq<char>>,
    at: int,
    param: FlagOptionParam,
    comp: Guess,
) -> Capture {
    let key = args[at];
    let name = param.data.name@;
    if param.data.terminated {
        let values = args.subrange(at + 1, args.len() as int);
        Capture {
            occurrence: Occurrence { key, values, param: Some(name) },
            comp: if values.len() > 0 {
                Guess::OptionValue(name, (values.len() - 1) as nat)
            } else {
                comp
            },
            taken: values.len(),
        }
    } else {
        let values = taken_values(args, at + 1, param.arity());
        let ends = at + values.len() == args.len() - 1;
        Capture {
            occurrence: Occurrence { key, values, param: Some(name) },
            comp: if ends && param.arity() > 0 {
                Guess::OptionValue(
                    name,
                    if values.len() > 0 {
                        (values.len() - 1) as nat
                    } else {
                        0
                    },
                )
            } else if ends && comp is FlagOrOption && param.arity() == 0 && !(key.len() > 2
                && param.spec_is_match(key)) {
                Guess::FlagOrOptionCombine(key)
            } else {
                comp
            },
            taken: values.len(),
        }
    }
}

/// The flag or option that the short spelling of `letter` names at `cmd`.
pub open spec fn short_of(cmd: Command, letter: char) -> Option<int> {
    cmd.spec_find_flag_option(seq!['-', letter])
}

/// Whether `word` combines short spellings: it is longer than two
/// characters, does not begin with two dashes, each character after the
/// first names a flag or option of `cmd`, and each of them but the last names
/// a flag.
pub open spec fn combines(cmd: Command, word: Seq<char>) -> bool {
    &&& word.len() > 2
    &&& !double_dashed(word)
    &&& forall|k: int| 1 <= k < word.len() ==> (#[trigger] short_of(cmd, word[k])) is Some
    &&& forall|k: int|
        1 <= k < word.len() - 1 ==> cmd.flag_option_params@[(#[trigger] short_of(
            cmd,
            word[k],
        ))->0].arity() == 0
}

/// The occurrence that the character at `k` of the combined token `word`
/// stands for.
pub open spec fn combined_occurrence(cmd: Command, word: Seq<char>, k: int) -> Occurrence {
    Occurrence {
        key: word,
        values: Seq::empty(),
        param: Some(cmd.flag_option_params@[short_of(cmd, word[k])->0].data.name@),
    }
}

/// One occurrence for each character of `word` after the first.
pub open spec fn combined(cmd: Command, word: Seq<char>) -> Seq<Occurrence> {
    Seq::new((word.len() - 1) as nat, |k: int| combined_occurrence(cmd, word, k + 1))
}

/// The state with `more` appended to the occurrences of the innermost level.
pub open spec fn with_occurrences(s: Scan, more: Seq<Occurrence>) -> Scan {
    let level = s.session.occurrences.len() - 1;
    Scan {
        session: Session {
            occurrences: s.session.occurrences.update(level, s.session.occurrences[level] + more),
            ..s.session
        },
        ..s
    }
}

/// The state after a descent into `child`, selected by `word` at `at`.
pub open spec fn with_subcommand(s: Scan, word: Seq<char>, child: Command, at: int) -> Scan {
    Scan {
        session: Session {
            path: s.session.path.push(
                PathEntry {
                    token: word,
                    cmd: child,
                    name: child.spec_display_name(word),
                    index: at as nat,
                },
            ),
            occurrences: s.session.occurrences.push(Seq::empty()),
            ..s.session
        },
        ..s
    }
}

/// The state after `param` was met at `at`, preceded by the occurrences
/// `leading` of the same token.
pub open spec fn captured(
    args: Seq<Seq<char>>,
    at: int,
    s: Scan,
    param: FlagOptionParam,
    leading: Seq<Occurrence>,
) -> Stepped {
    let got = capture(args, at, param, s.session.comp);
    let noted = Scan {
        session: Session {
            choice_fns: noted_choice_fn(s.session.choice_fns, param.data),
            comp: got.comp,
            ..s.session
        },
        ..s
    };
    Stepped { state: with_occurrences(noted, leading.push(got.occurrence)), taken: got.taken }
}

/// The state after the token at `at`, which has the form `key=value`.
pub open spec fn assigned(args: Seq<Seq<char>>, at: int, s: Scan) -> Scan {
    let cmd = s.session.path.last().cmd;
    let word = args[at];
    let cut = first_index_of(word, '=');
    let key = word.subrange(0, cut);
    let value = word.subrange(cut + 1, word.len() as int);
    let found = cmd.spec_find_flag_option(key);
    let last = at == args.len() - 1;
    let noted = match found {
        Some(i) => {
            let param = cmd.flag_option_params@[i];
            Scan {
                session: Session {
                    comp: if last {
                        Guess::OptionValue(param.data.name@, 0)
                    } else {
                        s.session.comp
                    },
                    choice_fns: noted_choice_fn(s.session.choice_fns, param.data),
                    last_assign: s.session.last_assign || last,
                    ..s.session
                },
                ..s
            }
        },
        None => Scan {
            session: Session { last_assign: s.session.last_assign || last, ..s.session },
            ..s
        },
    };
    let param = match found {
        Some(i) => Some(cmd.flag_option_params@[i].data.name@),
        None => None,
    };
    with_occurrences(noted, seq![Occurrence { key, values: seq![value], param }])
}

/// The state after the token at `at`, which begins with a dash and is read
/// as a flag or option.
pub open spec fn step_dashed(args: Seq<Seq<char>>, at: int, s: Scan) -> Stepped {
    let cmd = s.session.path.last().cmd;
    let word = args[at];
    if first_index_of(word, '=') < word.len() {
        Stepped { state: assigned(args, at, s), taken: 0 }
    } else {
        match cmd.spec_find_flag_option(word) {
            Some(i) => captured(args, at, s, cmd.flag_option_params@[i], Seq::empty()),
            None => if combines(cmd, word) {
                captured(
                    args,
                    at,
                    s,
                    cmd.flag_option_params@[short_of(cmd, word.last())->0],
                    combined(cmd, word).drop_last(),
                )
            } else {
                Stepped {
                    state: with_occurrences(
                        s,
                        seq![Occurrence { key: word, values: Seq::empty(), param: None }],
                    ),
                    taken: 0,
                }
            },
        }
    }
}

/// The state after the token at `at`.
pub open spec fn step(args: Seq<Seq<char>>, at: int, s: Scan) -> Stepped {
    let cmd = s.session.path.last().cmd;
    let word = args[at];
    if word == "--"@ {
        let marked = Scan {
            session: Session {
                dashes: s.session.dashes.push(s.session.positionals.len()),
                ..s.session
            },
            ..s
        };
        if s.rest {
            Stepped { state: with_positional(marked, word, cmd), taken: 0 }
        } else {
            Stepped { state: marked, taken: 0 }
        }
    } else if s.rest || s.session.dashes.len() > 0 || (cmd.spec_no_flags_options_subcommands()
        && !known_option(word)) {
        Stepped { state: with_positional(s, word, cmd), taken: 0 }
    } else if dashed(word) {
        step_dashed(args, at, s)
    } else {
        match cmd.spec_find_subcommand(word) {
            Some(k) => Stepped {
                state: with_subcommand(s, word, cmd.subcommands@[k], at),
                taken: 0,
            },
            None => Stepped { state: with_positional(s, word, cmd), taken: 0 },
        }
    }
}

/// The state after every token from `at` on.
pub open spec fn scan(args: Seq<Seq<char>>, at: int, s: Scan) -> Scan
    decreases args.len() - at,
{
    if at < 0 || at >= args.len() {
        s
    } else {
        let after = step(args, at, s);
        let next = at + 1 + after.taken;
        if at < next <= args.len() {
            scan(args, next, after.state)
        } else {
            after.state
        }
    }
}

/// The state before the first token after the program name.
pub open spec fn start(root: Command, args: Seq<Seq<char>>) -> Session {
    Session {
        path: seq![PathEntry { token: args[0], cmd: root, name: args[0], index: 0 }],
        occurrences: seq![Seq::empty()],
        positionals: Seq::empty(),
        dashes: Seq::empty(),
        comp: Guess::Any,
        choice_fns: Seq::empty(),
        last_assign: false,
    }
}

/// The outcome of a pass that ended in the state `s`.
pub open spec fn finish(s: Scan) -> Session {
    let cmd = s.session.path.last().cmd;
    Session {
        comp: if s.rest {
            Guess::CommandOrPositional
        } else {
            s.session.comp
        },
        choice_fns: noted_positional_fns(
            s.session.choice_fns,
            cmd.positional_params@,
            cmd.positional_params@.len() as int,
        ),
        ..s.session
    }
}

/// What holds of every session that classification yields for `root` and
/// `args`: the path starts at the root under the program name; each further
/// level is a subcommand of the level above it, selected by a token of the
/// argument vector; each level has its list of occurrences; the separator
/// positions never decrease and lie within the positional tokens; and no
/// routine is noted twice.
pub open spec fn shaped(s: Session, root: Command, args: Seq<Seq<char>>) -> bool {
    &&& s.path.len() > 0
    &&& s.path[0] == PathEntry { token: args[0], cmd: root, name: args[0], index: 0 }
    &&& s.occurrences.len() == s.path.len()
    &&& forall|i: int|
        1 <= i < s.path.len() ==> s.path[i - 1].cmd.subcommands@.contains(
            (#[trigger] s.path[i]).cmd,
        ) && 0 < s.path[i].index < args.len()
    &&& forall|i: int| 0 <= i < s.dashes.len() ==> #[trigger] s.dashes[i] <= s.positionals.len()
    &&& forall|i: int, j: int| 0 <= i <= j < s.dashes.len() ==> s.dashes[i] <= s.dashes[j]
    &&& s.choice_fns.no_duplicates()
}

/// The classification of the argument vector `args`, whose first token names
/// the program, against the tree rooted at `root`.
pub open spec fn classify(root: Command, args: Seq<Seq<char>>) -> Session {
    if root.delegated {
        Session { positionals: args.subrange(1, args.len() as int), ..start(root, args) }
    } else {
        finish(
            scan(
                args,
                1,
                Scan {
                    session: Session { comp: initial_guess(args.last()), ..start(root, args) },
                    rest: false,
                },
            ),
        )
    }
}

} // verus!
