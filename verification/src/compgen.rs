//! The completion generator: the candidates for the word that could come
//! next.

use vstd::prelude::*;
use vstd::string::*;
use either::Either;
use crate::allocate::allocation;
use crate::command::{first_hit, Command};
use crate::matcher::{level_view, ArgComp, FlagOptionArg, Matcher};
use crate::param::{ChoiceData, FlagOptionParam, ParamData, PositionalParam};
use crate::session::{Guess, Occurrence, Session};
use crate::text::{
    clone_strings, contains_text, lemma_first_index_unique, str_eq, string_of, texts, tokens,
};

verus! {

#[verifier::external_type_specification]
#[verifier::external_body]
#[verifier::reject_recursive_types(L)]
#[verifier::reject_recursive_types(R)]
pub struct ExEither<L, R>(Either<L, R>);

/// What kind of thing a candidate is.
#[derive(Debug, Clone, Copy, PartialEq, Eq)]
pub enum CompColor {
    OfFlag,
    OfOption,
    OfValue,
    OfCommand,
}

/// A candidate: its text, its description and its kind.
pub type CompItem = (String, String, CompColor);

/// A candidate as plain text.
pub type Candidate = (Seq<char>, Seq<char>, CompColor);

/// Where the values of a parameter come from: a list, or a routine.
pub enum Source {
    Listed(Seq<Seq<char>>),
    Routine(Seq<char>),
}

/// Where the values of a parameter come from: a list, or a routine.
pub enum ChoiceSource {
    Listed(Vec<String>),
    Routine(String),
}

impl View for ChoiceSource {
    type V = Source;

    open spec fn view(&self) -> Source {
        match self {
            ChoiceSource::Listed(values) => Source::Listed(texts(values@)),
            ChoiceSource::Routine(name) => Source::Routine(name@),
        }
    }
}

/// What an `Either` of a list and a name holds: the list where it is the
/// left variant, the name where it is the right one.
pub uninterp spec fn either_source(choices: Either<Vec<String>, String>) -> Source;

/// `Either::Left` around a list of values.
#[verifier::external_body]
pub(crate) fn either_left(values: Vec<String>) -> (choices: Either<Vec<String>, String>)
    ensures
        either_source(choices) == Source::Listed(texts(values@)),
{
    Either::Left(values)
}

/// `Either::Right` around the name of a routine.
#[verifier::external_body]
pub(crate) fn either_right(name: String) -> (choices: Either<Vec<String>, String>)
    ensures
        either_source(choices) == Source::Routine(name@),
{
    Either::Right(name)
}

/// The two variants of `Either` told apart: what the left one holds comes
/// back as a list, what the right one holds as a routine.
#[verifier::external_body]
pub(crate) fn either_split(choices: Either<Vec<String>, String>) -> (source: ChoiceSource)
    ensures
        source@ == either_source(choices),
{
    match choices {
        Either::Left(values) => ChoiceSource::Listed(values),
        Either::Right(name) => ChoiceSource::Routine(name),
    }
}

/// The candidates of a list.
pub open spec fn candidates(list: Seq<CompItem>) -> Seq<Candidate> {
    Seq::new(list.len(), |i: int| (list[i].0@, list[i].1@, list[i].2))
}

/// The candidate that stands for a path of the file system.
pub open spec fn path_candidate() -> Candidate {
    ("__argc_value=path"@, Seq::empty(), CompColor::OfValue)
}

/// One candidate of the given kind for each of `names`.
pub open spec fn named_candidates(names: Seq<Seq<char>>, describe: Seq<char>, kind: CompColor) -> Seq<
    Candidate,
> {
    Seq::new(names.len(), |i: int| (names[i], describe, kind))
}

/// The candidates for a value of a parameter: its listed choices, or a
/// marker that names its routine, or else a marker that names the value;
/// before them a marker with the character that separates several values
/// within one token, where the parameter accepts one.
pub open spec fn param_candidates(describe: Seq<char>, value_name: Seq<char>, data: ParamData) -> Seq<
    Candidate,
> {
    let body = match data.choice {
        Some(ChoiceData::Fn(name, _)) => seq![
            ("__argc_fn="@ + name@, Seq::empty(), CompColor::OfValue),
        ],
        Some(ChoiceData::Values(list)) => named_candidates(
            texts(list@),
            Seq::empty(),
            CompColor::OfValue,
        ),
        None => seq![("__argc_value="@ + value_name, describe, CompColor::OfValue)],
    };
    match data.multi_char {
        Some(mark) => seq![
            ("__argc_multi="@ + seq![mark], Seq::<char>::empty(), CompColor::OfValue),
        ] + body,
        None => body,
    }
}

/// The candidates for a value of a positional parameter.
pub open spec fn positional_candidates(param: PositionalParam) -> Seq<Candidate> {
    param_candidates(param.data.spec_describe_head(), param.arg_value_name@, param.data)
}

/// The candidates for the value at `index` of an option; a flag has none.
pub open spec fn flag_option_candidates(param: FlagOptionParam, index: int) -> Seq<Candidate> {
    if param.arity() == 0 {
        Seq::empty()
    } else {
        param_candidates(param.data.spec_describe_head(), param.spec_value_name(index), param.data)
    }
}

/// The names of the first `upto` subcommands of `cmd` as candidates.
pub open spec fn subcommand_candidates(cmd: Command, upto: int) -> Seq<Candidate>
    decreases upto,
{
    if upto <= 0 {
        Seq::empty()
    } else {
        let sub = cmd.subcommands@[upto - 1];
        subcommand_candidates(cmd, upto - 1) + named_candidates(
            sub.spec_list_names(),
            sub.spec_describe_head(),
            CompColor::OfCommand,
        )
    }
}

/// The subcommands of `cmd`, where they are asked for, and the candidates
/// for the positional parameter that the last of `count` groups belongs to.
pub open spec fn subcommands_positional_candidates(cmd: Command, count: nat, with_subcmd: bool) -> Seq<
    Candidate,
> {
    let subs = if with_subcmd {
        subcommand_candidates(cmd, cmd.subcommands@.len() as int)
    } else {
        Seq::empty()
    };
    if count == 0 || count > cmd.positional_params@.len() {
        subs
    } else {
        subs + positional_candidates(cmd.positional_params@[count - 1])
    }
}

/// For each occurrence, whether it bears `name`.
pub open spec fn bearing_hits(occurrences: Seq<Occurrence>, name: Seq<char>) -> Seq<bool> {
    Seq::new(occurrences.len(), |i: int| occurrences[i].param == Some(name))
}

/// The kind of a flag or option.
pub open spec fn kind_of(param: FlagOptionParam) -> CompColor {
    if param.arity() == 0 {
        CompColor::OfFlag
    } else {
        CompColor::OfOption
    }
}

/// The spellings of those among the first `upto` flags and options of
/// `cmd` that have no occurrence yet or may be repeated.
pub open spec fn flag_options_candidates(cmd: Command, occurrences: Seq<Occurrence>, upto: int) -> Seq<
    Candidate,
>
    decreases upto,
{
    if upto <= 0 {
        Seq::empty()
    } else {
        let param = cmd.flag_option_params@[upto - 1];
        let before = flag_options_candidates(cmd, occurrences, upto - 1);
        if first_hit(bearing_hits(occurrences, param.data.name@)) is None || param.data.multiple {
            before + named_candidates(
                texts(param.spellings@),
                param.data.spec_describe_head(),
                kind_of(param),
            )
        } else {
            before
        }
    }
}

/// The short spellings among the first `upto` of `list`, each appended to
/// `prefix` without its dash.
pub open spec fn combined_candidates(list: Seq<Candidate>, prefix: Seq<char>, upto: int) -> Seq<
    Candidate,
>
    decreases upto,
{
    if upto <= 0 {
        Seq::empty()
    } else {
        let before = combined_candidates(list, prefix, upto - 1);
        let item = list[upto - 1];
        if item.0.len() == 2 {
            before.push((prefix + seq![item.0[1]], item.1, item.2))
        } else {
            before
        }
    }
}

/// For each argument, whether it is one of `symbols`.
pub open spec fn redirect_hits(args: Seq<Seq<char>>, symbols: Seq<Seq<char>>) -> Seq<bool> {
    Seq::new(args.len(), |i: int| symbols.contains(args[i]))
}

/// Whether the positional tokens are `help` and one more.
pub open spec fn asks_subcommand_help(s: Session) -> bool {
    s.positionals.len() == 2 && s.positionals[0] == "help"@
}

/// The command whose subcommands and positional parameters are proposed:
/// the innermost one, or the one above it where a command or a positional
/// value is awaited and nothing follows the token that selected the
/// innermost one.
pub open spec fn proposing(s: Session) -> Command {
    let level = s.path.len() - 1;
    if s.comp is CommandOrPositional && level > 0 && s.positionals.len() == 0
        && s.occurrences[level].len() == 0 {
        s.path[level - 1].cmd
    } else {
        s.path.last().cmd
    }
}

/// The candidates that the guess of `s` calls for.
pub open spec fn guessed(s: Session, args: Seq<Seq<char>>) -> Seq<Candidate> {
    let level = s.path.len() - 1;
    let last = s.path.last().cmd;
    let offered = flag_options_candidates(
        last,
        s.occurrences[level],
        last.flag_option_params@.len() as int,
    );
    match s.comp {
        Guess::FlagOrOption => match last.spec_find_flag_option(args.last()) {
            Some(p) => offered.push(
                (
                    args.last(),
                    last.flag_option_params@[p].data.spec_describe_head(),
                    kind_of(last.flag_option_params@[p]),
                ),
            ),
            None => offered,
        },
        Guess::FlagOrOptionCombine(prefix) => {
            let short = combined_candidates(offered, prefix, offered.len() as int);
            if short.len() == 1 {
                seq![(prefix, Seq::<char>::empty(), CompColor::OfFlag)] + short
            } else {
                short
            }
        },
        Guess::OptionValue(name, index) => match last.spec_find_by_name(name) {
            Some(p) => flag_option_candidates(last.flag_option_params@[p], index as int),
            None => Seq::empty(),
        },
        _ => subcommands_positional_candidates(
            proposing(s),
            allocation(last.positional_params@, s.positionals, s.dashes).len(),
            s.positionals.len() < 2,
        ),
    }
}

/// The candidates for the word that could come next. A redirection symbol
/// among the arguments leaves a path of the file system as the only
/// candidate; a delegated command proposes the values of its first
/// positional parameter; `help` and one more positional token propose the
/// subcommands; else the guess decides, and where it yields nothing, no
/// flag, option or option value is awaited and the proposing command
/// declares no positional parameter, a path of the file system is proposed.
pub open spec fn completions(s: Session, args: Seq<Seq<char>>, symbols: Seq<Seq<char>>) -> Seq<
    Candidate,
> {
    let last = s.path.last().cmd;
    if first_hit(redirect_hits(args, symbols)) is Some {
        seq![path_candidate()]
    } else if last.delegated {
        if last.positional_params@.len() > 0 {
            positional_candidates(last.positional_params@[0])
        } else {
            Seq::empty()
        }
    } else if (s.comp is CommandOrPositional || s.comp is Any) && asks_subcommand_help(s) {
        subcommand_candidates(last, last.subcommands@.len() as int)
    } else {
        let found = guessed(s, args);
        if found.len() == 0 && !(s.comp is FlagOrOption || s.comp is OptionValue) && proposing(
            s,
        ).positional_params@.len() == 0 {
            seq![path_candidate()]
        } else {
            found
        }
    }
}

/// One candidate of the given kind for each of `names`.
fn push_named(output: &mut Vec<CompItem>, names: &Vec<String>, describe: &str, kind: CompColor)
    ensures
        candidates(final(output)@) == candidates(old(output)@) + named_candidates(
            texts(names@),
            describe@,
            kind,
        ),
{
    let ghost before = candidates(output@);
    let mut i: usize = 0;
    proof {
        assert(candidates(output@) =~= before + named_candidates(
            texts(names@).take(0),
            describe@,
            kind,
        ));
    }
    while i < names.len()
        invariant
            i <= names@.len(),
            candidates(output@) == before + named_candidates(
                texts(names@).take(i as int),
                describe@,
                kind,
            ),
        decreases names@.len() - i,
    {
        let ghost sofar = candidates(output@);
        output.push((names[i].clone(), String::from_str(describe), kind));
        proof {
            let added = (names@[i as int]@, describe@, kind);
            assert(candidates(output@) =~= sofar.push(added));
            assert(named_candidates(texts(names@).take(i + 1), describe@, kind)
                =~= named_candidates(texts(names@).take(i as int), describe@, kind).push(added));
            assert(candidates(output@) =~= before + named_candidates(
                texts(names@).take(i + 1),
                describe@,
                kind,
            ));
        }
        i += 1;
    }
    proof {
        assert(texts(names@).take(names@.len() as int) =~= texts(names@));
    }
}

/// The candidates for a value of a parameter with the data `data`, which
/// is described by `describe` and whose value is named `value_name`.
pub fn comp_param(describe: &str, value_name: &str, data: &ParamData) -> (output: Vec<CompItem>)
    ensures
        candidates(output@) == param_candidates(describe@, value_name@, *data),
{
    let choices: Option<Either<Vec<String>, String>> = if let Some((choice_fn, _)) =
        data.choice_fn() {
        Some(either_right(choice_fn.clone()))
    } else {
        match data.choice_values() {
            Some(values) => Some(either_left(clone_strings(values))),
            None => None,
        }
    };
    let mut output: Vec<CompItem> = Vec::new();
    proof {
        assert(candidates(output@) =~= Seq::<Candidate>::empty());
    }
    if let Some(choices) = choices {
        match either_split(choices) {
            ChoiceSource::Listed(values) => {
                push_named(&mut output, &values, "", CompColor::OfValue);
                proof {
                    reveal_strlit("");
                    assert(""@ =~= Seq::<char>::empty());
                    assert(candidates(output@) =~= named_candidates(
                        texts(values@),
                        Seq::empty(),
                        CompColor::OfValue,
                    ));
                }
            },
            ChoiceSource::Routine(name) => {
                let mut text = String::from_str("__argc_fn=");
                text.append(name.as_str());
                output.push((text, String::new(), CompColor::OfValue));
                proof {
                    assert(candidates(output@) =~= seq![
                        ("__argc_fn="@ + name@, Seq::<char>::empty(), CompColor::OfValue),
                    ]);
                }
            },
        }
    } else {
        let mut text = String::from_str("__argc_value=");
        text.append(value_name);
        output.push((text, String::from_str(describe), CompColor::OfValue));
        proof {
            assert(candidates(output@) =~= seq![
                ("__argc_value="@ + value_name@, describe@, CompColor::OfValue),
            ]);
        }
    }
    if let Some(mark) = data.multi_char() {
        let ghost body = candidates(output@);
        let mut letters: Vec<char> = Vec::new();
        letters.push(mark);
        let mut text = String::from_str("__argc_multi=");
        text.append(string_of(&letters).as_str());
        output.insert(0, (text, String::new(), CompColor::OfValue));
        proof {
            assert(letters@ =~= seq![mark]);
            assert(candidates(output@) =~= seq![
                ("__argc_multi="@ + seq![mark], Seq::<char>::empty(), CompColor::OfValue),
            ] + body);
        }
    }
    output
}

/// The candidates for a value of a positional parameter.
pub fn comp_positional(param: &PositionalParam) -> (output: Vec<CompItem>)
    ensures
        candidates(output@) == positional_candidates(*param),
{
    comp_param(param.describe_head(), param.arg_value_name.as_str(), &param.data)
}

/// The candidates for the value at `index` of an option; a flag has none.
pub fn comp_flag_option(param: &FlagOptionParam, index: usize) -> (output: Vec<CompItem>)
    ensures
        candidates(output@) == flag_option_candidates(*param, index as int),
{
    if param.is_flag() {
        let output: Vec<CompItem> = Vec::new();
        proof {
            assert(candidates(output@) =~= Seq::<Candidate>::empty());
        }
        output
    } else {
        comp_param(param.describe_head(), param.value_name(index), &param.data)
    }
}

/// The names of the subcommands of `cmd` as candidates.
pub fn comp_subcomands(cmd: &Command) -> (output: Vec<CompItem>)
    ensures
        candidates(output@) == subcommand_candidates(*cmd, cmd.subcommands@.len() as int),
{
    let mut output: Vec<CompItem> = Vec::new();
    proof {
        assert(candidates(output@) =~= Seq::<Candidate>::empty());
    }
    let mut i: usize = 0;
    while i < cmd.subcommands.len()
        invariant
            i <= cmd.subcommands@.len(),
            candidates(output@) == subcommand_candidates(*cmd, i as int),
        decreases cmd.subcommands@.len() - i,
    {
        let subcmd = &cmd.subcommands[i];
        push_named(&mut output, &subcmd.list_names(), subcmd.describe_head(), CompColor::OfCommand);
        i += 1;
    }
    output
}

/// The subcommands of `cmd`, where `with_subcmd` asks for them, and the
/// candidates for the positional parameter that the last of the groups
/// `values` belongs to.
pub fn comp_subcommands_positional(cmd: &Command, values: &Vec<Vec<&str>>, with_subcmd: bool) -> (output:
    Vec<CompItem>)
    ensures
        candidates(output@) == subcommands_positional_candidates(
            *cmd,
            values@.len() as nat,
            with_subcmd,
        ),
{
    let mut output: Vec<CompItem> = Vec::new();
    proof {
        assert(candidates(output@) =~= Seq::<Candidate>::empty());
    }
    if with_subcmd {
        output = comp_subcomands(cmd);
    }
    if values.len() == 0 || values.len() > cmd.positional_params.len() {
        return output;
    }
    let ghost subs = candidates(output@);
    let mut more = comp_positional(&cmd.positional_params[values.len() - 1]);
    let ghost added = candidates(more@);
    output.append(&mut more);
    proof {
        assert(candidates(output@) =~= subs + added);
    }
    output
}

/// Whether one of `args` bears `name`.
fn is_used(args: &Vec<FlagOptionArg>, name: &str) -> (yes: bool)
    ensures
        yes == first_hit(bearing_hits(level_view(args@), name@)) is Some,
{
    let ghost hits = bearing_hits(level_view(args@), name@);
    let mut i: usize = 0;
    while i < args.len()
        invariant
            i <= args@.len(),
            hits == bearing_hits(level_view(args@), name@),
            forall|j: int| 0 <= j < i ==> hits[j] != true,
        decreases args@.len() - i,
    {
        proof {
            assert(level_view(args@)[i as int] == args@[i as int]@);
        }
        if let Some(param) = args[i].param {
            if str_eq(param, name) {
                proof {
                    lemma_first_index_unique(hits, true, i as int);
                }
                return true;
            }
        }
        i += 1;
    }
    proof {
        lemma_first_index_unique(hits, true, i as int);
    }
    false
}

/// The kind of a flag or option.
fn color_of(param: &FlagOptionParam) -> (kind: CompColor)
    ensures
        kind == kind_of(*param),
{
    if param.is_flag() {
        CompColor::OfFlag
    } else {
        CompColor::OfOption
    }
}

impl<'a, 'b> Matcher<'a, 'b> {
    /// The spellings of the flags and options of the innermost command that
    /// have no occurrence yet or may be repeated.
    pub fn comp_flag_options(&self) -> (output: Vec<CompItem>)
        ensures
            candidates(output@) == flag_options_candidates(
                self.session().path.last().cmd,
                self.session().occurrences.last(),
                self.session().path.last().cmd.flag_option_params@.len() as int,
            ),
    {
        proof {
            use_type_invariant(self);
        }
        let mut output: Vec<CompItem> = Vec::new();
        proof {
            assert(candidates(output@) =~= Seq::<Candidate>::empty());
        }
        let level: usize = self.cmds.len() - 1;
        let cmd = self.cmds[level].cmd;
        let args = &self.flag_option_args[level];
        proof {
            assert(self.session().path.last().cmd == *cmd);
            assert(self.session().occurrences.last() == level_view(args@));
        }
        let mut i: usize = 0;
        while i < cmd.flag_option_params.len()
            invariant
                i <= cmd.flag_option_params@.len(),
                candidates(output@) == flag_options_candidates(
                    *cmd,
                    level_view(args@),
                    i as int,
                ),
            decreases cmd.flag_option_params@.len() - i,
        {
            let param = &cmd.flag_option_params[i];
            let exist = is_used(args, param.data.name.as_str());
            if !exist || param.multiple() {
                push_named(
                    &mut output,
                    &param.spellings,
                    param.describe_head(),
                    color_of(param),
                );
            }
            i += 1;
        }
        output
    }

    /// The candidates for the word that could come next; `redirect_symbols`
    /// holds the tokens that the shell reads as redirections.
    pub fn compgen(&self, redirect_symbols: &Vec<String>) -> (output: Vec<CompItem>)
        ensures
            candidates(output@) == completions(
                self.session(),
                self.spec_args(),
                texts(redirect_symbols@),
            ),
    {
        proof {
            use_type_invariant(self);
        }
        let ghost s = self.session();
        let ghost hits = redirect_hits(self.spec_args(), texts(redirect_symbols@));
        let mut k: usize = 0;
        while k < self.args.len()
            invariant
                k <= self.args@.len(),
                hits == redirect_hits(self.spec_args(), texts(redirect_symbols@)),
                forall|j: int| 0 <= j < k ==> hits[j] != true,
            decreases self.args@.len() - k,
        {
            if contains_text(redirect_symbols, self.args[k].as_str()) {
                proof {
                    lemma_first_index_unique(hits, true, k as int);
                }
                let mut output: Vec<CompItem> = Vec::new();
                output.push((String::from_str("__argc_value=path"), String::new(), CompColor::OfValue));
                proof {
                    assert(candidates(output@) =~= seq![path_candidate()]);
                }
                return output;
            }
            k += 1;
        }
        proof {
            lemma_first_index_unique(hits, true, k as int);
        }
        let level: usize = self.cmds.len() - 1;
        let mut last_cmd: &'a Command = self.cmds[level].cmd;
        let args = &self.flag_option_args[level];
        proof {
            assert(s.path.last().cmd == *last_cmd);
            assert(s.occurrences[level as int] == level_view(args@));
            assert(s.occurrences.last() == level_view(args@));
        }
        if last_cmd.delegated() {
            if last_cmd.positional_params.len() > 0 {
                return comp_positional(&last_cmd.positional_params[0]);
            }
            let output: Vec<CompItem> = Vec::new();
            proof {
                assert(candidates(output@) =~= Seq::<Candidate>::empty());
            }
            return output;
        }
        let positional_guess = match &self.arg_comp {
            ArgComp::CommandOrPositional => true,
            ArgComp::Any => true,
            _ => false,
        };
        if positional_guess && self.positional_args.len() == 2 && str_eq(
            self.positional_args[0],
            "help",
        ) {
            return comp_subcomands(last_cmd);
        }
        let mut output: Vec<CompItem> = match &self.arg_comp {
            ArgComp::FlagOrOption => {
                let mut output = self.comp_flag_options();
                let value = &self.args[self.args.len() - 1];
                proof {
                    assert(self.spec_args().last() == value@);
                }
                if let Some(p) = last_cmd.find_flag_option(value.as_str()) {
                    let param = &last_cmd.flag_option_params[p];
                    let ghost offered = candidates(output@);
                    output.push(
                        (value.clone(), String::from_str(param.describe_head()), color_of(param)),
                    );
                    proof {
                        assert(candidates(output@) =~= offered.push(
                            (value@, param.data.spec_describe_head(), kind_of(*param)),
                        ));
                    }
                }
                output
            },
            ArgComp::FlagOrOptionCombine(value) => {
                let offered = self.comp_flag_options();
                let mut output: Vec<CompItem> = Vec::new();
                proof {
                    assert(candidates(output@) =~= Seq::<Candidate>::empty());
                }
                let mut i: usize = 0;
                while i < offered.len()
                    invariant
                        i <= offered@.len(),
                        candidates(output@) == combined_candidates(
                            candidates(offered@),
                            value@,
                            i as int,
                        ),
                    decreases offered@.len() - i,
                {
                    let item = &offered[i];
                    if item.0.as_str().unicode_len() == 2 {
                        let mut letters: Vec<char> = Vec::new();
                        letters.push(item.0.as_str().get_char(1));
                        let mut text = value.clone();
                        text.append(string_of(&letters).as_str());
                        let ghost before = candidates(output@);
                        output.push((text, item.1.clone(), item.2));
                        proof {
                            assert(letters@ =~= seq![item.0@[1]]);
                            assert(candidates(output@) =~= before.push(
                                (value@ + seq![item.0@[1]], item.1@, item.2),
                            ));
                        }
                    }
                    i += 1;
                }
                if output.len() == 1 {
                    let ghost short = candidates(output@);
                    output.insert(0, (value.clone(), String::new(), CompColor::OfFlag));
                    proof {
                        assert(candidates(output@) =~= seq![
                            (value@, Seq::<char>::empty(), CompColor::OfFlag),
                        ] + short);
                    }
                }
                output
            },
            ArgComp::OptionValue(name, index) => {
                match last_cmd.find_by_name(name.as_str()) {
                    Some(p) => comp_flag_option(&last_cmd.flag_option_params[p], *index),
                    None => {
                        let output: Vec<CompItem> = Vec::new();
                        proof {
                            assert(candidates(output@) =~= Seq::<Candidate>::empty());
                        }
                        output
                    },
                }
            },
            ArgComp::CommandOrPositional => {
                if level > 0 && self.positional_args.len() == 0 && args.len() == 0 {
                    last_cmd = self.cmds[level - 1].cmd;
                }
                let values = self.match_positionals();
                comp_subcommands_positional(last_cmd, &values, self.positional_args.len() < 2)
            },
            ArgComp::Any => {
                let values = self.match_positionals();
                comp_subcommands_positional(last_cmd, &values, self.positional_args.len() < 2)
            },
        };
        proof {
            assert(*last_cmd == proposing(s));
            assert(candidates(output@) == guessed(s, self.spec_args()));
        }
        if output.len() == 0 && !self.arg_comp.is_flag_or_option()
            && last_cmd.positional_params.len() == 0 {
            output.push((String::from_str("__argc_value=path"), String::new(), CompColor::OfValue));
            proof {
                assert(candidates(output@) =~= seq![path_candidate()]);
            }
        }
        output
    }
}

} // verus!
