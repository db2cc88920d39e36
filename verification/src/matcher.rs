//! The matcher: the classification of one argument vector against a command
//! tree, computed once when the matcher is made.

use vstd::prelude::*;
use vstd::string::*;
use crate::command::Command;
use crate::param::{FlagOptionParam, ParamData};
use crate::session::{
    capture, classify, combined, combined_occurrence, combines, initial_guess, known_option,
    noted_choice_fn, noted_positional_fns, reaches_terminated, scan, shaped, short_of, start,
    step,
    taken_count, taken_values, Guess, Occurrence, PathEntry, Scan, Session,
};
use crate::text::{
    split_assign, starts_with_dash, starts_with_double_dash, str_eq, texts, tokens,
};

verus! {

/// What kind of word could come next, for completion.
#[derive(Debug, PartialEq, Eq)]
pub enum ArgComp {
    FlagOrOption,
    FlagOrOptionCombine(String),
    CommandOrPositional,
    OptionValue(String, usize),
    Any,
}

impl View for ArgComp {
    type V = Guess;

    open spec fn view(&self) -> Guess {
        match self {
            ArgComp::FlagOrOption => Guess::FlagOrOption,
            ArgComp::FlagOrOptionCombine(word) => Guess::FlagOrOptionCombine(word@),
            ArgComp::CommandOrPositional => Guess::CommandOrPositional,
            ArgComp::OptionValue(name, index) => Guess::OptionValue(name@, *index as nat),
            ArgComp::Any => Guess::Any,
        }
    }
}

impl ArgComp {
    /// Whether a flag, an option or the value of an option is awaited.
    pub fn is_flag_or_option(&self) -> (yes: bool)
        ensures
            yes == (self@ is FlagOrOption || self@ is OptionValue),
    {
        match self {
            ArgComp::FlagOrOption => true,
            ArgComp::OptionValue(_, _) => true,
            _ => false,
        }
    }
}

/// One level of the command path.
pub struct CmdEntry<'a, 'b> {
    /// The token that selected the node.
    pub token: &'b str,
    pub cmd: &'a Command,
    /// The name under which the node is shown.
    pub name: String,
    /// The position of the token in the argument vector.
    pub index: usize,
}

impl<'a, 'b> View for CmdEntry<'a, 'b> {
    type V = PathEntry;

    open spec fn view(&self) -> PathEntry {
        PathEntry {
            token: self.token@,
            cmd: *self.cmd,
            name: self.name@,
            index: self.index as nat,
        }
    }
}

/// One occurrence of a flag or option.
#[derive(Debug, PartialEq, Eq)]
pub struct FlagOptionArg<'a, 'b> {
    /// The spelling as it was typed.
    pub key: &'b str,
    /// The value tokens that the occurrence captured.
    pub values: Vec<&'b str>,
    /// The canonical name of the parameter, or `None` for a spelling that no
    /// parameter recognizes.
    pub param: Option<&'a str>,
}

impl<'a, 'b> View for FlagOptionArg<'a, 'b> {
    type V = Occurrence;

    open spec fn view(&self) -> Occurrence {
        Occurrence {
            key: self.key@,
            values: tokens(self.values@),
            param: match self.param {
                Some(name) => Some(name@),
                None => None,
            },
        }
    }
}

/// The entries of a command path.
pub open spec fn path_view(cmds: Seq<CmdEntry>) -> Seq<PathEntry> {
    Seq::new(cmds.len(), |i: int| cmds[i]@)
}

/// The occurrences of one level.
pub open spec fn level_view(list: Seq<FlagOptionArg>) -> Seq<Occurrence> {
    Seq::new(list.len(), |i: int| list[i]@)
}

/// The occurrences of every level.
pub open spec fn levels_view(levels: Seq<Vec<FlagOptionArg>>) -> Seq<Seq<Occurrence>> {
    Seq::new(levels.len(), |i: int| level_view(levels[i]@))
}

/// Separator positions as numbers.
pub open spec fn dashes_view(dashes: Seq<usize>) -> Seq<nat> {
    Seq::new(dashes.len(), |i: int| dashes[i] as nat)
}

/// Takes `arg` as a positional token at `cmd`, and says whether every
/// further token is positional from now on.
pub fn add_positional_arg<'b>(
    positional_args: &mut Vec<&'b str>,
    arg: &'b str,
    is_rest_args_positional: &mut bool,
    cmd: &Command,
)
    ensures
        final(positional_args)@ == old(positional_args)@.push(arg),
        tokens(final(positional_args)@) == tokens(old(positional_args)@).push(arg@),
        *final(is_rest_args_positional) == (*old(is_rest_args_positional) || reaches_terminated(
            *cmd,
            final(positional_args)@.len(),
        )),
{
    positional_args.push(arg);
    proof {
        assert(tokens(positional_args@) =~= tokens(old(positional_args)@).push(arg@));
    }
    let n: usize = cmd.positional_params.len();
    if !*is_rest_args_positional && n > 0 && cmd.positional_params[n - 1].terminated()
        && positional_args.len() >= n - 1 {
        *is_rest_args_positional = true;
    }
}

/// The tokens from `start` on that an occurrence takes as values: at most
/// `len` of them, and none from the first one on that begins with a dash.
pub fn take_value_args<'b>(args: &'b [String], start: usize, len: usize) -> (output: Vec<&'b str>)
    ensures
        tokens(output@) == taken_values(texts(args@), start as int, len as nat),
        output@.len() == taken_count(texts(args@), start as int, len as nat),
        start + output@.len() <= args@.len() || output@.len() == 0,
{
    let mut output: Vec<&'b str> = Vec::new();
    let ghost words = texts(args@);
    let args_len: usize = args.len();
    if start >= args_len {
        proof {
            assert(words.len() == args@.len());
            assert(taken_count(words, start as int, len as nat) == 0);
            assert(tokens(output@) =~= taken_values(words, start as int, len as nat));
        }
        return output;
    }
    let room: usize = args_len - start;
    let mut k: usize = 0;
    while k < len && k < room && !starts_with_dash(args[start + k].as_str())
        invariant
            words == texts(args@),
            args_len == args@.len(),
            start < args_len,
            room == args_len - start,
            k <= len,
            k <= room,
            output@.len() == k,
            forall|j: int| 0 <= j < k ==> output@[j]@ == words[start + j],
            taken_count(words, start as int, len as nat) == k + taken_count(
                words,
                start + k,
                (len - k) as nat,
            ),
        decreases len - k,
    {
        output.push(args[start + k].as_str());
        k += 1;
    }
    proof {
        assert(taken_count(words, start + k, (len - k) as nat) == 0);
        assert(tokens(output@) =~= taken_values(words, start as int, len as nat));
    }
    output
}

/// Reads `arg` as combined short spellings: one occurrence per character
/// after the first, when each of them names a flag or option of `cmd` and
/// each but the last names a flag.
pub fn match_combine_shorts<'a, 'b>(cmd: &'a Command, arg: &'b str) -> (output: Option<
    Vec<FlagOptionArg<'a, 'b>>,
>)
    ensures
        output is Some == combines(*cmd, arg@),
        output matches Some(list) ==> level_view(list@) == combined(*cmd, arg@),
{
    let n: usize = arg.unicode_len();
    if n > 2 && !starts_with_double_dash(arg) {
        let mut output: Vec<FlagOptionArg<'a, 'b>> = Vec::new();
        let mut k: usize = 1;
        while k < n
            invariant
                n == arg@.len(),
                n > 2,
                1 <= k <= n,
                output@.len() == k - 1,
                forall|j: int| 1 <= j < k ==> (#[trigger] short_of(*cmd, arg@[j])) is Some,
                forall|j: int|
                    1 <= j < k && j < n - 1 ==> cmd.flag_option_params@[(#[trigger] short_of(
                        *cmd,
                        arg@[j],
                    ))->0].arity() == 0,
                forall|j: int|
                    0 <= j < k - 1 ==> (#[trigger] output@[j])@ == combined_occurrence(
                        *cmd,
                        arg@,
                        j + 1,
                    ),
            decreases n - k,
        {
            let letter = arg.get_char(k);
            match cmd.find_short(letter) {
                Some(i) => {
                    let param: &'a FlagOptionParam = &cmd.flag_option_params[i];
                    if k < n - 1 && !param.is_flag() {
                        proof {
                            assert(short_of(*cmd, arg@[k as int]) == Some(i as int));
                        }
                        return None;
                    }
                    let values: Vec<&'b str> = Vec::new();
                    proof {
                        assert(tokens(values@) =~= Seq::<Seq<char>>::empty());
                    }
                    output.push(
                        FlagOptionArg { key: arg, values, param: Some(param.data.name.as_str()) },
                    );
                },
                None => {
                    proof {
                        assert(!(short_of(*cmd, arg@[k as int]) is Some));
                    }
                    return None;
                },
            }
            k += 1;
        }
        proof {
            assert(level_view(output@) =~= combined(*cmd, arg@));
        }
        Some(output)
    } else {
        None
    }
}

/// Records the occurrence of `param` spelled by the token at `arg_index`,
/// with the values it captures, and advances `arg_index` past those values.
/// Where the occurrence ends the argument vector, an option leaves a value
/// of its own awaited, at the position of the last value it captured; a
/// flag that was typed as a short spelling leaves further short spellings
/// awaited.
pub fn match_flag_option<'a, 'b>(
    output: &mut Vec<FlagOptionArg<'a, 'b>>,
    args: &'b [String],
    arg_index: &mut usize,
    param: &'a FlagOptionParam,
    arg_comp: &mut ArgComp,
)
    requires
        *old(arg_index) < args@.len(),
    ensures
        final(output)@.len() == old(output)@.len() + 1,
        level_view(final(output)@) == level_view(old(output)@).push(
            capture(texts(args@), *old(arg_index) as int, *param, old(arg_comp)@).occurrence,
        ),
        final(arg_comp)@ == capture(
            texts(args@),
            *old(arg_index) as int,
            *param,
            old(arg_comp)@,
        ).comp,
        *final(arg_index) == *old(arg_index) + capture(
            texts(args@),
            *old(arg_index) as int,
            *param,
            old(arg_comp)@,
        ).taken,
        *final(arg_index) < args@.len(),
{
    let ghost words = texts(args@);
    let ghost got = capture(words, *arg_index as int, *param, arg_comp@);
    let at: usize = *arg_index;
    let arg: &'b str = args[at].as_str();
    let args_len: usize = args.len();
    if param.terminated() {
        let mut value_args: Vec<&'b str> = Vec::new();
        let mut i: usize = at + 1;
        while i < args_len
            invariant
                words == texts(args@),
                args_len == args@.len(),
                at + 1 <= i <= args_len,
                value_args@.len() == i - (at + 1),
                forall|j: int| 0 <= j < value_args@.len() ==> value_args@[j]@ == words[at + 1 + j],
            decreases args_len - i,
        {
            value_args.push(args[i].as_str());
            i += 1;
        }
        proof {
            assert(tokens(value_args@) =~= words.subrange(at + 1, args_len as int));
        }
        *arg_index = at + value_args.len();
        if value_args.len() > 0 {
            *arg_comp = ArgComp::OptionValue(param.data.name.clone(), value_args.len() - 1);
        }
        output.push(FlagOptionArg { key: arg, values: value_args, param: Some(param.data.name.as_str()) });
        proof {
            assert(level_view(output@) =~= level_view(old(output)@).push(got.occurrence));
        }
    } else {
        let values_len: usize = param.values_size();
        let value_args = take_value_args(args, at + 1, values_len);
        *arg_index = at + value_args.len();
        if *arg_index == args_len - 1 {
            let guessed_flag = match arg_comp {
                ArgComp::FlagOrOption => true,
                _ => false,
            };
            if param.is_option() {
                let index: usize = if value_args.len() > 0 {
                    value_args.len() - 1
                } else {
                    0
                };
                *arg_comp = ArgComp::OptionValue(param.data.name.clone(), index);
            } else if guessed_flag && param.is_flag() && !(arg.unicode_len() > 2 && param.is_match(
                arg,
            )) {
                *arg_comp = ArgComp::FlagOrOptionCombine(String::from_str(arg));
            }
        }
        output.push(FlagOptionArg { key: arg, values: value_args, param: Some(param.data.name.as_str()) });
        proof {
            assert(level_view(output@) =~= level_view(old(output)@).push(got.occurrence));
        }
    }
}

/// The classification of one argument vector against a command tree.
pub struct Matcher<'a, 'b> {
    pub(crate) cmds: Vec<CmdEntry<'a, 'b>>,
    pub(crate) args: &'b [String],
    pub(crate) flag_option_args: Vec<Vec<FlagOptionArg<'a, 'b>>>,
    pub(crate) positional_args: Vec<&'b str>,
    pub(crate) dashes: Vec<usize>,
    pub(crate) arg_comp: ArgComp,
    pub(crate) choice_fns: Vec<&'a str>,
    pub(crate) script_path: Option<String>,
    pub(crate) term_width: Option<usize>,
    pub(crate) is_last_arg_option_assign: bool,
}

/// The state of a pass that holds the given parts; `current` holds the
/// occurrences of the innermost level and `outer` those of the levels above.
pub open spec fn scan_of(
    cmds: Seq<CmdEntry>,
    outer: Seq<Vec<FlagOptionArg>>,
    current: Seq<FlagOptionArg>,
    positional_args: Seq<&str>,
    dashes: Seq<usize>,
    arg_comp: ArgComp,
    choice_fns: Seq<&str>,
    last_assign: bool,
    rest: bool,
) -> Scan {
    Scan {
        session: Session {
            path: path_view(cmds),
            occurrences: levels_view(outer).push(level_view(current)),
            positionals: tokens(positional_args),
            dashes: dashes_view(dashes),
            comp: arg_comp@,
            choice_fns: tokens(choice_fns),
            last_assign,
        },
        rest,
    }
}

/// Whether `word` asks for help or for the version wherever it stands.
pub fn is_known_option(word: &str) -> (yes: bool)
    ensures
        yes == known_option(word@),
{
    str_eq(word, "-h") || str_eq(word, "-help") || str_eq(word, "--help") || str_eq(word, "-V")
        || str_eq(word, "-version") || str_eq(word, "--version")
}

/// Adds the routine against which the values of `data` are to be checked,
/// unless `choice_fns` holds it already.
pub fn note_choice_fn<'a>(choice_fns: &mut Vec<&'a str>, data: &'a ParamData)
    requires
        tokens(old(choice_fns)@).no_duplicates(),
    ensures
        tokens(final(choice_fns)@) == noted_choice_fn(tokens(old(choice_fns)@), *data),
        tokens(final(choice_fns)@).no_duplicates(),
{
    if let Some((name, validate)) = data.choice_fn() {
        if validate {
            let mut i: usize = 0;
            while i < choice_fns.len()
                invariant
                    choice_fns@ == old(choice_fns)@,
                    tokens(old(choice_fns)@).no_duplicates(),
                    data.checked_choice_fn() == Some(name@),
                    i <= choice_fns@.len(),
                    forall|j: int| 0 <= j < i ==> tokens(choice_fns@)[j] != name@,
                decreases choice_fns@.len() - i,
            {
                if str_eq(choice_fns[i], name.as_str()) {
                    assert(tokens(choice_fns@)[i as int] == name@);
                    return ;
                }
                i += 1;
            }
            choice_fns.push(name.as_str());
            proof {
                assert(tokens(choice_fns@) =~= tokens(old(choice_fns)@).push(name@));
            }
        }
    }
}

impl<'a, 'b> Matcher<'a, 'b> {
    #[verifier::type_invariant]
    pub open(crate) spec fn inv(&self) -> bool {
        &&& self.args@.len() > 0
        &&& self.cmds@.len() > 0
        &&& self.flag_option_args@.len() == self.cmds@.len()
        &&& forall|i: int|
            0 <= i < self.dashes@.len() ==> #[trigger] self.dashes@[i]
                <= self.positional_args@.len()
        &&& forall|i: int, j: int|
            0 <= i <= j < self.dashes@.len() ==> self.dashes@[i] <= self.dashes@[j]
        &&& forall|i: int|
            0 <= i < self.cmds@.len() ==> (#[trigger] self.cmds@[i]).index < self.args@.len()
        &&& tokens(self.choice_fns@).no_duplicates()
    }

    /// What classification made of the argument vector.
    pub open(crate) spec fn session(&self) -> Session {
        Session {
            path: path_view(self.cmds@),
            occurrences: levels_view(self.flag_option_args@),
            positionals: tokens(self.positional_args@),
            dashes: dashes_view(self.dashes@),
            comp: self.arg_comp@,
            choice_fns: tokens(self.choice_fns@),
            last_assign: self.is_last_arg_option_assign,
        }
    }

    /// The argument vector.
    pub open(crate) spec fn spec_args(&self) -> Seq<Seq<char>> {
        texts(self.args@)
    }

    /// The script whose routines list dynamic choices, if one is set.
    pub open(crate) spec fn spec_script_path(&self) -> Option<Seq<char>> {
        match self.script_path {
            Some(path) => Some(path@),
            None => None,
        }
    }

    /// The width to which help is laid out, if one is set.
    pub open(crate) spec fn spec_term_width(&self) -> Option<usize> {
        self.term_width
    }

    /// Classifies `args`, whose first token names the program, against the
    /// tree rooted at `root`.
    pub fn new(root: &'a Command, args: &'b [String]) -> (m: Self)
        requires
            args@.len() > 0,
        ensures
            m.session() == classify(*root, texts(args@)),
            shaped(m.session(), *root, texts(args@)),
            m.spec_args() == texts(args@),
            m.spec_script_path() is None,
            m.spec_term_width() is None,
    {
        let ghost words = texts(args@);
        let args_len: usize = args.len();
        let mut cmds: Vec<CmdEntry<'a, 'b>> = Vec::new();
        cmds.push(CmdEntry { token: args[0].as_str(), cmd: root, name: args[0].clone(), index: 0 });
        let mut arg_index: usize = 1;
        let mut outer: Vec<Vec<FlagOptionArg<'a, 'b>>> = Vec::new();
        let mut current: Vec<FlagOptionArg<'a, 'b>> = Vec::new();
        let mut positional_args: Vec<&'b str> = Vec::new();
        let mut dashes: Vec<usize> = Vec::new();
        let mut is_last_arg_option_assign = false;
        let mut arg_comp = ArgComp::Any;
        let mut choice_fns: Vec<&'a str> = Vec::new();
        proof {
            assert(path_view(cmds@) =~= start(*root, words).path);
            assert(level_view(current@) =~= Seq::<Occurrence>::empty());
            assert(levels_view(outer@).push(level_view(current@)) =~= start(
                *root,
                words,
            ).occurrences);
            assert(tokens(positional_args@) =~= start(*root, words).positionals);
            assert(dashes_view(dashes@) =~= start(*root, words).dashes);
            assert(tokens(choice_fns@) =~= start(*root, words).choice_fns);
        }
        if root.delegated() {
            while arg_index < args_len
                invariant
                    words == texts(args@),
                    args_len == args@.len(),
                    1 <= arg_index <= args_len,
                    positional_args@.len() == arg_index - 1,
                    forall|j: int|
                        0 <= j < positional_args@.len() ==> positional_args@[j]@ == words[j + 1],
                decreases args_len - arg_index,
            {
                positional_args.push(args[arg_index].as_str());
                arg_index += 1;
            }
            proof {
                assert(tokens(positional_args@) =~= words.subrange(1, words.len() as int));
            }
        } else {
            let mut is_rest_args_positional = false;
            let last: &'b str = args[args_len - 1].as_str();
            if starts_with_dash(last) {
                arg_comp = ArgComp::FlagOrOption;
            } else if !last.is_empty() {
                arg_comp = ArgComp::CommandOrPositional;
            }
            let ghost goal = scan(
                words,
                1,
                Scan {
                    session: Session { comp: initial_guess(words.last()), ..start(*root, words) },
                    rest: false,
                },
            );
            while arg_index < args_len
                invariant
                    words == texts(args@),
                    args_len == args@.len(),
                    1 <= arg_index <= args_len,
                    cmds@.len() > 0,
                    cmds@[0]@ == start(*root, words).path[0],
                    forall|i: int|
                        1 <= i < cmds@.len() ==> cmds@[i - 1].cmd.subcommands@.contains(
                            *(#[trigger] cmds@[i]).cmd,
                        ) && 0 < cmds@[i].index,
                    outer@.len() + 1 == cmds@.len(),
                    forall|i: int|
                        0 <= i < dashes@.len() ==> #[trigger] dashes@[i] <= positional_args@.len(),
                    forall|i: int, j: int| 0 <= i <= j < dashes@.len() ==> dashes@[i] <= dashes@[j],
                    forall|i: int| 0 <= i < cmds@.len() ==> (#[trigger] cmds@[i]).index < args_len,
                    tokens(choice_fns@).no_duplicates(),
                    scan(
                        words,
                        arg_index as int,
                        scan_of(
                            cmds@,
                            outer@,
                            current@,
                            positional_args@,
                            dashes@,
                            arg_comp,
                            choice_fns@,
                            is_last_arg_option_assign,
                            is_rest_args_positional,
                        ),
                    ) == goal,
                decreases args_len - arg_index,
            {
                let ghost before = scan_of(
                    cmds@,
                    outer@,
                    current@,
                    positional_args@,
                    dashes@,
                    arg_comp,
                    choice_fns@,
                    is_last_arg_option_assign,
                    is_rest_args_positional,
                );
                let ghost at = arg_index as int;
                let ghost wanted = step(words, at, before);
                let cmd: &'a Command = cmds[cmds.len() - 1].cmd;
                let arg: &'b str = args[arg_index].as_str();
                proof {
                    assert(before.session.path.last().cmd == *cmd);
                    assert(words[at] == arg@);
                }
                if str_eq(arg, "--") {
                    dashes.push(positional_args.len());
                    proof {
                        assert(dashes_view(dashes@) =~= before.session.dashes.push(
                            before.session.positionals.len(),
                        ));
                    }
                    if is_rest_args_positional {
                        add_positional_arg(
                            &mut positional_args,
                            arg,
                            &mut is_rest_args_positional,
                            cmd,
                        );
                    }
                } else if is_rest_args_positional || dashes.len() > 0 || (
                cmd.no_flags_options_subcommands() && !is_known_option(arg)) {
                    add_positional_arg(
                        &mut positional_args,
                        arg,
                        &mut is_rest_args_positional,
                        cmd,
                    );
                } else if starts_with_dash(arg) {
                    if let Some((k, v)) = split_assign(arg) {
                        let found = cmd.find_flag_option(k);
                        let mut name: Option<&'a str> = None;
                        if let Some(i) = found {
                            let param: &'a FlagOptionParam = &cmd.flag_option_params[i];
                            if arg_index == args_len - 1 {
                                arg_comp = ArgComp::OptionValue(param.data.name.clone(), 0);
                            }
                            note_choice_fn(&mut choice_fns, &param.data);
                            name = Some(param.data.name.as_str());
                        }
                        if arg_index == args_len - 1 {
                            is_last_arg_option_assign = true;
                        }
                        let mut values: Vec<&'b str> = Vec::new();
                        values.push(v);
                        proof {
                            assert(tokens(values@) =~= seq![v@]);
                        }
                        let ghost earlier = current@;
                        current.push(FlagOptionArg { key: k, values, param: name });
                        proof {
                            assert(level_view(current@) =~= level_view(earlier) + seq![
                                current@.last()@,
                            ]);
                        }
                    } else if let Some(i) = cmd.find_flag_option(arg) {
                        let param: &'a FlagOptionParam = &cmd.flag_option_params[i];
                        note_choice_fn(&mut choice_fns, &param.data);
                        let ghost earlier = current@;
                        match_flag_option(&mut current, args, &mut arg_index, param, &mut arg_comp);
                        proof {
                            let got = capture(words, at, *param, before.session.comp);
                            assert(level_view(current@) =~= level_view(earlier) + Seq::<
                                Occurrence,
                            >::empty().push(got.occurrence));
                        }
                    } else if let Some(mut list) = match_combine_shorts(cmd, arg) {
                        let n: usize = arg.unicode_len();
                        let letter = arg.get_char(n - 1);
                        proof {
                            assert(short_of(*cmd, arg@[n - 1]) is Some);
                            assert(arg@.last() == arg@[n - 1]);
                        }
                        if let Some(i) = cmd.find_short(letter) {
                            let param: &'a FlagOptionParam = &cmd.flag_option_params[i];
                            note_choice_fn(&mut choice_fns, &param.data);
                            let ghost earlier = current@;
                            list.pop();
                            proof {
                                assert(level_view(list@) =~= combined(*cmd, arg@).drop_last());
                            }
                            current.append(&mut list);
                            proof {
                                assert(level_view(current@) =~= level_view(earlier) + combined(
                                    *cmd,
                                    arg@,
                                ).drop_last());
                            }
                            match_flag_option(
                                &mut current,
                                args,
                                &mut arg_index,
                                param,
                                &mut arg_comp,
                            );
                            proof {
                                let got = capture(words, at, *param, before.session.comp);
                                assert(level_view(current@) =~= level_view(earlier) + combined(
                                    *cmd,
                                    arg@,
                                ).drop_last().push(got.occurrence));
                            }
                        }
                    } else {
                        let values: Vec<&'b str> = Vec::new();
                        proof {
                            assert(tokens(values@) =~= Seq::<Seq<char>>::empty());
                        }
                        let ghost earlier = current@;
                        current.push(FlagOptionArg { key: arg, values, param: None });
                        proof {
                            assert(level_view(current@) =~= level_view(earlier) + seq![
                                current@.last()@,
                            ]);
                        }
                    }
                } else if let Some(k) = cmd.find_subcommand(arg) {
                    let subcmd: &'a Command = &cmd.subcommands[k];
                    let ghost path = cmds@;
                    let ghost above = outer@;
                    cmds.push(
                        CmdEntry {
                            token: arg,
                            cmd: subcmd,
                            name: subcmd.display_name(arg),
                            index: arg_index,
                        },
                    );
                    outer.push(current);
                    current = Vec::new();
                    proof {
                        assert(level_view(current@) =~= Seq::<Occurrence>::empty());
                        assert(path_view(cmds@) =~= path_view(path).push(cmds@.last()@));
                        assert(levels_view(outer@).push(level_view(current@)) =~= levels_view(
                            above,
                        ).push(level_view(outer@.last()@)).push(Seq::empty()));
                    }
                } else {
                    add_positional_arg(
                        &mut positional_args,
                        arg,
                        &mut is_rest_args_positional,
                        cmd,
                    );
                }
                proof {
                    let after = scan_of(
                        cmds@,
                        outer@,
                        current@,
                        positional_args@,
                        dashes@,
                        arg_comp,
                        choice_fns@,
                        is_last_arg_option_assign,
                        is_rest_args_positional,
                    );
                    assert(after.session.occurrences =~= wanted.state.session.occurrences);
                    assert(after == wanted.state);
                    assert(arg_index + 1 == at + 1 + wanted.taken);
                }
                arg_index += 1;
            }
            if is_rest_args_positional {
                arg_comp = ArgComp::CommandOrPositional;
            }
            let last_cmd: &'a Command = cmds[cmds.len() - 1].cmd;
            let ghost noted = tokens(choice_fns@);
            let mut i: usize = 0;
            while i < last_cmd.positional_params.len()
                invariant
                    i <= last_cmd.positional_params@.len(),
                    tokens(choice_fns@).no_duplicates(),
                    tokens(choice_fns@) == noted_positional_fns(
                        noted,
                        last_cmd.positional_params@,
                        i as int,
                    ),
                decreases last_cmd.positional_params@.len() - i,
            {
                note_choice_fn(&mut choice_fns, &last_cmd.positional_params[i].data);
                i += 1;
            }
        }
        let ghost above = outer@;
        outer.push(current);
        proof {
            assert(levels_view(outer@) =~= levels_view(above).push(level_view(outer@.last()@)));
            assert(cmds@[0]@ == start(*root, words).path[0]);
            assert forall|i: int| 1 <= i < path_view(cmds@).len() implies path_view(
                cmds@,
            )[i - 1].cmd.subcommands@.contains((#[trigger] path_view(cmds@)[i]).cmd) && 0
                < path_view(cmds@)[i].index < words.len() by {
                assert(cmds@[i - 1].cmd.subcommands@.contains(*cmds@[i].cmd));
                assert(cmds@[i].index < args_len);
            }
            assert forall|i: int| 0 <= i < dashes_view(dashes@).len() implies (
            #[trigger] dashes_view(dashes@)[i]) <= tokens(positional_args@).len() by {
                assert(dashes@[i] <= positional_args@.len());
            }
        }
        Matcher {
            cmds,
            args,
            flag_option_args: outer,
            positional_args,
            dashes,
            arg_comp,
            choice_fns,
            script_path: None,
            term_width: None,
            is_last_arg_option_assign,
        }
    }

    /// Names the script whose routines list dynamic choices.
    pub fn set_script_path(&mut self, script_path: &str)
        ensures
            final(self).spec_script_path() == Some(script_path@),
            final(self).spec_term_width() == old(self).spec_term_width(),
            final(self).session() == old(self).session(),
            final(self).spec_args() == old(self).spec_args(),
    {
        proof {
            use_type_invariant(&*self);
        }
        self.script_path = Some(String::from_str(script_path));
    }

    /// Records the width of the terminal for whoever lays out help. The
    /// matcher itself never reads it: the help, usage and version texts are
    /// stored with each command, laid out already.
    pub fn set_term_width(&mut self, term_width: usize)
        ensures
            final(self).spec_term_width() == Some(term_width),
            final(self).spec_script_path() == old(self).spec_script_path(),
            final(self).session() == old(self).session(),
            final(self).spec_args() == old(self).spec_args(),
    {
        proof {
            use_type_invariant(&*self);
        }
        self.term_width = Some(term_width);
    }

    /// Whether the last token has the form `key=value`.
    pub fn is_last_arg_option_assign(&self) -> (yes: bool)
        ensures
            yes == self.session().last_assign,
    {
        self.is_last_arg_option_assign
    }

    /// The guess at what could come next.
    pub fn arg_comp(&self) -> (guess: &ArgComp)
        ensures
            guess@ == self.session().comp,
    {
        &self.arg_comp
    }

    /// The argument vector.
    pub fn args(&self) -> (args: &'b [String])
        ensures
            texts(args@) == self.spec_args(),
    {
        self.args
    }

    /// The number of levels of the command path.
    pub fn levels(&self) -> (count: usize)
        ensures
            count == self.session().path.len(),
            count > 0,
    {
        proof {
            use_type_invariant(self);
        }
        self.cmds.len()
    }

    /// The level of the command path at `level`.
    pub fn cmd_entry(&self, level: usize) -> (entry: Option<&CmdEntry<'a, 'b>>)
        ensures
            entry is Some == (level < self.session().path.len()),
            entry matches Some(e) ==> e@ == self.session().path[level as int] && e.index
                < self.spec_args().len(),
    {
        proof {
            use_type_invariant(self);
        }
        if level < self.cmds.len() {
            Some(&self.cmds[level])
        } else {
            None
        }
    }

    /// The occurrences of flags and options, per level of the command path.
    pub fn flag_option_args(&self) -> (levels: &Vec<Vec<FlagOptionArg<'a, 'b>>>)
        ensures
            levels_view(levels@) == self.session().occurrences,
            levels@.len() == self.session().path.len(),
    {
        proof {
            use_type_invariant(self);
        }
        &self.flag_option_args
    }

    /// The positional tokens, in input order.
    pub fn positional_args(&self) -> (list: &Vec<&'b str>)
        ensures
            tokens(list@) == self.session().positionals,
    {
        &self.positional_args
    }

    /// For each `--`, the number of positional tokens that preceded it.
    pub fn dashes(&self) -> (list: &Vec<usize>)
        ensures
            dashes_view(list@) == self.session().dashes,
            forall|i: int|
                0 <= i < list@.len() ==> #[trigger] list@[i] <= self.session().positionals.len(),
            forall|i: int, j: int| 0 <= i <= j < list@.len() ==> list@[i] <= list@[j],
    {
        proof {
            use_type_invariant(self);
        }
        &self.dashes
    }

    /// The routines against whose output values are to be checked.
    pub fn choice_fns(&self) -> (list: &Vec<&'a str>)
        ensures
            tokens(list@) == self.session().choice_fns,
            tokens(list@).no_duplicates(),
    {
        proof {
            use_type_invariant(self);
        }
        &self.choice_fns
    }

    /// The script whose routines list dynamic choices, if one is set.
    pub fn script_path(&self) -> (path: Option<&String>)
        ensures
            path is Some == self.spec_script_path() is Some,
            path matches Some(p) ==> self.spec_script_path() == Some(p@),
    {
        self.script_path.as_ref()
    }

    /// The width to which help is laid out, if one is set.
    pub fn term_width(&self) -> (width: Option<usize>)
        ensures
            width == self.spec_term_width(),
    {
        self.term_width
    }
}

} // verus!
