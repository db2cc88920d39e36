//! Validation: the first failure, in a fixed order of precedence, that the
//! classified arguments show against what the commands declare.

use vstd::prelude::*;
use vstd::string::*;
use crate::allocate::{allocation, groups_view};
use crate::command::{first_hit, Command};
use crate::matcher::{level_view, FlagOptionArg, Matcher};
use crate::param::ChoiceData;
use crate::required::missing_from;
use crate::session::{Occurrence, Session};
use crate::text::{lemma_first_index_unique, str_eq, texts, tokens};
use crate::values::{check_positional_choices, levels_violation, positional_violation};

verus! {

/// Why an argument vector is not bound: a request for help or for the
/// version, or a failure. The number that some variants carry is the level
/// of the command path at which the failure was found.
#[derive(Debug, PartialEq, Eq)]
pub enum MatchError {
    DisplayHelp,
    DisplaySubcommandHelp(String),
    DisplayVersion,
    InvalidSubcommand,
    /// The level and the argument.
    UnknownArgument(usize, String),
    /// The level and the parameters that are missing, as they are shown.
    MissingRequiredArgument(usize, Vec<String>),
    /// The level and the parameter.
    NotMultipleArgument(usize, String),
    /// The level, the value, the parameter and the accepted values.
    InvalidValue(usize, String, String, Vec<String>),
    /// The level and the parameter with its value names.
    MismatchValues(usize, String),
    /// The level, the parameter and the value that it does not take.
    NoMoreValue(usize, String, String),
}

/// A `MatchError` as plain text and numbers.
pub enum Failure {
    DisplayHelp,
    DisplaySubcommandHelp(Seq<char>),
    DisplayVersion,
    InvalidSubcommand,
    UnknownArgument(nat, Seq<char>),
    MissingRequiredArgument(nat, Seq<Seq<char>>),
    NotMultipleArgument(nat, Seq<char>),
    InvalidValue(nat, Seq<char>, Seq<char>, Seq<Seq<char>>),
    MismatchValues(nat, Seq<char>),
    NoMoreValue(nat, Seq<char>, Seq<char>),
}

impl View for MatchError {
    type V = Failure;

    open spec fn view(&self) -> Failure {
        match self {
            MatchError::DisplayHelp => Failure::DisplayHelp,
            MatchError::DisplaySubcommandHelp(name) => Failure::DisplaySubcommandHelp(name@),
            MatchError::DisplayVersion => Failure::DisplayVersion,
            MatchError::InvalidSubcommand => Failure::InvalidSubcommand,
            MatchError::UnknownArgument(level, name) => Failure::UnknownArgument(
                *level as nat,
                name@,
            ),
            MatchError::MissingRequiredArgument(level, names) => Failure::MissingRequiredArgument(
                *level as nat,
                texts(names@),
            ),
            MatchError::NotMultipleArgument(level, name) => Failure::NotMultipleArgument(
                *level as nat,
                name@,
            ),
            MatchError::InvalidValue(level, value, name, choices) => Failure::InvalidValue(
                *level as nat,
                value@,
                name@,
                texts(choices@),
            ),
            MatchError::MismatchValues(level, name) => Failure::MismatchValues(
                *level as nat,
                name@,
            ),
            MatchError::NoMoreValue(level, name, value) => Failure::NoMoreValue(
                *level as nat,
                name@,
                value@,
            ),
        }
    }
}

/// The failure that `found` holds, if any.
pub open spec fn failure_of(found: Option<MatchError>) -> Option<Failure> {
    match found {
        Some(error) => Some(error@),
        None => None,
    }
}

/// The values that one routine listed when it was run. In a list of
/// entries the last one under a name answers for the routine.
pub struct ChoiceEntry {
    /// The name of the routine.
    pub name: String,
    /// The values it listed.
    pub values: Vec<String>,
}

/// The values that the routine `name` listed, going by the first `upto`
/// entries: where several of them bear the name, the last one answers, as
/// in a map that is filled entry by entry.
pub open spec fn listed_upto(table: Seq<ChoiceEntry>, name: Seq<char>, upto: int) -> Option<
    Seq<Seq<char>>,
>
    decreases upto,
{
    if upto <= 0 {
        None
    } else if table[upto - 1].name@ == name {
        Some(texts(table[upto - 1].values@))
    } else {
        listed_upto(table, name, upto - 1)
    }
}

/// The values that the routine `name` listed, if the table has them.
pub open spec fn listed(table: Seq<ChoiceEntry>, name: Seq<char>) -> Option<Seq<Seq<char>>> {
    listed_upto(table, name, table.len() as int)
}

/// The values that a parameter with the constraint `choice` accepts: the
/// fixed list, or what its routine listed where values are to be checked
/// against it and the table has its output; `None` where any value is
/// accepted.
pub open spec fn spec_param_choice(choice: Option<ChoiceData>, table: Seq<ChoiceEntry>) -> Option<
    Seq<Seq<char>>,
> {
    match choice {
        Some(ChoiceData::Values(list)) => Some(texts(list@)),
        Some(ChoiceData::Fn(name, validate)) => if validate {
            listed(table, name@)
        } else {
            None
        },
        None => None,
    }
}

/// The values that a parameter with the constraint `choice` accepts, given
/// what the routines listed.
pub fn get_param_choice<'c>(
    choice: &'c Option<ChoiceData>,
    choices_fn_values: &'c Vec<ChoiceEntry>,
) -> (found: Option<&'c Vec<String>>)
    ensures
        found is Some == spec_param_choice(*choice, choices_fn_values@) is Some,
        found matches Some(list) ==> spec_param_choice(*choice, choices_fn_values@) == Some(
            texts(list@),
        ),
{
    match choice {
        Some(ChoiceData::Values(list)) => Some(list),
        Some(ChoiceData::Fn(name, validate)) => {
            if *validate {
                let mut i: usize = choices_fn_values.len();
                while i > 0
                    invariant
                        i <= choices_fn_values@.len(),
                        spec_param_choice(*choice, choices_fn_values@) == listed_upto(
                            choices_fn_values@,
                            name@,
                            i as int,
                        ),
                    decreases i,
                {
                    i -= 1;
                    if str_eq(choices_fn_values[i].name.as_str(), name.as_str()) {
                        return Some(&choices_fn_values[i].values);
                    }
                }
                None
            } else {
                None
            }
        },
        None => None,
    }
}

/// What the occurrence `o` asks for at `cmd`, if it asks for help or for
/// the version.
pub open spec fn interception(cmd: Command, o: Occurrence) -> Option<Failure> {
    match o.param {
        Some(name) => if name == "help"@ {
            Some(Failure::DisplayHelp)
        } else if name == "version"@ {
            Some(Failure::DisplayVersion)
        } else {
            None
        },
        None => if o.key == "--help"@ || o.key == "-help"@ || (cmd.help_short_name && o.key
            == "-h"@) {
            Some(Failure::DisplayHelp)
        } else if o.key == "--version"@ || o.key == "-version"@ || (cmd.version_short_name
            && o.key == "-V"@) {
            Some(Failure::DisplayVersion)
        } else {
            None
        },
    }
}

/// For each occurrence, whether it asks for help or for the version.
pub open spec fn interception_hits(cmd: Command, occurrences: Seq<Occurrence>) -> Seq<bool> {
    Seq::new(occurrences.len(), |i: int| interception(cmd, occurrences[i]) is Some)
}

/// What the first occurrence that asks for help or for the version asks for.
pub open spec fn first_interception(cmd: Command, occurrences: Seq<Occurrence>) -> Option<
    Failure,
> {
    match first_hit(interception_hits(cmd, occurrences)) {
        Some(i) => interception(cmd, occurrences[i]),
        None => None,
    }
}

/// What the positional tokens ask for where the first of them is `help`:
/// help for the command itself, or for the subcommand that the second token
/// names.
pub open spec fn help_request(cmd: Command, positionals: Seq<Seq<char>>, level: nat) -> Option<
    Failure,
> {
    if positionals.len() > 0 && positionals[0] == "help"@ {
        if positionals.len() < 2 {
            Some(Failure::DisplayHelp)
        } else {
            match cmd.spec_find_subcommand(positionals[1]) {
                Some(k) => Some(
                    Failure::DisplaySubcommandHelp(
                        cmd.subcommands@[k].spec_display_name(positionals[1]),
                    ),
                ),
                None => Some(
                    Failure::InvalidValue(
                        level,
                        positionals[1],
                        "<command>"@,
                        cmd.spec_list_subcommand_names(),
                    ),
                ),
            }
        }
    } else {
        None
    }
}

/// The failure of a command that has subcommands where none was chosen and
/// the command cannot run by itself, or where it can but was given
/// positional tokens that it declares no parameter for.
pub open spec fn subcommand_required(
    cmd: Command,
    occurrences: Seq<Occurrence>,
    positionals: Seq<Seq<char>>,
) -> Option<Failure> {
    if cmd.subcommands@.len() == 0 {
        None
    } else if cmd.cmd_fn is None {
        if positionals.len() == 0 && occurrences.len() == 0 {
            Some(Failure::DisplayHelp)
        } else {
            Some(Failure::InvalidSubcommand)
        }
    } else if cmd.positional_params@.len() == 0 && positionals.len() > 0 {
        Some(Failure::InvalidSubcommand)
    } else {
        None
    }
}

/// The failure of tokens that are left when every positional parameter has
/// its group; it names the first of them.
pub open spec fn overflow(cmd: Command, groups: Seq<Seq<Seq<char>>>, level: nat) -> Option<
    Failure,
> {
    let count = cmd.positional_params@.len();
    if count > 0 && groups.len() > count && groups[count as int].len() > 0 {
        Some(Failure::UnknownArgument(level, groups[count as int][0]))
    } else {
        None
    }
}

/// The first occurrence that asks for help or for the version decides.
pub fn check_interception(cmd: &Command, args: &Vec<FlagOptionArg>) -> (found: Option<MatchError>)
    ensures
        failure_of(found) == first_interception(*cmd, level_view(args@)),
{
    let ghost occurrences = level_view(args@);
    let ghost hits = interception_hits(*cmd, occurrences);
    let mut i: usize = 0;
    while i < args.len()
        invariant
            i <= args@.len(),
            occurrences == level_view(args@),
            hits == interception_hits(*cmd, occurrences),
            forall|j: int| 0 <= j < i ==> hits[j] != true,
        decreases args@.len() - i,
    {
        let arg = &args[i];
        proof {
            assert(occurrences[i as int] == arg@);
        }
        let mut asked: Option<MatchError> = None;
        match arg.param {
            Some(name) => {
                if str_eq(name, "help") {
                    asked = Some(MatchError::DisplayHelp);
                } else if str_eq(name, "version") {
                    asked = Some(MatchError::DisplayVersion);
                }
            },
            None => {
                let key = arg.key;
                if str_eq(key, "--help") || str_eq(key, "-help") || (cmd.match_help_short_name()
                    && str_eq(key, "-h")) {
                    asked = Some(MatchError::DisplayHelp);
                } else if str_eq(key, "--version") || str_eq(key, "-version") || (
                cmd.match_version_short_name() && str_eq(key, "-V")) {
                    asked = Some(MatchError::DisplayVersion);
                }
            },
        }
        proof {
            assert(failure_of(asked) == interception(*cmd, occurrences[i as int]));
        }
        if asked.is_some() {
            proof {
                lemma_first_index_unique(hits, true, i as int);
            }
            return asked;
        }
        i += 1;
    }
    proof {
        lemma_first_index_unique(hits, true, i as int);
    }
    None
}

/// A first positional token `help` asks for help.
pub fn check_help_request(cmd: &Command, positional_args: &Vec<&str>, level: usize) -> (found:
    Option<MatchError>)
    ensures
        failure_of(found) == help_request(*cmd, tokens(positional_args@), level as nat),
{
    if positional_args.len() > 0 && str_eq(positional_args[0], "help") {
        if positional_args.len() < 2 {
            return Some(MatchError::DisplayHelp);
        }
        let name = positional_args[1];
        match cmd.find_subcommand(name) {
            Some(k) => Some(MatchError::DisplaySubcommandHelp(cmd.subcommands[k].display_name(name))),
            None => Some(
                MatchError::InvalidValue(
                    level,
                    String::from_str(name),
                    String::from_str("<command>"),
                    cmd.list_subcommand_names(),
                ),
            ),
        }
    } else {
        None
    }
}

/// A command with subcommands needs one, unless it can run by itself.
pub fn check_subcommand_required(
    cmd: &Command,
    args: &Vec<FlagOptionArg>,
    positional_args: &Vec<&str>,
) -> (found: Option<MatchError>)
    ensures
        failure_of(found) == subcommand_required(
            *cmd,
            level_view(args@),
            tokens(positional_args@),
        ),
{
    if cmd.subcommands.len() > 0 {
        if !cmd.exist_main_fn() {
            if positional_args.len() == 0 && args.len() == 0 {
                return Some(MatchError::DisplayHelp);
            } else {
                return Some(MatchError::InvalidSubcommand);
            }
        } else if cmd.positional_params.len() == 0 && positional_args.len() > 0 {
            return Some(MatchError::InvalidSubcommand);
        }
    }
    None
}

/// Tokens beyond the last positional parameter are not expected.
pub fn check_overflow(cmd: &Command, positional_values: &Vec<Vec<&str>>, level: usize) -> (found:
    Option<MatchError>)
    ensures
        failure_of(found) == overflow(*cmd, groups_view(positional_values@), level as nat),
{
    let count: usize = cmd.positional_params.len();
    if count > 0 && positional_values.len() > count && positional_values[count].len() > 0 {
        let extra = &positional_values[count];
        Some(MatchError::UnknownArgument(level, String::from_str(extra[0])))
    } else {
        None
    }
}

/// The verdict on a classified argument vector, given what the routines
/// listed: the first failure in this order, or `None` where nothing fails.
/// A request for help or for the version among the occurrences of the
/// innermost level; a first positional token `help`; a subcommand that is
/// needed; tokens that no positional parameter takes; required parameters
/// that are missing; a positional value that is not among the choices; and
/// the occurrences of flags and options, from the innermost level outwards.
pub open spec fn verdict(s: Session, table: Seq<ChoiceEntry>) -> Option<Failure> {
    let level = (s.path.len() - 1) as nat;
    let cmd = s.path.last().cmd;
    let occurrences = s.occurrences[level as int];
    let groups = allocation(cmd.positional_params@, s.positionals, s.dashes);
    if first_interception(cmd, occurrences) is Some {
        first_interception(cmd, occurrences)
    } else if help_request(cmd, s.positionals, level) is Some {
        help_request(cmd, s.positionals, level)
    } else if subcommand_required(cmd, occurrences, s.positionals) is Some {
        subcommand_required(cmd, occurrences, s.positionals)
    } else if overflow(cmd, groups, level) is Some {
        overflow(cmd, groups, level)
    } else if missing_from(s, groups.len() as int, level as int) is Some {
        missing_from(s, groups.len() as int, level as int)
    } else if positional_violation(
        cmd.positional_params@,
        groups,
        table,
        level,
        cmd.positional_params@.len() as int,
    ) is Some {
        positional_violation(
            cmd.positional_params@,
            groups,
            table,
            level,
            cmd.positional_params@.len() as int,
        )
    } else {
        levels_violation(s, table, level as int)
    }
}

impl<'a, 'b> Matcher<'a, 'b> {
    /// Checks the classified arguments against what the commands declare.
    /// `choices_fn_values` holds what the routines listed that were run; a
    /// value whose routine is not among them passes unchecked.
    pub fn validate(&self, choices_fn_values: &Vec<ChoiceEntry>) -> (found: Option<MatchError>)
        ensures
            failure_of(found) == verdict(self.session(), choices_fn_values@),
    {
        proof {
            use_type_invariant(self);
        }
        let level: usize = self.cmds.len() - 1;
        let last_cmd = self.cmds[level].cmd;
        let last_args = &self.flag_option_args[level];
        proof {
            assert(self.session().path.last().cmd == *last_cmd);
            assert(self.session().occurrences[level as int] == level_view(last_args@));
        }
        let asked = check_interception(last_cmd, last_args);
        if asked.is_some() {
            return asked;
        }
        let asked = check_help_request(last_cmd, &self.positional_args, level);
        if asked.is_some() {
            return asked;
        }
        let needed = check_subcommand_required(last_cmd, last_args, &self.positional_args);
        if needed.is_some() {
            return needed;
        }
        let positional_values = self.match_positionals();
        let extra = check_overflow(last_cmd, &positional_values, level);
        if extra.is_some() {
            return extra;
        }
        let missing = self.check_missing(positional_values.len());
        if missing.is_some() {
            return missing;
        }
        let refused = check_positional_choices(
            last_cmd,
            &positional_values,
            choices_fn_values,
            level,
        );
        if refused.is_some() {
            return refused;
        }
        self.check_levels(choices_fn_values)
    }
}

} // verus!
