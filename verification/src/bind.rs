//! The value binder: the ordered instructions that a classified argument
//! vector amounts to.

use vstd::prelude::*;
use vstd::string::*;
use crate::allocate::{allocation, groups_view};
use crate::command::Command;
use crate::matcher::{dashes_view, level_view, FlagOptionArg, Matcher};
use crate::param::{FlagOptionParam, PositionalParam};
use crate::render::{exit_of, message_of};
use crate::session::{Occurrence, Session};
use crate::text::{decimal, decimal_string, str_eq, texts, to_strings, tokens};
use crate::validate::{verdict, ChoiceEntry};

verus! {

/// One output instruction.
#[derive(Debug, PartialEq, Eq)]
pub enum ArgcValue {
    /// A name bound to one value.
    Single(String, String),
    /// A name bound to several values.
    Multiple(String, Vec<String>),
    /// The positional tokens of a command that declares no positional
    /// parameter.
    ExtraPositionalMultiple(Vec<String>),
    /// The handler of the command.
    CmdFn(String),
    /// A message and the exit code that goes with it.
    Error((String, i32)),
}

/// An instruction as plain text and numbers.
pub enum Instruction {
    Single(Seq<char>, Seq<char>),
    Multiple(Seq<char>, Seq<Seq<char>>),
    ExtraPositionalMultiple(Seq<Seq<char>>),
    CmdFn(Seq<char>),
    Error(Seq<char>, int),
}

impl View for ArgcValue {
    type V = Instruction;

    open spec fn view(&self) -> Instruction {
        match self {
            ArgcValue::Single(name, value) => Instruction::Single(name@, value@),
            ArgcValue::Multiple(name, values) => Instruction::Multiple(name@, texts(values@)),
            ArgcValue::ExtraPositionalMultiple(values) => Instruction::ExtraPositionalMultiple(
                texts(values@),
            ),
            ArgcValue::CmdFn(name) => Instruction::CmdFn(name@),
            ArgcValue::Error(shown) => Instruction::Error(shown.0@, shown.1 as int),
        }
    }
}

/// The instructions of a list.
pub open spec fn instructions(list: Seq<ArgcValue>) -> Seq<Instruction> {
    Seq::new(list.len(), |i: int| list[i]@)
}

/// The values of those among the first `upto` occurrences that bear `name`,
/// one list per occurrence.
pub open spec fn values_under(occurrences: Seq<Occurrence>, name: Seq<char>, upto: int) -> Seq<
    Seq<Seq<char>>,
>
    decreases upto,
{
    if upto <= 0 {
        Seq::empty()
    } else {
        let before = values_under(occurrences, name, upto - 1);
        if occurrences[upto - 1].param == Some(name) {
            before.push(occurrences[upto - 1].values)
        } else {
            before
        }
    }
}

/// The values of the first `upto` lists, in one list.
pub open spec fn flattened(lists: Seq<Seq<Seq<char>>>, upto: int) -> Seq<Seq<char>>
    decreases upto,
{
    if upto <= 0 {
        Seq::empty()
    } else {
        flattened(lists, upto - 1) + lists[upto - 1]
    }
}

/// What a flag or option binds, given the values of each of its
/// occurrences: nothing without an occurrence; `true` for a flag; every
/// value of every occurrence for a parameter that may be repeated; the
/// values of the first occurrence for one that takes several values; and
/// else the first value of the first occurrence.
pub open spec fn flag_option_binding(param: FlagOptionParam, lists: Seq<Seq<Seq<char>>>) -> Option<
    Instruction,
> {
    let name = param.data.name@;
    if lists.len() == 0 {
        None
    } else if param.arity() == 0 {
        Some(Instruction::Single(name, "true"@))
    } else if param.data.multiple {
        Some(Instruction::Multiple(name, flattened(lists, lists.len() as int)))
    } else if param.arity() > 1 {
        Some(Instruction::Multiple(name, lists[0]))
    } else if lists[0].len() > 0 {
        Some(Instruction::Single(name, lists[0][0]))
    } else {
        None
    }
}

/// What a positional parameter binds, given its group of tokens: nothing
/// without a token; the whole group where it takes several values; and
/// else the first token.
pub open spec fn positional_binding(param: PositionalParam, values: Seq<Seq<char>>) -> Option<
    Instruction,
> {
    let name = param.data.name@;
    if values.len() == 0 {
        None
    } else if param.data.multiple {
        Some(Instruction::Multiple(name, values))
    } else {
        Some(Instruction::Single(name, values[0]))
    }
}

/// `list` with `more`, if there is any.
pub open spec fn with_binding(list: Seq<Instruction>, more: Option<Instruction>) -> Seq<
    Instruction,
> {
    match more {
        Some(instruction) => list.push(instruction),
        None => list,
    }
}

/// What the first `upto` flags and options of `cmd` bind.
pub open spec fn level_bindings(cmd: Command, occurrences: Seq<Occurrence>, upto: int) -> Seq<
    Instruction,
>
    decreases upto,
{
    if upto <= 0 {
        Seq::empty()
    } else {
        let param = cmd.flag_option_params@[upto - 1];
        with_binding(
            level_bindings(cmd, occurrences, upto - 1),
            flag_option_binding(
                param,
                values_under(occurrences, param.data.name@, occurrences.len() as int),
            ),
        )
    }
}

/// What the flags and options of the first `upto` levels bind.
pub open spec fn levels_bindings(s: Session, upto: int) -> Seq<Instruction>
    decreases upto,
{
    if upto <= 0 {
        Seq::empty()
    } else {
        let cmd = s.path[upto - 1].cmd;
        levels_bindings(s, upto - 1) + level_bindings(
            cmd,
            s.occurrences[upto - 1],
            cmd.flag_option_params@.len() as int,
        )
    }
}

/// What the first `upto` positional parameters bind.
pub open spec fn positional_bindings(
    params: Seq<PositionalParam>,
    groups: Seq<Seq<Seq<char>>>,
    upto: int,
) -> Seq<Instruction>
    decreases upto,
{
    if upto <= 0 {
        Seq::empty()
    } else {
        with_binding(
            positional_bindings(params, groups, upto - 1),
            positional_binding(
                params[upto - 1],
                if upto - 1 < groups.len() {
                    groups[upto - 1]
                } else {
                    Seq::empty()
                },
            ),
        )
    }
}

/// The instructions that every binding starts with: what the flags and
/// options of every level bind, what the positional parameters of the
/// innermost command bind, the argument vector under `_args`, and under
/// `_index` the position of the token that selected the innermost command.
pub open spec fn base_bindings(s: Session, args: Seq<Seq<char>>) -> Seq<Instruction> {
    let cmd = s.path.last().cmd;
    let groups = allocation(cmd.positional_params@, s.positionals, s.dashes);
    levels_bindings(s, s.path.len() as int) + positional_bindings(
        cmd.positional_params@,
        groups,
        cmd.positional_params@.len() as int,
    ) + seq![
        Instruction::Multiple("_args"@, args),
        Instruction::Single("_index"@, decimal(s.path.last().index)),
    ]
}

/// The instructions for a classified argument vector: the message of the
/// verdict where validation fails; else the base instructions, the
/// positional tokens where the innermost command declares no positional
/// parameter, and the handler of the innermost command where it has one.
pub open spec fn bindings(s: Session, args: Seq<Seq<char>>, table: Seq<ChoiceEntry>) -> Seq<
    Instruction,
> {
    let cmd = s.path.last().cmd;
    match verdict(s, table) {
        Some(failure) => seq![Instruction::Error(message_of(s, failure), exit_of(failure))],
        None => {
            let extra = if cmd.positional_params@.len() == 0 && s.positionals.len() > 0 {
                Some(Instruction::ExtraPositionalMultiple(s.positionals))
            } else {
                None
            };
            let handler = match cmd.cmd_fn {
                Some(name) => Some(Instruction::CmdFn(name@)),
                None => None,
            };
            with_binding(with_binding(base_bindings(s, args), extra), handler)
        },
    }
}

/// The separator positions as numerals.
pub open spec fn dash_numerals(dashes: Seq<nat>) -> Seq<Seq<char>> {
    Seq::new(dashes.len(), |i: int| decimal(dashes[i]))
}

/// The instructions for the routines that list choices: the base
/// instructions, and the separator positions under `_dashes` where a
/// separator was met.
pub open spec fn choice_fn_bindings(s: Session, args: Seq<Seq<char>>) -> Seq<Instruction> {
    if s.dashes.len() > 0 {
        base_bindings(s, args).push(Instruction::Multiple("_dashes"@, dash_numerals(s.dashes)))
    } else {
        base_bindings(s, args)
    }
}

impl FlagOptionParam {
    /// What the parameter binds, given its occurrences among `args`.
    pub fn get_arg_value(&self, args: &Vec<FlagOptionArg>) -> (bound: Option<ArgcValue>)
        ensures
            (match bound {
                Some(value) => Some(value@),
                None => None,
            }) == flag_option_binding(
                *self,
                values_under(level_view(args@), self.data.name@, args@.len() as int),
            ),
    {
        let ghost occurrences = level_view(args@);
        let ghost name = self.data.name@;
        let ghost lists = values_under(occurrences, name, args@.len() as int);
        let mut count: usize = 0;
        let mut first: Option<usize> = None;
        let mut all: Vec<String> = Vec::new();
        let mut i: usize = 0;
        while i < args.len()
            invariant
                occurrences == level_view(args@),
                name == self.data.name@,
                i <= args@.len(),
                count == values_under(occurrences, name, i as int).len(),
                count <= i,
                first is None <==> count == 0,
                first matches Some(k) ==> k < i && occurrences[k as int].values == values_under(
                    occurrences,
                    name,
                    i as int,
                )[0],
                texts(all@) == flattened(
                    values_under(occurrences, name, i as int),
                    count as int,
                ),
            decreases args@.len() - i,
        {
            let arg = &args[i];
            proof {
                assert(occurrences[i as int] == arg@);
            }
            let ghost before = values_under(occurrences, name, i as int);
            let mut bears = false;
            if let Some(param) = arg.param {
                if str_eq(param, self.data.name.as_str()) {
                    bears = true;
                }
            }
            if bears {
                if first.is_none() {
                    first = Some(i);
                }
                let ghost sofar = texts(all@);
                let mut values = to_strings(&arg.values);
                let ghost added = texts(values@);
                all.append(&mut values);
                proof {
                    let after = values_under(occurrences, name, i + 1);
                    assert(after == before.push(arg@.values));
                    assert(texts(all@) =~= sofar + added);
                    lemma_flattened_prefix(after, before, count as int);
                }
                count += 1;
            } else {
                proof {
                    assert(values_under(occurrences, name, i + 1) == before);
                }
            }
            i += 1;
        }
        let id = self.data.name.clone();
        if count == 0 {
            None
        } else if self.is_flag() {
            Some(ArgcValue::Single(id, String::from_str("true")))
        } else if self.multiple() {
            Some(ArgcValue::Multiple(id, all))
        } else {
            match first {
                Some(k) => {
                    let values = &args[k].values;
                    proof {
                        assert(occurrences[k as int] == args@[k as int]@);
                    }
                    if self.values_size() > 1 {
                        Some(ArgcValue::Multiple(id, to_strings(values)))
                    } else if values.len() > 0 {
                        Some(ArgcValue::Single(id, String::from_str(values[0])))
                    } else {
                        None
                    }
                },
                None => None,
            }
        }
    }
}

/// Flattening as many lists as a prefix holds gives the same for the
/// prefix and for the whole.
proof fn lemma_flattened_prefix(
    whole: Seq<Seq<Seq<char>>>,
    prefix: Seq<Seq<Seq<char>>>,
    upto: int,
)
    requires
        0 <= upto <= prefix.len() <= whole.len(),
        forall|i: int| 0 <= i < prefix.len() ==> prefix[i] == whole[i],
    ensures
        flattened(whole, upto) == flattened(prefix, upto),
    decreases upto,
{
    if upto > 0 {
        lemma_flattened_prefix(whole, prefix, upto - 1);
    }
}

impl PositionalParam {
    /// What the parameter binds, given its group of tokens.
    pub fn get_arg_value(&self, values: &Vec<&str>) -> (bound: Option<ArgcValue>)
        ensures
            (match bound {
                Some(value) => Some(value@),
                None => None,
            }) == positional_binding(*self, tokens(values@)),
    {
        let id = self.data.name.clone();
        if values.len() == 0 {
            None
        } else if self.multiple() {
            Some(ArgcValue::Multiple(id, to_strings(values)))
        } else {
            Some(ArgcValue::Single(id, String::from_str(values[0])))
        }
    }
}

impl<'a, 'b> Matcher<'a, 'b> {
    /// The instructions that every binding starts with.
    pub fn to_arg_values_base(&self) -> (output: Vec<ArgcValue>)
        ensures
            instructions(output@) == base_bindings(self.session(), self.spec_args()),
    {
        proof {
            use_type_invariant(self);
        }
        let ghost s = self.session();
        let mut output: Vec<ArgcValue> = Vec::new();
        let cmds_len: usize = self.cmds.len();
        let last_cmd = self.cmds[cmds_len - 1].cmd;
        let args_index: usize = self.cmds[cmds_len - 1].index;
        proof {
            assert(instructions(output@) =~= levels_bindings(s, 0));
        }
        let mut level: usize = 0;
        while level < cmds_len
            invariant
                s == self.session(),
                cmds_len == self.cmds@.len(),
                self.flag_option_args@.len() == cmds_len,
                level <= cmds_len,
                instructions(output@) == levels_bindings(s, level as int),
            decreases cmds_len - level,
        {
            let args = &self.flag_option_args[level];
            let cmd = self.cmds[level].cmd;
            let ghost above = instructions(output@);
            proof {
                assert(s.path[level as int].cmd == *cmd);
                assert(s.occurrences[level as int] == level_view(args@));
                assert(instructions(output@) =~= above + level_bindings(
                    *cmd,
                    level_view(args@),
                    0,
                ));
            }
            let mut p: usize = 0;
            while p < cmd.flag_option_params.len()
                invariant
                    p <= cmd.flag_option_params@.len(),
                    instructions(output@) == above + level_bindings(
                        *cmd,
                        level_view(args@),
                        p as int,
                    ),
                decreases cmd.flag_option_params@.len() - p,
            {
                let param = &cmd.flag_option_params[p];
                let ghost sofar = instructions(output@);
                if let Some(value) = param.get_arg_value(args) {
                    output.push(value);
                    proof {
                        assert(instructions(output@) =~= sofar.push(output@.last()@));
                    }
                }
                proof {
                    assert(instructions(output@) =~= above + level_bindings(
                        *cmd,
                        level_view(args@),
                        p + 1,
                    ));
                }
                p += 1;
            }
            level += 1;
        }
        let positional_values = self.match_positionals();
        let ghost groups = groups_view(positional_values@);
        let ghost flags = instructions(output@);
        let ghost params = last_cmd.positional_params@;
        proof {
            assert(s.path.last().cmd == *last_cmd);
            assert(instructions(output@) =~= flags + positional_bindings(params, groups, 0));
        }
        let empty: Vec<&'b str> = Vec::new();
        proof {
            assert(tokens(empty@) =~= Seq::<Seq<char>>::empty());
        }
        let mut i: usize = 0;
        while i < last_cmd.positional_params.len()
            invariant
                params == last_cmd.positional_params@,
                groups == groups_view(positional_values@),
                tokens(empty@) == Seq::<Seq<char>>::empty(),
                i <= params.len(),
                instructions(output@) == flags + positional_bindings(params, groups, i as int),
            decreases params.len() - i,
        {
            let param = &last_cmd.positional_params[i];
            let values: &Vec<&'b str> = if i < positional_values.len() {
                &positional_values[i]
            } else {
                &empty
            };
            let ghost sofar = instructions(output@);
            if let Some(value) = param.get_arg_value(values) {
                output.push(value);
                proof {
                    assert(instructions(output@) =~= sofar.push(output@.last()@));
                }
            }
            proof {
                assert(instructions(output@) =~= flags + positional_bindings(
                    params,
                    groups,
                    i + 1,
                ));
            }
            i += 1;
        }
        let ghost bound = instructions(output@);
        let mut all_args: Vec<String> = Vec::new();
        let mut k: usize = 0;
        while k < self.args.len()
            invariant
                k <= self.args@.len(),
                all_args@.len() == k,
                forall|j: int| 0 <= j < k ==> all_args@[j]@ == self.args@[j]@,
            decreases self.args@.len() - k,
        {
            all_args.push(self.args[k].clone());
            k += 1;
        }
        proof {
            assert(texts(all_args@) =~= texts(self.args@));
        }
        output.push(ArgcValue::Multiple(String::from_str("_args"), all_args));
        output.push(ArgcValue::Single(String::from_str("_index"), decimal_string(args_index)));
        proof {
            assert(instructions(output@) =~= bound + seq![
                Instruction::Multiple("_args"@, self.spec_args()),
                Instruction::Single("_index"@, decimal(s.path.last().index)),
            ]);
        }
        output
    }

    /// The instructions for the classified argument vector, given what the
    /// routines listed that were run: the message of the verdict where
    /// validation fails, and the bound values where it does not.
    pub fn to_arg_values(&self, choices_fn_values: &Vec<ChoiceEntry>) -> (output: Vec<ArgcValue>)
        ensures
            instructions(output@) == bindings(
                self.session(),
                self.spec_args(),
                choices_fn_values@,
            ),
    {
        proof {
            use_type_invariant(self);
        }
        if let Some(err) = self.validate(choices_fn_values) {
            let mut output: Vec<ArgcValue> = Vec::new();
            output.push(ArgcValue::Error(self.stringify_match_error(&err)));
            proof {
                assert(instructions(output@) =~= seq![output@[0]@]);
            }
            return output;
        }
        let cmd = self.cmds[self.cmds.len() - 1].cmd;
        proof {
            assert(self.session().path.last().cmd == *cmd);
        }
        let mut output = self.to_arg_values_base();
        if cmd.positional_params.len() == 0 && self.positional_args.len() > 0 {
            let ghost sofar = instructions(output@);
            output.push(ArgcValue::ExtraPositionalMultiple(to_strings(&self.positional_args)));
            proof {
                assert(instructions(output@) =~= sofar.push(output@.last()@));
            }
        }
        if let Some(cmd_fn) = cmd.get_cmd_fn() {
            let ghost sofar = instructions(output@);
            output.push(ArgcValue::CmdFn(cmd_fn));
            proof {
                assert(instructions(output@) =~= sofar.push(output@.last()@));
            }
        }
        output
    }

    /// The instructions for the routines that list choices; nothing is
    /// validated.
    pub fn to_arg_values_for_choice_fn(&self) -> (output: Vec<ArgcValue>)
        ensures
            instructions(output@) == choice_fn_bindings(self.session(), self.spec_args()),
    {
        let mut output = self.to_arg_values_base();
        if self.dashes.len() > 0 {
            let mut numerals: Vec<String> = Vec::new();
            let mut i: usize = 0;
            while i < self.dashes.len()
                invariant
                    i <= self.dashes@.len(),
                    numerals@.len() == i,
                    forall|j: int|
                        0 <= j < i ==> numerals@[j]@ == decimal(self.dashes@[j] as nat),
                decreases self.dashes@.len() - i,
            {
                numerals.push(decimal_string(self.dashes[i]));
                i += 1;
            }
            proof {
                assert(texts(numerals@) =~= dash_numerals(dashes_view(self.dashes@)));
            }
            let ghost sofar = instructions(output@);
            output.push(ArgcValue::Multiple(String::from_str("_dashes"), numerals));
            proof {
                assert(instructions(output@) =~= sofar.push(output@.last()@));
            }
        }
        output
    }
}

} // verus!
