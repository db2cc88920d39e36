//! Required parameters that the arguments leave out.

use vstd::prelude::*;
use vstd::string::*;
use crate::command::Command;
use crate::matcher::{level_view, FlagOptionArg, Matcher};
use crate::ordered::{
    set_get_index, set_insert, set_items, set_len, set_new, set_swap_remove, swap_removed,
};
use crate::param::{FlagOptionParam, PositionalParam};
use crate::session::{Occurrence, Session};
use crate::text::{first_index_of, texts};
use crate::validate::{failure_of, Failure, MatchError};

verus! {

/// The required parameters among `params[from..upto]`, as they are shown.
pub open spec fn missing_positionals(params: Seq<PositionalParam>, from: int, upto: int) -> Seq<
    Seq<char>,
>
    decreases upto - from,
{
    if upto <= from {
        Seq::empty()
    } else {
        let before = missing_positionals(params, from, upto - 1);
        if params[upto - 1].data.required {
            before.push(params[upto - 1].spec_render_value())
        } else {
            before
        }
    }
}

/// The names of the required parameters among the first `upto`, each once,
/// in declaration order.
pub open spec fn required_names(params: Seq<FlagOptionParam>, upto: int) -> Seq<Seq<char>>
    decreases upto,
{
    if upto <= 0 {
        Seq::empty()
    } else {
        let before = required_names(params, upto - 1);
        let name = params[upto - 1].data.name@;
        if params[upto - 1].data.required && !before.contains(name) {
            before.push(name)
        } else {
            before
        }
    }
}

/// What is left of `names` when the parameter of each of the first `upto`
/// occurrences is struck out; the last name takes the place of one that is
/// struck out.
pub open spec fn still_missing(names: Seq<Seq<char>>, occurrences: Seq<Occurrence>, upto: int) -> Seq<
    Seq<char>,
>
    decreases upto,
{
    if upto <= 0 {
        names
    } else {
        let before = still_missing(names, occurrences, upto - 1);
        match occurrences[upto - 1].param {
            Some(name) => if before.contains(name) {
                swap_removed(before, first_index_of(before, name))
            } else {
                before
            },
            None => before,
        }
    }
}

/// The first `upto` of `names`, each shown as the first required parameter
/// of `cmd` that bears the name is shown with its value names.
pub open spec fn shown_missing(cmd: Command, names: Seq<Seq<char>>, upto: int) -> Seq<Seq<char>>
    decreases upto,
{
    if upto <= 0 {
        Seq::empty()
    } else {
        let before = shown_missing(cmd, names, upto - 1);
        match cmd.spec_find_required(names[upto - 1]) {
            Some(i) => before.push(cmd.flag_option_params@[i].spec_render_name_values()),
            None => before,
        }
    }
}

/// The names of the required flags and options of `cmd` that no occurrence
/// bears.
pub open spec fn missing_names(cmd: Command, occurrences: Seq<Occurrence>) -> Seq<Seq<char>> {
    still_missing(
        required_names(cmd.flag_option_params@, cmd.flag_option_params@.len() as int),
        occurrences,
        occurrences.len() as int,
    )
}

/// The required flags and options of `cmd` that no occurrence bears, as
/// they are shown.
pub open spec fn missing_flags(cmd: Command, occurrences: Seq<Occurrence>) -> Seq<Seq<char>> {
    shown_missing(
        cmd,
        missing_names(cmd, occurrences),
        missing_names(cmd, occurrences).len() as int,
    )
}

/// What is missing at `level`: at the innermost level the required
/// positional parameters from the one at `given` on, and at every level the
/// required flags and options without an occurrence.
pub open spec fn missing_at(s: Session, given: int, level: int) -> Seq<Seq<char>> {
    let cmd = s.path[level].cmd;
    let flags = missing_flags(cmd, s.occurrences[level]);
    if level == s.path.len() - 1 {
        missing_positionals(cmd.positional_params@, given, cmd.positional_params@.len() as int)
            + flags
    } else {
        flags
    }
}

/// The failure of the deepest level, from `level` outwards, at which
/// something is missing.
pub open spec fn missing_from(s: Session, given: int, level: int) -> Option<Failure>
    decreases level + 1,
{
    if level < 0 {
        None
    } else if missing_at(s, given, level).len() > 0 {
        Some(Failure::MissingRequiredArgument(level as nat, missing_at(s, given, level)))
    } else {
        missing_from(s, given, level - 1)
    }
}

/// The required positional parameters of `cmd` from the one at `given` on,
/// as they are shown.
pub fn missing_positional_params(cmd: &Command, given: usize) -> (missing: Vec<String>)
    ensures
        texts(missing@) == missing_positionals(
            cmd.positional_params@,
            given as int,
            cmd.positional_params@.len() as int,
        ),
{
    let mut missing: Vec<String> = Vec::new();
    let count: usize = cmd.positional_params.len();
    let mut i: usize = if given < count {
        given
    } else {
        count
    };
    proof {
        assert(texts(missing@) =~= Seq::<Seq<char>>::empty());
    }
    while i < count
        invariant
            count == cmd.positional_params@.len(),
            i <= count,
            given <= i || i == count,
            texts(missing@) == missing_positionals(cmd.positional_params@, given as int, i as int),
        decreases count - i,
    {
        let param = &cmd.positional_params[i];
        if param.required() {
            let ghost before = missing@;
            missing.push(param.render_value());
            proof {
                assert(texts(missing@) =~= texts(before).push(param.spec_render_value()));
            }
        }
        i += 1;
    }
    missing
}

/// The required flags and options of `cmd` that none of `args` bears, as
/// they are shown.
pub fn missing_flag_options<'a, 'b>(cmd: &'a Command, args: &Vec<FlagOptionArg<'a, 'b>>) -> (missing:
    Vec<String>)
    ensures
        texts(missing@) == missing_flags(*cmd, level_view(args@)),
{
    let ghost params = cmd.flag_option_params@;
    let ghost occurrences = level_view(args@);
    let mut names = set_new();
    let mut i: usize = 0;
    while i < cmd.flag_option_params.len()
        invariant
            params == cmd.flag_option_params@,
            i <= params.len(),
            set_items(names) == required_names(params, i as int),
        decreases params.len() - i,
    {
        let param = &cmd.flag_option_params[i];
        if param.required() {
            set_insert(&mut names, param.data.name.as_str());
        }
        i += 1;
    }
    let ghost required = set_items(names);
    let mut k: usize = 0;
    while k < args.len()
        invariant
            occurrences == level_view(args@),
            k <= args@.len(),
            set_items(names) == still_missing(required, occurrences, k as int),
        decreases args@.len() - k,
    {
        proof {
            assert(occurrences[k as int] == args@[k as int]@);
        }
        if let Some(name) = args[k].param {
            set_swap_remove(&mut names, name);
        }
        k += 1;
    }
    let ghost left = set_items(names);
    let mut missing: Vec<String> = Vec::new();
    let count: usize = set_len(&names);
    let mut j: usize = 0;
    while j < count
        invariant
            left == set_items(names),
            count == left.len(),
            j <= count,
            texts(missing@) == shown_missing(*cmd, left, j as int),
        decreases count - j,
    {
        if let Some(name) = set_get_index(&names, j) {
            if let Some(p) = cmd.find_required(name) {
                let ghost before = missing@;
                missing.push(cmd.flag_option_params[p].render_name_values());
                proof {
                    assert(texts(missing@) =~= texts(before).push(
                        cmd.flag_option_params@[p as int].spec_render_name_values(),
                    ));
                }
            }
        }
        j += 1;
    }
    missing
}

impl<'a, 'b> Matcher<'a, 'b> {
    /// Required parameters that are missing: at the innermost level the
    /// positional parameters that were given no group, where `given` groups
    /// were made, and from the innermost level outwards the flags and
    /// options without an occurrence. The deepest level at which something
    /// is missing is reported.
    pub fn check_missing(&self, given: usize) -> (found: Option<MatchError>)
        ensures
            failure_of(found) == missing_from(
                self.session(),
                given as int,
                self.session().path.len() - 1,
            ),
    {
        proof {
            use_type_invariant(self);
        }
        let ghost s = self.session();
        let cmds_len: usize = self.cmds.len();
        let last_cmd = self.cmds[cmds_len - 1].cmd;
        let mut missing = missing_positional_params(last_cmd, given);
        let mut level: usize = cmds_len;
        while level > 0
            invariant
                s == self.session(),
                cmds_len == self.cmds@.len(),
                self.flag_option_args@.len() == cmds_len,
                level <= cmds_len,
                level < cmds_len ==> missing@.len() == 0,
                level == cmds_len ==> texts(missing@) == missing_positionals(
                    s.path.last().cmd.positional_params@,
                    given as int,
                    s.path.last().cmd.positional_params@.len() as int,
                ),
                missing_from(s, given as int, cmds_len - 1) == missing_from(
                    s,
                    given as int,
                    level - 1,
                ),
            decreases level,
        {
            level -= 1;
            let cmd = self.cmds[level].cmd;
            let ghost before = missing@;
            let mut flags = missing_flag_options(cmd, &self.flag_option_args[level]);
            let ghost shown = texts(flags@);
            missing.append(&mut flags);
            proof {
                assert(s.path[level as int].cmd == *cmd);
                assert(s.occurrences[level as int] == level_view(
                    self.flag_option_args@[level as int]@,
                ));
                assert(texts(missing@) =~= texts(before) + shown);
                if level < cmds_len - 1 {
                    assert(texts(before) =~= Seq::<Seq<char>>::empty());
                }
                assert(texts(missing@) =~= missing_at(s, given as int, level as int));
            }
            if missing.len() > 0 {
                return Some(MatchError::MissingRequiredArgument(level, missing));
            }
        }
        None
    }
}

} // verus!
