//! Checks on the values that the arguments give: each against the choices
//! of its parameter, and each occurrence of a flag or option against the
//! number of values and of occurrences that its parameter allows.

use vstd::prelude::*;
use vstd::string::*;
use crate::allocate::groups_view;
use crate::command::{first_hit, Command};
use crate::matcher::{level_view, FlagOptionArg, Matcher};
use crate::ordered::{
    keys_of, map_entries, map_get, map_get_index, map_insert, map_len, map_new,
};
use crate::param::{FlagOptionParam, PositionalParam};
use crate::session::{Occurrence, Session};
use crate::text::{
    clone_strings, contains_text, first_index_of, lemma_first_index_unique, texts, tokens,
};
use crate::validate::{
    failure_of, get_param_choice, spec_param_choice, ChoiceEntry, Failure, MatchError,
};

verus! {

/// For each value, whether `allowed` lacks it.
pub open spec fn outside_hits(values: Seq<Seq<char>>, allowed: Seq<Seq<char>>) -> Seq<bool> {
    Seq::new(values.len(), |i: int| !allowed.contains(values[i]))
}

/// The failure of the first of `values` that is not among `allowed`, where
/// the parameter, shown as `shown`, restricts its values at all.
pub open spec fn choice_violation(
    values: Seq<Seq<char>>,
    allowed: Option<Seq<Seq<char>>>,
    shown: Seq<char>,
    level: nat,
) -> Option<Failure> {
    match allowed {
        Some(list) => match first_hit(outside_hits(values, list)) {
            Some(i) => Some(Failure::InvalidValue(level, values[i], shown, list)),
            None => None,
        },
        None => None,
    }
}

/// The first failure among the groups of the first `upto` positional
/// parameters.
pub open spec fn positional_violation(
    params: Seq<PositionalParam>,
    groups: Seq<Seq<Seq<char>>>,
    table: Seq<ChoiceEntry>,
    level: nat,
    upto: int,
) -> Option<Failure>
    decreases upto,
{
    if upto <= 0 {
        None
    } else {
        match positional_violation(params, groups, table, level, upto - 1) {
            Some(failure) => Some(failure),
            None => if upto - 1 < groups.len() {
                choice_violation(
                    groups[upto - 1],
                    spec_param_choice(params[upto - 1].data.choice, table),
                    params[upto - 1].spec_render_value(),
                    level,
                )
            } else {
                None
            },
        }
    }
}

/// For each occurrence, whether no parameter recognizes its spelling.
pub open spec fn unknown_hits(occurrences: Seq<Occurrence>) -> Seq<bool> {
    Seq::new(occurrences.len(), |i: int| occurrences[i].param is None)
}

/// The failure of the first occurrence that no parameter recognizes.
pub open spec fn first_unknown(occurrences: Seq<Occurrence>, level: nat) -> Option<Failure> {
    match first_hit(unknown_hits(occurrences)) {
        Some(i) => Some(Failure::UnknownArgument(level, occurrences[i].key)),
        None => None,
    }
}

/// The first `upto` occurrences by parameter: the names in the order in
/// which each is first met, each with the positions of its occurrences.
pub open spec fn grouped(occurrences: Seq<Occurrence>, upto: int) -> Seq<(Seq<char>, Seq<usize>)>
    decreases upto,
{
    if upto <= 0 {
        Seq::empty()
    } else {
        let before = grouped(occurrences, upto - 1);
        match occurrences[upto - 1].param {
            Some(name) => if keys_of(before).contains(name) {
                let at = first_index_of(keys_of(before), name);
                before.update(at, (name, before[at].1.push((upto - 1) as usize)))
            } else {
                before.push((name, seq![(upto - 1) as usize]))
            },
            None => before,
        }
    }
}

/// The failure of one occurrence of `param`: a value given to a flag, a
/// number of values other than the one that a parameter which is given once
/// declares, or a value that is not among the choices.
pub open spec fn occurrence_violation(
    param: FlagOptionParam,
    o: Occurrence,
    table: Seq<ChoiceEntry>,
    level: nat,
) -> Option<Failure> {
    if o.values.len() != param.arity() && param.arity() == 0 {
        Some(Failure::NoMoreValue(level, param.spec_render_name(), o.values[0]))
    } else if o.values.len() != param.arity() && !param.data.multiple {
        Some(Failure::MismatchValues(level, param.spec_render_name_values()))
    } else {
        choice_violation(
            o.values,
            spec_param_choice(param.data.choice, table),
            param.spec_render_single_value(),
            level,
        )
    }
}

/// The first failure among the first `upto` of the occurrences of `param`
/// at the positions `indexes`.
pub open spec fn group_violation(
    param: FlagOptionParam,
    occurrences: Seq<Occurrence>,
    indexes: Seq<usize>,
    table: Seq<ChoiceEntry>,
    level: nat,
    upto: int,
) -> Option<Failure>
    decreases upto,
{
    if upto <= 0 {
        None
    } else {
        match group_violation(param, occurrences, indexes, table, level, upto - 1) {
            Some(failure) => Some(failure),
            None => occurrence_violation(
                param,
                occurrences[indexes[upto - 1] as int],
                table,
                level,
            ),
        }
    }
}

/// The failure of the occurrences under one name: more than one where the
/// parameter may be given once, or else the first failure of an occurrence.
pub open spec fn name_violation(
    cmd: Command,
    occurrences: Seq<Occurrence>,
    entry: (Seq<char>, Seq<usize>),
    table: Seq<ChoiceEntry>,
    level: nat,
) -> Option<Failure> {
    match cmd.spec_find_by_name(entry.0) {
        Some(p) => {
            let param = cmd.flag_option_params@[p];
            if !param.data.multiple && entry.1.len() > 1 {
                Some(Failure::NotMultipleArgument(level, param.spec_render_name()))
            } else {
                group_violation(param, occurrences, entry.1, table, level, entry.1.len() as int)
            }
        },
        None => None,
    }
}

/// The first failure among the first `upto` names.
pub open spec fn names_violation(
    cmd: Command,
    occurrences: Seq<Occurrence>,
    entries: Seq<(Seq<char>, Seq<usize>)>,
    table: Seq<ChoiceEntry>,
    level: nat,
    upto: int,
) -> Option<Failure>
    decreases upto,
{
    if upto <= 0 {
        None
    } else {
        match names_violation(cmd, occurrences, entries, table, level, upto - 1) {
            Some(failure) => Some(failure),
            None => name_violation(cmd, occurrences, entries[upto - 1], table, level),
        }
    }
}

/// The first failure among the occurrences of one level: an occurrence
/// that no parameter recognizes, or else the first failure under a name.
pub open spec fn level_violation(
    cmd: Command,
    occurrences: Seq<Occurrence>,
    table: Seq<ChoiceEntry>,
    level: nat,
) -> Option<Failure> {
    match first_unknown(occurrences, level) {
        Some(failure) => Some(failure),
        None => {
            let entries = grouped(occurrences, occurrences.len() as int);
            names_violation(cmd, occurrences, entries, table, level, entries.len() as int)
        },
    }
}

/// The first failure among the occurrences from `level` outwards.
pub open spec fn levels_violation(s: Session, table: Seq<ChoiceEntry>, level: int) -> Option<
    Failure,
>
    decreases level + 1,
{
    if level < 0 {
        None
    } else {
        match level_violation(s.path[level].cmd, s.occurrences[level], table, level as nat) {
            Some(failure) => Some(failure),
            None => levels_violation(s, table, level - 1),
        }
    }
}

/// Whether every position that `entries` holds is below `limit`.
pub open spec fn positions_below(entries: Seq<(Seq<char>, Seq<usize>)>, limit: int) -> bool {
    forall|e: int, k: int|
        0 <= e < entries.len() && 0 <= k < entries[e].1.len() ==> (#[trigger] entries[e].1[k])
            < limit
}

/// A failure among the first `at` positional parameters is the first
/// failure among the first `upto` of them as well.
proof fn lemma_positional_violation_stays(
    params: Seq<PositionalParam>,
    groups: Seq<Seq<Seq<char>>>,
    table: Seq<ChoiceEntry>,
    level: nat,
    at: int,
    upto: int,
)
    requires
        at <= upto,
        positional_violation(params, groups, table, level, at) is Some,
    ensures
        positional_violation(params, groups, table, level, upto) == positional_violation(
            params,
            groups,
            table,
            level,
            at,
        ),
    decreases upto - at,
{
    if at < upto {
        lemma_positional_violation_stays(params, groups, table, level, at, upto - 1);
    }
}

/// A failure among the first `at` occurrences of a group is the first
/// failure among the first `upto` of them as well.
proof fn lemma_group_violation_stays(
    param: FlagOptionParam,
    occurrences: Seq<Occurrence>,
    indexes: Seq<usize>,
    table: Seq<ChoiceEntry>,
    level: nat,
    at: int,
    upto: int,
)
    requires
        at <= upto,
        group_violation(param, occurrences, indexes, table, level, at) is Some,
    ensures
        group_violation(param, occurrences, indexes, table, level, upto) == group_violation(
            param,
            occurrences,
            indexes,
            table,
            level,
            at,
        ),
    decreases upto - at,
{
    if at < upto {
        lemma_group_violation_stays(param, occurrences, indexes, table, level, at, upto - 1);
    }
}

/// A failure among the first `at` names is the first failure among the
/// first `upto` of them as well.
proof fn lemma_names_violation_stays(
    cmd: Command,
    occurrences: Seq<Occurrence>,
    entries: Seq<(Seq<char>, Seq<usize>)>,
    table: Seq<ChoiceEntry>,
    level: nat,
    at: int,
    upto: int,
)
    requires
        at <= upto,
        names_violation(cmd, occurrences, entries, table, level, at) is Some,
    ensures
        names_violation(cmd, occurrences, entries, table, level, upto) == names_violation(
            cmd,
            occurrences,
            entries,
            table,
            level,
            at,
        ),
    decreases upto - at,
{
    if at < upto {
        lemma_names_violation_stays(cmd, occurrences, entries, table, level, at, upto - 1);
    }
}

/// The position of the first of `values` that `choices` lacks.
pub fn find_outside(values: &Vec<&str>, choices: &Vec<String>) -> (found: Option<usize>)
    ensures
        found is Some == first_hit(outside_hits(tokens(values@), texts(choices@))) is Some,
        found matches Some(i) ==> i < values@.len() && first_hit(
            outside_hits(tokens(values@), texts(choices@)),
        ) == Some(i as int),
{
    let ghost hits = outside_hits(tokens(values@), texts(choices@));
    let mut i: usize = 0;
    while i < values.len()
        invariant
            i <= values@.len(),
            hits == outside_hits(tokens(values@), texts(choices@)),
            forall|j: int| 0 <= j < i ==> hits[j] != true,
        decreases values@.len() - i,
    {
        if !contains_text(choices, values[i]) {
            proof {
                lemma_first_index_unique(hits, true, i as int);
            }
            return Some(i);
        }
        i += 1;
    }
    proof {
        lemma_first_index_unique(hits, true, i as int);
    }
    None
}

/// Each value of each positional parameter is among the choices of the
/// parameter.
pub fn check_positional_choices(
    cmd: &Command,
    positional_values: &Vec<Vec<&str>>,
    choices_fn_values: &Vec<ChoiceEntry>,
    level: usize,
) -> (found: Option<MatchError>)
    ensures
        failure_of(found) == positional_violation(
            cmd.positional_params@,
            groups_view(positional_values@),
            choices_fn_values@,
            level as nat,
            cmd.positional_params@.len() as int,
        ),
{
    let ghost params = cmd.positional_params@;
    let ghost groups = groups_view(positional_values@);
    let mut i: usize = 0;
    while i < cmd.positional_params.len()
        invariant
            params == cmd.positional_params@,
            groups == groups_view(positional_values@),
            i <= params.len(),
            positional_violation(params, groups, choices_fn_values@, level as nat, i as int)
                is None,
        decreases params.len() - i,
    {
        let param = &cmd.positional_params[i];
        if i < positional_values.len() {
            let values = &positional_values[i];
            proof {
                assert(groups[i as int] == tokens(values@));
            }
            if let Some(choices) = get_param_choice(&param.data.choice, choices_fn_values) {
                if let Some(k) = find_outside(values, choices) {
                    proof {
                        lemma_positional_violation_stays(
                            params,
                            groups,
                            choices_fn_values@,
                            level as nat,
                            i + 1,
                            params.len() as int,
                        );
                    }
                    return Some(
                        MatchError::InvalidValue(
                            level,
                            String::from_str(values[k]),
                            param.render_value(),
                            clone_strings(choices),
                        ),
                    );
                }
            }
        }
        i += 1;
    }
    None
}

/// A copy of `list`.
fn copy_positions(list: &Vec<usize>) -> (copy: Vec<usize>)
    ensures
        copy@ == list@,
{
    let mut copy: Vec<usize> = Vec::new();
    let mut i: usize = 0;
    while i < list.len()
        invariant
            i <= list@.len(),
            copy@ == list@.take(i as int),
        decreases list@.len() - i,
    {
        copy.push(list[i]);
        proof {
            assert(copy@ =~= list@.take(i + 1));
        }
        i += 1;
    }
    proof {
        assert(list@.take(list@.len() as int) =~= list@);
    }
    copy
}

/// One occurrence of `param` has the number of values that the parameter
/// declares and values among its choices.
pub fn check_occurrence(
    param: &FlagOptionParam,
    arg: &FlagOptionArg,
    choices_fn_values: &Vec<ChoiceEntry>,
    level: usize,
) -> (found: Option<MatchError>)
    ensures
        failure_of(found) == occurrence_violation(
            *param,
            arg@,
            choices_fn_values@,
            level as nat,
        ),
{
    let values = &arg.values;
    if values.len() != param.values_size() {
        if param.is_flag() {
            return Some(
                MatchError::NoMoreValue(level, param.render_name(), String::from_str(values[0])),
            );
        } else if !param.multiple() {
            return Some(MatchError::MismatchValues(level, param.render_name_values()));
        }
    }
    if let Some(choices) = get_param_choice(&param.data.choice, choices_fn_values) {
        if let Some(k) = find_outside(values, choices) {
            return Some(
                MatchError::InvalidValue(
                    level,
                    String::from_str(values[k]),
                    param.render_single_value(),
                    clone_strings(choices),
                ),
            );
        }
    }
    None
}

/// The occurrences of one level: each is recognized, none is repeated that
/// may be given once, and each has the values that its parameter allows.
pub fn check_level<'a, 'b>(
    cmd: &'a Command,
    args: &Vec<FlagOptionArg<'a, 'b>>,
    choices_fn_values: &Vec<ChoiceEntry>,
    level: usize,
) -> (found: Option<MatchError>)
    ensures
        failure_of(found) == level_violation(
            *cmd,
            level_view(args@),
            choices_fn_values@,
            level as nat,
        ),
{
    let ghost occurrences = level_view(args@);
    let ghost table = choices_fn_values@;
    let ghost unknown = unknown_hits(occurrences);
    let mut flag_option_map = map_new();
    let mut i: usize = 0;
    while i < args.len()
        invariant
            occurrences == level_view(args@),
            unknown == unknown_hits(occurrences),
            i <= args@.len(),
            forall|j: int| 0 <= j < i ==> unknown[j] != true,
            map_entries(flag_option_map) == grouped(occurrences, i as int),
            positions_below(map_entries(flag_option_map), i as int),
        decreases args@.len() - i,
    {
        let arg = &args[i];
        proof {
            assert(occurrences[i as int] == arg@);
        }
        match arg.param {
            Some(name) => {
                let ghost before = map_entries(flag_option_map);
                let mut indexes = match map_get(&flag_option_map, name) {
                    Some(list) => copy_positions(list),
                    None => Vec::new(),
                };
                indexes.push(i);
                map_insert(&mut flag_option_map, name, indexes);
                proof {
                    let after = map_entries(flag_option_map);
                    if keys_of(before).contains(name@) {
                        let at = first_index_of(keys_of(before), name@);
                        crate::text::lemma_first_index_of(keys_of(before), name@);
                        assert(after =~= before.update(at, (name@, before[at].1.push(i))));
                    } else {
                        assert(after =~= before.push((name@, seq![i])));
                    }
                    assert(after == grouped(occurrences, i + 1));
                    assert forall|e: int, k: int|
                        0 <= e < after.len() && 0 <= k < after[e].1.len() implies (
                    #[trigger] after[e].1[k]) < i + 1 by {
                        if keys_of(before).contains(name@) {
                            let at = first_index_of(keys_of(before), name@);
                            if e == at {
                                if k < before[at].1.len() {
                                    assert(before[e].1[k] < i);
                                }
                            } else {
                                assert(before[e].1[k] < i);
                            }
                        } else {
                            if e < before.len() {
                                assert(before[e].1[k] < i);
                            }
                        }
                    }
                }
            },
            None => {
                proof {
                    lemma_first_index_unique(unknown, true, i as int);
                }
                return Some(MatchError::UnknownArgument(level, String::from_str(arg.key)));
            },
        }
        i += 1;
    }
    proof {
        lemma_first_index_unique(unknown, true, i as int);
    }
    let ghost entries = map_entries(flag_option_map);
    let count: usize = map_len(&flag_option_map);
    let mut g: usize = 0;
    while g < count
        invariant
            occurrences == level_view(args@),
            table == choices_fn_values@,
            entries == map_entries(flag_option_map),
            entries == grouped(occurrences, occurrences.len() as int),
            first_unknown(occurrences, level as nat) is None,
            count == entries.len(),
            g <= count,
            positions_below(entries, args@.len() as int),
            names_violation(*cmd, occurrences, entries, table, level as nat, g as int) is None,
        decreases count - g,
    {
        if let Some((name, indexes)) = map_get_index(&flag_option_map, g) {
            if let Some(p) = cmd.find_by_name(name) {
                let param = &cmd.flag_option_params[p];
                if !param.multiple() && indexes.len() > 1 {
                    proof {
                        lemma_names_violation_stays(
                            *cmd,
                            occurrences,
                            entries,
                            table,
                            level as nat,
                            g + 1,
                            count as int,
                        );
                    }
                    return Some(MatchError::NotMultipleArgument(level, param.render_name()));
                }
                let mut k: usize = 0;
                while k < indexes.len()
                    invariant
                        occurrences == level_view(args@),
                        table == choices_fn_values@,
                        0 <= g < entries.len(),
                        count == entries.len(),
                        entries == grouped(occurrences, occurrences.len() as int),
                        first_unknown(occurrences, level as nat) is None,
                        indexes@ == entries[g as int].1,
                        positions_below(entries, args@.len() as int),
                        k <= indexes@.len(),
                        group_violation(
                            *param,
                            occurrences,
                            indexes@,
                            table,
                            level as nat,
                            k as int,
                        ) is None,
                        names_violation(*cmd, occurrences, entries, table, level as nat, g as int)
                            is None,
                        cmd.spec_find_by_name(entries[g as int].0) == Some(p as int),
                        *param == cmd.flag_option_params@[p as int],
                        !(!param.data.multiple && indexes@.len() > 1),
                    decreases indexes@.len() - k,
                {
                    let at: usize = indexes[k];
                    proof {
                        assert(entries[g as int].1[k as int] < args@.len());
                        assert(occurrences[at as int] == args@[at as int]@);
                    }
                    let found = check_occurrence(param, &args[at], choices_fn_values, level);
                    if found.is_some() {
                        proof {
                            lemma_group_violation_stays(
                                *param,
                                occurrences,
                                indexes@,
                                table,
                                level as nat,
                                k + 1,
                                indexes@.len() as int,
                            );
                            lemma_names_violation_stays(
                                *cmd,
                                occurrences,
                                entries,
                                table,
                                level as nat,
                                g + 1,
                                count as int,
                            );
                        }
                        return found;
                    }
                    k += 1;
                }
            }
        }
        g += 1;
    }
    None
}

impl<'a, 'b> Matcher<'a, 'b> {
    /// The occurrences of every level, from the innermost level outwards.
    pub fn check_levels(&self, choices_fn_values: &Vec<ChoiceEntry>) -> (found: Option<MatchError>)
        ensures
            failure_of(found) == levels_violation(
                self.session(),
                choices_fn_values@,
                self.session().path.len() - 1,
            ),
    {
        proof {
            use_type_invariant(self);
        }
        let ghost s = self.session();
        let cmds_len: usize = self.cmds.len();
        let mut level: usize = cmds_len;
        while level > 0
            invariant
                s == self.session(),
                cmds_len == self.cmds@.len(),
                self.flag_option_args@.len() == cmds_len,
                level <= cmds_len,
                levels_violation(s, choices_fn_values@, cmds_len - 1) == levels_violation(
                    s,
                    choices_fn_values@,
                    level - 1,
                ),
            decreases level,
        {
            level -= 1;
            let cmd = self.cmds[level].cmd;
            proof {
                assert(s.path[level as int].cmd == *cmd);
                assert(s.occurrences[level as int] == level_view(
                    self.flag_option_args@[level as int]@,
                ));
            }
            let found = check_level(cmd, &self.flag_option_args[level], choices_fn_values, level);
            if found.is_some() {
                return found;
            }
        }
        None
    }
}

} // verus!
