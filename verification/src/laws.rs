//! What holds of classification and validation whatever the input.

use vstd::prelude::*;
use crate::command::Command;
use crate::matcher::Matcher;
use crate::ordered::swap_removed;
use crate::param::FlagOptionParam;
use crate::allocate::allocation;
use crate::required::{
    missing_at, missing_flags, missing_from, missing_names, missing_positionals, required_names,
    shown_missing, still_missing,
};
use crate::session::{
    capture, classify, combined, combines, short_of, step, step_dashed, taken_count,
    with_positional, with_subcommand, Guess, Occurrence, Scan, Session,
};
use crate::text::{dashed, first_index_of, lemma_first_index_of, lemma_first_index_unique};
use crate::validate::{
    first_interception, interception, interception_hits, verdict, ChoiceEntry, Failure,
};

verus! {

/// A token that names a subcommand of the current command and does not
/// begin with a dash selects that subcommand, as long as no separator was
/// met and not every further token is positional: the command path grows by
/// the subcommand and nothing else changes.
pub proof fn lemma_subcommand_descends(args: Seq<Seq<char>>, at: int, s: Scan)
    requires
        0 <= at < args.len(),
        s.session.path.len() > 0,
        !s.rest,
        s.session.dashes.len() == 0,
        !dashed(args[at]),
        s.session.path.last().cmd.spec_find_subcommand(args[at]) is Some,
    ensures
        step(args, at, s).state == with_subcommand(
            s,
            args[at],
            s.session.path.last().cmd.subcommands@[s.session.path.last().cmd.spec_find_subcommand(
                args[at],
            )->0],
            at,
        ),
        step(args, at, s).state.session.path.len() == s.session.path.len() + 1,
        step(args, at, s).state.session.positionals == s.session.positionals,
        step(args, at, s).taken == 0,
{
    let cmd = s.session.path.last().cmd;
    reveal_strlit("--");
    assert(dashed("--"@));
    lemma_first_index_of(cmd.subcommand_hits(args[at]), true);
    assert(cmd.subcommands@.len() > 0);
}

/// After a separator every token but a further separator is positional,
/// whether or not it names a subcommand: the command path stays as it is
/// and the token is the last positional token.
pub proof fn lemma_positional_after_separator(args: Seq<Seq<char>>, at: int, s: Scan)
    requires
        0 <= at < args.len(),
        s.session.dashes.len() > 0,
        args[at] != "--"@,
    ensures
        step(args, at, s).state == with_positional(s, args[at], s.session.path.last().cmd),
        step(args, at, s).state.session.path == s.session.path,
        step(args, at, s).state.session.positionals == s.session.positionals.push(args[at]),
        step(args, at, s).taken == 0,
{
}

/// A token that combines short spellings whose last one names an option of
/// one value takes exactly the token that follows it, if that token does not
/// begin with a dash, as the value of the option: the level gains one
/// occurrence for each character after the first, none of them with a value
/// but the last, which holds that token.
pub proof fn lemma_combined_shorts_take_one_value(args: Seq<Seq<char>>, at: int, s: Scan)
    requires
        0 <= at,
        at + 1 < args.len(),
        s.session.path.len() > 0,
        s.session.occurrences.len() == s.session.path.len(),
        first_index_of(args[at], '=') >= args[at].len(),
        s.session.path.last().cmd.spec_find_flag_option(args[at]) is None,
        combines(s.session.path.last().cmd, args[at]),
        s.session.path.last().cmd.flag_option_params@[short_of(
            s.session.path.last().cmd,
            args[at].last(),
        )->0].arity() == 1,
        !s.session.path.last().cmd.flag_option_params@[short_of(
            s.session.path.last().cmd,
            args[at].last(),
        )->0].data.terminated,
        !dashed(args[at + 1]),
    ensures
        step_dashed(args, at, s).taken == 1,
        step_dashed(args, at, s).state.session.occurrences.last().len()
            == s.session.occurrences.last().len() + args[at].len() - 1,
        forall|k: int|
            0 <= k < args[at].len() - 2 ==> (#[trigger] step_dashed(
                args,
                at,
                s,
            ).state.session.occurrences.last()[s.session.occurrences.last().len() + k])
                == combined(s.session.path.last().cmd, args[at])[k],
        step_dashed(args, at, s).state.session.occurrences.last().last().values == seq![
            args[at + 1],
        ],
        step_dashed(args, at, s).state.session.occurrences.last().last().key == args[at],
        step_dashed(args, at, s).state.session.positionals == s.session.positionals,
{
    assert(taken_count(args, at + 2, 0) == 0);
    assert(taken_count(args, at + 1, 1) == 1);
    let after = step_dashed(args, at, s).state.session.occurrences.last();
    assert(after.last().values =~= seq![args[at + 1]]);
}

/// Where an occurrence of the innermost level asks for help and none
/// before it asks for the version, the verdict is to display help,
/// whatever else the arguments hold.
pub proof fn lemma_help_wins(s: Session, table: Seq<ChoiceEntry>, at: int)
    requires
        s.path.len() > 0,
        0 <= at < s.occurrences[s.path.len() - 1].len(),
        interception(s.path.last().cmd, s.occurrences[s.path.len() - 1][at]) == Some(
            Failure::DisplayHelp,
        ),
        forall|j: int|
            0 <= j < at ==> interception(
                s.path.last().cmd,
                #[trigger] s.occurrences[s.path.len() - 1][j],
            ) != Some(Failure::DisplayVersion),
    ensures
        verdict(s, table) == Some(Failure::DisplayHelp),
{
    let cmd = s.path.last().cmd;
    let occurrences = s.occurrences[s.path.len() - 1];
    let hits = interception_hits(cmd, occurrences);
    lemma_first_index_of(hits, true);
    let first = first_index_of(hits, true);
    assert(hits[at]);
    assert(first <= at);
    assert(hits[first]);
    if first < at {
        assert(interception(cmd, occurrences[first]) != Some(Failure::DisplayVersion));
    }
    assert(first_interception(cmd, occurrences) == Some(Failure::DisplayHelp));
}

/// Whether one of the first `upto` parameters is required and bears `name`.
pub open spec fn requires_name(params: Seq<FlagOptionParam>, name: Seq<char>, upto: int) -> bool {
    exists|i: int|
        0 <= i < upto && (#[trigger] params[i]).data.required && params[i].data.name@ == name
}

/// Whether one of the first `upto` occurrences bears `name`.
pub open spec fn bears_name(occurrences: Seq<Occurrence>, name: Seq<char>, upto: int) -> bool {
    exists|k: int| 0 <= k < upto && (#[trigger] occurrences[k]).param == Some(name)
}

proof fn lemma_required_names(params: Seq<FlagOptionParam>, name: Seq<char>, upto: int)
    requires
        0 <= upto <= params.len(),
    ensures
        required_names(params, upto).no_duplicates(),
        required_names(params, upto).contains(name) <==> requires_name(params, name, upto),
    decreases upto,
{
    if upto > 0 {
        let before = required_names(params, upto - 1);
        let own = params[upto - 1].data.name@;
        lemma_required_names(params, name, upto - 1);
        lemma_required_names(params, own, upto - 1);
        let after = required_names(params, upto);
        if params[upto - 1].data.required && !before.contains(own) {
            assert(after == before.push(own));
            assert(after.last() == own);
            if after.contains(name) {
                let j = choose|j: int| 0 <= j < after.len() && after[j] == name;
                if j < before.len() {
                    assert(before[j] == name);
                    assert(before.contains(name));
                } else {
                    assert(params[upto - 1].data.name@ == name);
                }
                assert(requires_name(params, name, upto));
            }
            if requires_name(params, name, upto) {
                let i = choose|i: int|
                    0 <= i < upto && (#[trigger] params[i]).data.required && params[i].data.name@
                        == name;
                if i < upto - 1 {
                    assert(requires_name(params, name, upto - 1));
                    let j = choose|j: int| 0 <= j < before.len() && before[j] == name;
                    assert(after[j] == name);
                } else {
                    assert(after[after.len() - 1] == name);
                }
            }
        } else {
            assert(after == before);
            if requires_name(params, name, upto) {
                let i = choose|i: int|
                    0 <= i < upto && (#[trigger] params[i]).data.required && params[i].data.name@
                        == name;
                if i == upto - 1 {
                    assert(before.contains(own));
                } else {
                    assert(requires_name(params, name, upto - 1));
                }
            }
            if requires_name(params, name, upto - 1) {
                let i = choose|i: int|
                    0 <= i < upto - 1 && (#[trigger] params[i]).data.required
                        && params[i].data.name@ == name;
                assert(requires_name(params, name, upto));
            }
        }
    } else {
        assert(!required_names(params, upto).contains(name));
    }
}

proof fn lemma_swap_removed(list: Seq<Seq<char>>, gone: Seq<char>, name: Seq<char>)
    requires
        list.no_duplicates(),
        list.contains(gone),
    ensures
        swap_removed(list, first_index_of(list, gone)).no_duplicates(),
        swap_removed(list, first_index_of(list, gone)).contains(name) <==> list.contains(name)
            && name != gone,
{
    lemma_first_index_of(list, gone);
    let at = first_index_of(list, gone);
    let len = list.len() as int;
    let j0 = choose|j: int| 0 <= j < list.len() && list[j] == gone;
    assert(at < len) by {
        if at >= len {
            assert(list[j0] == gone);
        }
    }
    let after = swap_removed(list, at);
    assert(after.len() == len - 1);
    assert forall|j: int| 0 <= j < len - 1 implies after[j] == (if j == at {
        list[len - 1]
    } else {
        list[j]
    }) by {}
    if after.contains(name) {
        let j = choose|j: int| 0 <= j < after.len() && after[j] == name;
        if j == at {
            assert(list[len - 1] == name);
        } else {
            assert(list[j] == name);
        }
    }
    if list.contains(name) && name != gone {
        let j = choose|j: int| 0 <= j < list.len() && list[j] == name;
        if j < len - 1 {
            assert(after[j] == name);
        } else {
            assert(after[at] == name);
        }
    }
}

proof fn lemma_still_missing(
    names: Seq<Seq<char>>,
    occurrences: Seq<Occurrence>,
    name: Seq<char>,
    upto: int,
)
    requires
        names.no_duplicates(),
        0 <= upto <= occurrences.len(),
    ensures
        still_missing(names, occurrences, upto).no_duplicates(),
        still_missing(names, occurrences, upto).contains(name) <==> names.contains(name)
            && !bears_name(occurrences, name, upto),
    decreases upto,
{
    if upto > 0 {
        let before = still_missing(names, occurrences, upto - 1);
        lemma_still_missing(names, occurrences, name, upto - 1);
        let after = still_missing(names, occurrences, upto);
        match occurrences[upto - 1].param {
            Some(gone) => {
                if before.contains(gone) {
                    lemma_swap_removed(before, gone, name);
                }
                if bears_name(occurrences, name, upto) {
                    let k = choose|k: int|
                        0 <= k < upto && (#[trigger] occurrences[k]).param == Some(name);
                    if k < upto - 1 {
                        assert(bears_name(occurrences, name, upto - 1));
                    }
                }
                if bears_name(occurrences, name, upto - 1) {
                    let k = choose|k: int|
                        0 <= k < upto - 1 && (#[trigger] occurrences[k]).param == Some(name);
                    assert(bears_name(occurrences, name, upto));
                }
                if gone == name {
                    assert(occurrences[upto - 1].param == Some(name));
                    assert(bears_name(occurrences, name, upto));
                }
            },
            None => {
                if bears_name(occurrences, name, upto) {
                    let k = choose|k: int|
                        0 <= k < upto && (#[trigger] occurrences[k]).param == Some(name);
                    assert(bears_name(occurrences, name, upto - 1));
                }
                if bears_name(occurrences, name, upto - 1) {
                    let k = choose|k: int|
                        0 <= k < upto - 1 && (#[trigger] occurrences[k]).param == Some(name);
                    assert(bears_name(occurrences, name, upto));
                }
            },
        }
    }
}

/// A name is among the missing names of a command exactly when a required
/// flag or option of the command bears it and no occurrence does: leaving a
/// required parameter out puts it among them, and one occurrence of it,
/// with or without a value, takes it out.
pub proof fn lemma_missing_names(cmd: Command, occurrences: Seq<Occurrence>, name: Seq<char>)
    ensures
        missing_names(cmd, occurrences).contains(name) <==> requires_name(
            cmd.flag_option_params@,
            name,
            cmd.flag_option_params@.len() as int,
        ) && !bears_name(occurrences, name, occurrences.len() as int),
        missing_names(cmd, occurrences).no_duplicates(),
{
    let params = cmd.flag_option_params@;
    lemma_required_names(params, name, params.len() as int);
    lemma_still_missing(
        required_names(params, params.len() as int),
        occurrences,
        name,
        occurrences.len() as int,
    );
}

/// An option that is spelled by the last token, and so captures no value,
/// leaves its first value awaited, whatever was guessed before.
pub proof fn lemma_option_as_last_token(
    args: Seq<Seq<char>>,
    at: int,
    param: FlagOptionParam,
    comp: Guess,
)
    requires
        0 <= at,
        at == args.len() - 1,
        param.arity() >= 1,
        !param.data.terminated,
    ensures
        capture(args, at, param, comp).comp == Guess::OptionValue(param.data.name@, 0),
        capture(args, at, param, comp).taken == 0,
        capture(args, at, param, comp).occurrence.values == Seq::<Seq<char>>::empty(),
{
    assert(taken_count(args, at + 1, param.arity()) == 0);
    assert(capture(args, at, param, comp).occurrence.values =~= Seq::<Seq<char>>::empty());
}

/// The required names of the first `upto` parameters where the one at
/// `only` is the only required one.
proof fn lemma_one_required_name(params: Seq<FlagOptionParam>, only: int, upto: int)
    requires
        0 <= only < params.len(),
        0 <= upto <= params.len(),
        params[only].data.required,
        forall|i: int| 0 <= i < params.len() && i != only ==> !(#[trigger] params[i]).data.required,
    ensures
        required_names(params, upto) == if upto > only {
            seq![params[only].data.name@]
        } else {
            Seq::<Seq<char>>::empty()
        },
    decreases upto,
{
    if upto > 0 {
        lemma_one_required_name(params, only, upto - 1);
        if upto - 1 == only {
            assert(!Seq::<Seq<char>>::empty().contains(params[only].data.name@));
            assert(Seq::<Seq<char>>::empty().push(params[only].data.name@) =~= seq![
                params[only].data.name@,
            ]);
        } else {
            assert(!params[upto - 1].data.required);
        }
    }
}

/// Where a command without subcommands and without positional parameters
/// has exactly one required flag or option, the program name alone is
/// refused for that parameter and no other: the verdict names it, as it is
/// shown with its value names, at the level of the root.
pub proof fn lemma_single_required_reported(
    root: Command,
    args: Seq<Seq<char>>,
    table: Seq<ChoiceEntry>,
    only: int,
)
    requires
        args.len() == 1,
        root.subcommands@.len() == 0,
        root.positional_params@.len() == 0,
        0 <= only < root.flag_option_params@.len(),
        root.flag_option_params@[only].data.required,
        forall|i: int|
            0 <= i < root.flag_option_params@.len() && i != only ==> !(
            #[trigger] root.flag_option_params@[i]).data.required,
    ensures
        verdict(classify(root, args), table) == Some(
            Failure::MissingRequiredArgument(
                0,
                seq![root.flag_option_params@[only].spec_render_name_values()],
            ),
        ),
{
    let s = classify(root, args);
    let params = root.flag_option_params@;
    let name = params[only].data.name@;
    let shown = params[only].spec_render_name_values();
    assert(args.subrange(1, 1) =~= Seq::<Seq<char>>::empty());
    assert(s.path.len() == 1);
    assert(s.path.last().cmd == root);
    assert(s.occurrences.len() == 1);
    assert(s.occurrences[0] =~= Seq::<Occurrence>::empty());
    assert(s.positionals =~= Seq::<Seq<char>>::empty());
    assert(s.dashes =~= Seq::<nat>::empty());
    let groups = allocation(root.positional_params@, s.positionals, s.dashes);
    assert(groups =~= Seq::<Seq<Seq<char>>>::empty());
    lemma_one_required_name(params, only, params.len() as int);
    assert(missing_names(root, s.occurrences[0]) == seq![name]);
    assert(root.required_hits(name)[only]);
    assert forall|j: int| 0 <= j < only implies root.required_hits(name)[j] != true by {
        assert(!params[j].data.required);
    }
    lemma_first_index_unique(root.required_hits(name), true, only);
    assert(root.spec_find_required(name) == Some(only));
    assert(shown_missing(root, seq![name], 0) == Seq::<Seq<char>>::empty());
    assert(shown_missing(root, seq![name], 1) =~= seq![shown]);
    assert(missing_flags(root, s.occurrences[0]) == seq![shown]);
    assert(missing_positionals(root.positional_params@, 0, 0) == Seq::<Seq<char>>::empty());
    assert(missing_at(s, 0, 0) =~= seq![shown]);
    assert(missing_from(s, 0, 0) == Some(Failure::MissingRequiredArgument(0, seq![shown])));
}

/// Classification depends on the command tree and on the argument vector
/// alone: two matchers made from the same tree and the same arguments hold
/// the same session.
pub proof fn lemma_classification_repeats(
    first: &Matcher,
    second: &Matcher,
    root: Command,
    args: Seq<Seq<char>>,
)
    requires
        first.session() == classify(root, args),
        second.session() == classify(root, args),
    ensures
        first.session() == second.session(),
{
}

} // verus!
