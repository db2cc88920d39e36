//! The allocation of positional tokens to positional parameters.

use vstd::prelude::*;
use crate::matcher::Matcher;
use crate::param::PositionalParam;
use crate::text::tokens;

verus! {

/// How many tokens the parameter at `index` takes when `remaining` tokens
/// are left: one where it takes a single value; where it takes several, as
/// many as leave one for each parameter after it, and at least one. Where
/// there are exactly two parameters, both take several values and a
/// separator was met, the first one takes the tokens before the first
/// separator.
pub open spec fn takes(
    params: Seq<PositionalParam>,
    dashes: Seq<nat>,
    index: int,
    remaining: int,
) -> int {
    if !params[index].data.multiple {
        1
    } else if index == 0 && dashes.len() > 0 && params.len() == 2 && params[1].data.multiple {
        dashes[0] as int
    } else {
        let after = params.len() - index - 1;
        if remaining - after > 1 {
            remaining - after
        } else {
            1
        }
    }
}

/// The groups for the parameters from `index` on, given that the tokens
/// before `from` are taken; a last group holds the tokens that are left
/// when the parameters run out.
pub open spec fn allocation_from(
    params: Seq<PositionalParam>,
    words: Seq<Seq<char>>,
    dashes: Seq<nat>,
    index: int,
    from: int,
) -> Seq<Seq<Seq<char>>>
    decreases params.len() - index,
{
    if from >= words.len() {
        Seq::empty()
    } else if index >= params.len() {
        seq![words.subrange(from, words.len() as int)]
    } else {
        let n = takes(params, dashes, index, words.len() - from);
        seq![words.subrange(from, from + n)] + allocation_from(
            params,
            words,
            dashes,
            index + 1,
            from + n,
        )
    }
}

/// The positional tokens `words` in groups: one group per parameter, in
/// order, for as long as tokens are left, and a further group for the tokens
/// that no parameter takes.
pub open spec fn allocation(
    params: Seq<PositionalParam>,
    words: Seq<Seq<char>>,
    dashes: Seq<nat>,
) -> Seq<Seq<Seq<char>>> {
    allocation_from(params, words, dashes, 0, 0)
}

/// The tokens of each group.
pub open spec fn groups_view(groups: Seq<Vec<&str>>) -> Seq<Seq<Seq<char>>> {
    Seq::new(groups.len(), |i: int| tokens(groups[i]@))
}

/// The tokens of `list` from `from` up to `to`.
pub fn slice_tokens<'b>(list: &Vec<&'b str>, from: usize, to: usize) -> (part: Vec<&'b str>)
    requires
        from <= to <= list@.len(),
    ensures
        tokens(part@) == tokens(list@).subrange(from as int, to as int),
        part@.len() == to - from,
{
    let mut part: Vec<&'b str> = Vec::new();
    let mut i: usize = from;
    while i < to
        invariant
            from <= i <= to <= list@.len(),
            part@.len() == i - from,
            forall|j: int| 0 <= j < part@.len() ==> part@[j]@ == list@[from + j]@,
        decreases to - i,
    {
        part.push(list[i]);
        i += 1;
    }
    proof {
        assert(tokens(part@) =~= tokens(list@).subrange(from as int, to as int));
    }
    part
}

impl<'a, 'b> Matcher<'a, 'b> {
    /// The positional parameters of the innermost command.
    pub open(crate) spec fn spec_positional_params(&self) -> Seq<PositionalParam> {
        self.session().path.last().cmd.positional_params@
    }

    /// The positional tokens in groups, one per positional parameter of the
    /// innermost command, and a further group for the tokens that are left.
    pub fn match_positionals(&self) -> (output: Vec<Vec<&'b str>>)
        ensures
            groups_view(output@) == allocation(
                self.spec_positional_params(),
                self.session().positionals,
                self.session().dashes,
            ),
    {
        proof {
            use_type_invariant(self);
        }
        let mut output: Vec<Vec<&'b str>> = Vec::new();
        let args_len: usize = self.positional_args.len();
        let cmd = self.cmds[self.cmds.len() - 1].cmd;
        let params_len: usize = cmd.positional_params.len();
        let ghost params = cmd.positional_params@;
        let ghost words = tokens(self.positional_args@);
        let ghost dashes = self.session().dashes;
        let mut arg_index: usize = 0;
        let mut param_index: usize = 0;
        proof {
            assert(self.session().path.last().cmd == *cmd);
        }
        while param_index < params_len && arg_index < args_len
            invariant
                params == cmd.positional_params@,
                params_len == params.len(),
                words == tokens(self.positional_args@),
                args_len == self.positional_args@.len(),
                dashes == crate::matcher::dashes_view(self.dashes@),
                forall|i: int|
                    0 <= i < self.dashes@.len() ==> #[trigger] self.dashes@[i] <= args_len,
                param_index <= params_len,
                arg_index <= args_len,
                param_index == 0 ==> arg_index == 0,
                groups_view(output@) + allocation_from(
                    params,
                    words,
                    dashes,
                    param_index as int,
                    arg_index as int,
                ) == allocation(params, words, dashes),
            decreases params_len - param_index,
        {
            let ghost sofar = groups_view(output@);
            let param = &cmd.positional_params[param_index];
            let takes: usize = if !param.multiple() {
                1
            } else if param_index == 0 && self.dashes.len() > 0 && params_len == 2
                && cmd.positional_params[1].multiple() {
                self.dashes[0]
            } else {
                let after: usize = params_len - param_index - 1;
                let remaining: usize = args_len - arg_index;
                if remaining > after && remaining - after > 1 {
                    remaining - after
                } else {
                    1
                }
            };
            let group = slice_tokens(&self.positional_args, arg_index, arg_index + takes);
            output.push(group);
            proof {
                assert(groups_view(output@) =~= sofar + seq![
                    words.subrange(arg_index as int, arg_index + takes),
                ]);
                assert(sofar + allocation_from(
                    params,
                    words,
                    dashes,
                    param_index as int,
                    arg_index as int,
                ) =~= groups_view(output@) + allocation_from(
                    params,
                    words,
                    dashes,
                    param_index + 1,
                    arg_index + takes,
                ));
            }
            arg_index += takes;
            param_index += 1;
        }
        if arg_index < args_len {
            let ghost sofar = groups_view(output@);
            let group = slice_tokens(&self.positional_args, arg_index, args_len);
            output.push(group);
            proof {
                assert(groups_view(output@) =~= sofar + seq![
                    words.subrange(arg_index as int, args_len as int),
                ]);
            }
        } else {
            proof {
                assert(groups_view(output@) + Seq::<Seq<Seq<char>>>::empty() =~= groups_view(
                    output@,
                ));
            }
        }
        output
    }
}

/// The groups from `index` on when every parameter from `index` on but the
/// last takes a single value, the last takes several, and at least one token
/// is left for each of them.
proof fn lemma_singles_then_rest(
    params: Seq<PositionalParam>,
    words: Seq<Seq<char>>,
    dashes: Seq<nat>,
    index: int,
)
    requires
        0 <= index < params.len(),
        params.last().data.multiple,
        forall|i: int| 0 <= i < params.len() - 1 ==> !(#[trigger] params[i]).data.multiple,
        words.len() >= params.len(),
    ensures
        allocation_from(params, words, dashes, index, index) == Seq::new(
            (params.len() - index) as nat,
            |j: int|
                if index + j < params.len() - 1 {
                    seq![words[index + j]]
                } else {
                    words.subrange(params.len() - 1, words.len() as int)
                },
        ),
    decreases params.len() - index,
{
    let n = params.len() as int;
    let wanted = Seq::new(
        (n - index) as nat,
        |j: int|
            if index + j < n - 1 {
                seq![words[index + j]]
            } else {
                words.subrange(n - 1, words.len() as int)
            },
    );
    if index < n - 1 {
        lemma_singles_then_rest(params, words, dashes, index + 1);
        assert(!params[index].data.multiple);
        assert(words.subrange(index, index + 1) =~= seq![words[index]]);
        assert(allocation_from(params, words, dashes, index, index) =~= wanted);
    } else {
        assert(params[index] == params.last());
        let took = takes(params, dashes, index, words.len() - index);
        assert(took == words.len() - index);
        assert(allocation_from(params, words, dashes, index + 1, words.len() as int)
            =~= Seq::<Seq<Seq<char>>>::empty());
        assert(allocation_from(params, words, dashes, index, index) =~= wanted);
    }
}

/// Where only the last positional parameter takes several values and there
/// are at least as many tokens as parameters, each parameter but the last
/// is given one token, in order, and the last is given all the others: one
/// token when there are as many tokens as parameters, and one more for each
/// further token.
pub proof fn lemma_last_variadic_takes_rest(
    params: Seq<PositionalParam>,
    words: Seq<Seq<char>>,
    dashes: Seq<nat>,
)
    requires
        params.len() > 0,
        params.last().data.multiple,
        forall|i: int| 0 <= i < params.len() - 1 ==> !(#[trigger] params[i]).data.multiple,
        words.len() >= params.len(),
    ensures
        allocation(params, words, dashes).len() == params.len(),
        forall|i: int|
            0 <= i < params.len() - 1 ==> #[trigger] allocation(params, words, dashes)[i]
                == seq![words[i]],
        allocation(params, words, dashes).last() == words.subrange(
            params.len() - 1,
            words.len() as int,
        ),
        allocation(params, words, dashes).last().len() == words.len() - params.len() + 1,
{
    lemma_singles_then_rest(params, words, dashes, 0);
}

proof fn lemma_separators_ignored_from(
    params: Seq<PositionalParam>,
    words: Seq<Seq<char>>,
    dashes: Seq<nat>,
    index: int,
    from: int,
)
    requires
        0 <= index,
        !(params.len() == 2 && params[0].data.multiple && params[1].data.multiple),
    ensures
        allocation_from(params, words, dashes, index, from) == allocation_from(
            params,
            words,
            Seq::empty(),
            index,
            from,
        ),
    decreases params.len() - index,
{
    if from < words.len() && index < params.len() {
        let n = takes(params, dashes, index, words.len() - from);
        assert(n == takes(params, Seq::empty(), index, words.len() - from));
        lemma_separators_ignored_from(params, words, dashes, index + 1, from + n);
    }
}

/// Separators do not change the allocation, unless there are exactly two
/// positional parameters and both take several values.
pub proof fn lemma_separators_ignored(
    params: Seq<PositionalParam>,
    words: Seq<Seq<char>>,
    dashes: Seq<nat>,
)
    requires
        !(params.len() == 2 && params[0].data.multiple && params[1].data.multiple),
    ensures
        allocation(params, words, dashes) == allocation(params, words, Seq::empty()),
{
    lemma_separators_ignored_from(params, words, dashes, 0, 0);
}

/// Where there are exactly two positional parameters, both of which take
/// several values, the first separator splits the tokens: the first
/// parameter is given the tokens before it and the second one those after
/// it, if there are any.
pub proof fn lemma_separator_splits(
    params: Seq<PositionalParam>,
    words: Seq<Seq<char>>,
    dashes: Seq<nat>,
)
    requires
        params.len() == 2,
        params[0].data.multiple,
        params[1].data.multiple,
        dashes.len() > 0,
        dashes[0] <= words.len(),
        words.len() > 0,
    ensures
        allocation(params, words, dashes) == if dashes[0] < words.len() {
            seq![
                words.subrange(0, dashes[0] as int),
                words.subrange(dashes[0] as int, words.len() as int),
            ]
        } else {
            seq![words]
        },
{
    let cut = dashes[0] as int;
    let len = words.len() as int;
    assert(takes(params, dashes, 0, len) == cut);
    if cut < len {
        assert(takes(params, dashes, 1, len - cut) == len - cut);
        assert(allocation_from(params, words, dashes, 2, len) =~= Seq::<
            Seq<Seq<char>>,
        >::empty());
        assert(allocation_from(params, words, dashes, 1, cut) =~= seq![
            words.subrange(cut, len),
        ]);
        assert(allocation(params, words, dashes) =~= seq![
            words.subrange(0, cut),
            words.subrange(cut, len),
        ]);
    } else {
        assert(words.subrange(0, len) =~= words);
        assert(allocation_from(params, words, dashes, 1, len) =~= Seq::<
            Seq<Seq<char>>,
        >::empty());
        assert(allocation(params, words, dashes) =~= seq![words]);
    }
}

} // verus!
