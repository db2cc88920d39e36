//! Dynamic choices: which routines are to be run for the values they list,
//! and what their output holds.

use vstd::prelude::*;
use vstd::string::*;
use crate::matcher::Matcher;
use crate::text::{
    chars_of, first_index_of, lemma_first_index_unique, string_of, texts, to_strings,
};
use crate::validate::ChoiceEntry;

verus! {

/// Whether `char::is_whitespace` holds of a character.
pub uninterp spec fn is_whitespace(c: char) -> bool;

/// `char::is_whitespace`: whether the character is white space.
#[verifier::external_body]
pub(crate) fn char_is_whitespace(c: char) -> (yes: bool)
    ensures
        yes == is_whitespace(c),
{
    c.is_whitespace()
}

/// The characters that are cut off both ends of a line: white space and
/// NUL.
pub open spec fn padding(c: char) -> bool {
    is_whitespace(c) || c == '\0'
}

/// `line` without the padding at its start.
pub open spec fn trim_start(line: Seq<char>) -> Seq<char>
    decreases line.len(),
{
    if line.len() > 0 && padding(line[0]) {
        trim_start(line.drop_first())
    } else {
        line
    }
}

/// `line` without the padding at its end.
pub open spec fn trim_end(line: Seq<char>) -> Seq<char>
    decreases line.len(),
{
    if line.len() > 0 && padding(line.last()) {
        trim_end(line.drop_last())
    } else {
        line
    }
}

/// `line` without the padding at both ends.
pub open spec fn trimmed(line: Seq<char>) -> Seq<char> {
    trim_end(trim_start(line))
}

/// The values that the output of a routine lists: its lines, each without
/// the padding at both ends, but for the lines that hold nothing else.
pub open spec fn listed_values(output: Seq<char>) -> Seq<Seq<char>>
    decreases output.len(),
{
    let cut = first_index_of(output, '\n');
    let line = trimmed(output.subrange(0, cut));
    let own = if line.len() > 0 {
        seq![line]
    } else {
        Seq::empty()
    };
    if 0 <= cut < output.len() {
        own + listed_values(output.subrange(cut + 1, output.len() as int))
    } else {
        own
    }
}

/// The first `upto` routines, each with the values that its output lists.
pub open spec fn read_entries(names: Seq<Seq<char>>, outputs: Seq<Seq<char>>, upto: int) -> Seq<
    (Seq<char>, Seq<Seq<char>>),
> {
    Seq::new(upto as nat, |i: int| (names[i], listed_values(outputs[i])))
}

/// The names and values of a table.
pub open spec fn entries_view(table: Seq<ChoiceEntry>) -> Seq<(Seq<char>, Seq<Seq<char>>)> {
    Seq::new(table.len(), |i: int| (table[i].name@, texts(table[i].values@)))
}

/// What is to be run for dynamic choices: the script and the routines, where
/// a script is set and a parameter in scope has its values checked against
/// a routine.
pub open spec fn choices_wanted(script_path: Option<Seq<char>>, choice_fns: Seq<Seq<char>>) -> Option<
    (Seq<char>, Seq<Seq<char>>),
> {
    match script_path {
        Some(path) => if choice_fns.len() > 0 {
            Some((path, choice_fns))
        } else {
            None
        },
        None => None,
    }
}

proof fn lemma_trim_start(line: Seq<char>, from: int)
    requires
        0 <= from <= line.len(),
        forall|j: int| 0 <= j < from ==> padding(line[j]),
        from < line.len() ==> !padding(line[from]),
    ensures
        trim_start(line) == line.subrange(from, line.len() as int),
    decreases from,
{
    if from == 0 {
        assert(line.subrange(0, line.len() as int) =~= line);
    } else {
        let rest = line.drop_first();
        assert forall|j: int| 0 <= j < from - 1 implies padding(rest[j]) by {
            assert(rest[j] == line[j + 1]);
        }
        lemma_trim_start(rest, from - 1);
        assert(rest.subrange(from - 1, rest.len() as int) =~= line.subrange(
            from,
            line.len() as int,
        ));
    }
}

proof fn lemma_trim_end(line: Seq<char>, to: int)
    requires
        0 <= to <= line.len(),
        forall|j: int| to <= j < line.len() ==> padding(line[j]),
        to > 0 ==> !padding(line[to - 1]),
    ensures
        trim_end(line) == line.subrange(0, to),
    decreases line.len() - to,
{
    if to == line.len() {
        assert(line.subrange(0, to) =~= line);
    } else {
        let rest = line.drop_last();
        lemma_trim_end(rest, to);
        assert(rest.subrange(0, to) =~= line.subrange(0, to));
    }
}

/// The values that the output of a routine lists.
pub fn choice_lines(output: &str) -> (values: Vec<String>)
    ensures
        texts(values@) == listed_values(output@),
{
    let letters = chars_of(output);
    let n: usize = letters.len();
    let mut values: Vec<String> = Vec::new();
    let mut start: usize = 0;
    let mut done = false;
    proof {
        assert(letters@.subrange(0, n as int) =~= letters@);
        assert(texts(values@) =~= Seq::<Seq<char>>::empty());
    }
    while !done
        invariant
            n == letters@.len(),
            start <= n,
            !done ==> texts(values@) + listed_values(letters@.subrange(start as int, n as int))
                == listed_values(letters@),
            done ==> texts(values@) == listed_values(letters@),
        decreases n - start + (if done { 0int } else { 1int }),
    {
        let ghost rest = letters@.subrange(start as int, n as int);
        let mut end: usize = start;
        while end < n && letters[end] != '\n'
            invariant
                n == letters@.len(),
                start <= end <= n,
                forall|j: int| start <= j < end ==> letters@[j] != '\n',
            decreases n - end,
        {
            end += 1;
        }
        let mut from: usize = start;
        while from < end && (char_is_whitespace(letters[from]) || letters[from] == '\0')
            invariant
                n == letters@.len(),
                start <= from <= end <= n,
                forall|j: int| start <= j < from ==> padding(letters@[j]),
            decreases end - from,
        {
            from += 1;
        }
        let mut to: usize = end;
        while to > from && (char_is_whitespace(letters[to - 1]) || letters[to - 1] == '\0')
            invariant
                n == letters@.len(),
                from <= to <= end <= n,
                forall|j: int| to <= j < end ==> padding(letters@[j]),
            decreases to - from,
        {
            to -= 1;
        }
        proof {
            let cut = end - start;
            assert forall|j: int| 0 <= j < cut implies rest[j] != '\n' by {
                assert(rest[j] == letters@[start + j]);
            }
            lemma_first_index_unique(rest, '\n', cut);
            let line = rest.subrange(0, cut);
            assert(line =~= letters@.subrange(start as int, end as int));
            assert forall|j: int| 0 <= j < from - start implies padding(line[j]) by {
                assert(line[j] == letters@[start + j]);
            }
            lemma_trim_start(line, from - start);
            let tail = line.subrange(from - start, line.len() as int);
            assert(tail =~= letters@.subrange(from as int, end as int));
            assert forall|j: int| to - from <= j < tail.len() implies padding(tail[j]) by {
                assert(tail[j] == letters@[from + j]);
            }
            if to > from {
                assert(tail[to - from - 1] == letters@[to - 1]);
            }
            lemma_trim_end(tail, to - from);
            assert(tail.subrange(0, to - from) =~= letters@.subrange(from as int, to as int));
            assert(trimmed(line) == letters@.subrange(from as int, to as int));
            if end < n {
                assert(rest.subrange(cut + 1, rest.len() as int) =~= letters@.subrange(
                    end + 1,
                    n as int,
                ));
            }
        }
        let ghost before = texts(values@);
        if to > from {
            let mut line: Vec<char> = Vec::new();
            let mut i: usize = from;
            while i < to
                invariant
                    from <= i <= to <= n,
                    n == letters@.len(),
                    line@ == letters@.subrange(from as int, i as int),
                decreases to - i,
            {
                line.push(letters[i]);
                proof {
                    assert(line@ =~= letters@.subrange(from as int, i + 1));
                }
                i += 1;
            }
            values.push(string_of(&line));
            proof {
                assert(texts(values@) =~= before + seq![
                    letters@.subrange(from as int, to as int),
                ]);
            }
        }
        proof {
            let own = if to > from {
                seq![letters@.subrange(from as int, to as int)]
            } else {
                Seq::<Seq<char>>::empty()
            };
            assert(texts(values@) =~= before + own);
            if end < n {
                assert(before + listed_values(rest) =~= before + own + listed_values(
                    letters@.subrange(end + 1, n as int),
                ));
            } else {
                assert(before + listed_values(rest) =~= before + own);
            }
        }
        if end < n {
            start = end + 1;
        } else {
            done = true;
        }
    }
    values
}

/// The table of what the routines listed: the routine at each position of
/// `names` with the values that the output at the same position lists, for
/// as many positions as both have. The names need not be distinct: where a
/// name stands twice, a lookup in the table is answered by the later entry.
pub fn read_choices(names: &Vec<String>, outputs: &Vec<String>) -> (table: Vec<ChoiceEntry>)
    ensures
        entries_view(table@) == read_entries(
            texts(names@),
            texts(outputs@),
            if names@.len() <= outputs@.len() {
                names@.len() as int
            } else {
                outputs@.len() as int
            },
        ),
{
    let count: usize = if names.len() <= outputs.len() {
        names.len()
    } else {
        outputs.len()
    };
    let mut table: Vec<ChoiceEntry> = Vec::new();
    let mut i: usize = 0;
    while i < count
        invariant
            i <= count,
            count <= names@.len(),
            count <= outputs@.len(),
            table@.len() == i,
            forall|j: int|
                0 <= j < i ==> (#[trigger] table@[j]).name@ == names@[j]@ && texts(
                    table@[j].values@,
                ) == listed_values(outputs@[j]@),
        decreases count - i,
    {
        table.push(
            ChoiceEntry { name: names[i].clone(), values: choice_lines(outputs[i].as_str()) },
        );
        i += 1;
    }
    proof {
        assert(entries_view(table@) =~= read_entries(
            texts(names@),
            texts(outputs@),
            count as int,
        ));
    }
    table
}

impl<'a, 'b> Matcher<'a, 'b> {
    /// What is to be run for dynamic choices: the script and the routines,
    /// or `None` where no script is set or no value is to be checked
    /// against a routine.
    pub fn choices_request(&self) -> (wanted: Option<(String, Vec<String>)>)
        ensures
            (match wanted {
                Some(w) => Some((w.0@, texts(w.1@))),
                None => None,
            }) == choices_wanted(self.spec_script_path(), self.session().choice_fns),
    {
        match &self.script_path {
            Some(path) => {
                if self.choice_fns.len() > 0 {
                    let names = to_strings(&self.choice_fns);
                    Some((path.clone(), names))
                } else {
                    None
                }
            },
            None => None,
        }
    }
}

} // verus!
