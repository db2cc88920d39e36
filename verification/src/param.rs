//! The parameters a command declares: flags and options, which are found by
//! their spelling, and positional parameters, which are found by position.

use vstd::prelude::*;
use vstd::string::*;
use crate::text::{clone_strings, first_index_of, lemma_first_index_unique, str_eq, texts};

verus! {

/// A restriction on the values a parameter accepts.
pub enum ChoiceData {
    /// A fixed list of accepted values.
    Values(Vec<String>),
    /// The name of a routine that lists the accepted values when it is run,
    /// and whether values are to be checked against that list.
    Fn(String, bool),
}

/// What flags, options and positional parameters have in common.
pub struct ParamData {
    /// The canonical name, under which values are bound.
    pub name: String,
    pub describe: String,
    pub required: bool,
    /// Whether the parameter may be given more than once.
    pub multiple: bool,
    /// Whether the parameter takes every token that follows it.
    pub terminated: bool,
    /// The character that separates several values within one token, if the
    /// parameter accepts one.
    pub multi_char: Option<char>,
    pub choice: Option<ChoiceData>,
}

/// A flag (no value) or an option (one value or more per occurrence).
pub struct FlagOptionParam {
    pub data: ParamData,
    /// The spellings under which the parameter is recognized, such as
    /// `--verbose` and `-v`.
    pub spellings: Vec<String>,
    /// One name per value that an occurrence takes; empty for a flag.
    pub arg_value_names: Vec<String>,
}

/// A parameter bound by its position among the positional tokens.
pub struct PositionalParam {
    pub data: ParamData,
    /// The name under which the value is shown.
    pub arg_value_name: String,
}

impl ParamData {
    /// The data of an optional parameter that is given once and accepts any
    /// value.
    pub fn new(name: &str) -> (data: ParamData)
        ensures
            data.name@ == name@,
            data.describe@ == Seq::<char>::empty(),
            !data.required,
            !data.multiple,
            !data.terminated,
            data.multi_char is None,
            data.choice is None,
    {
        ParamData {
            name: String::from_str(name),
            describe: String::new(),
            required: false,
            multiple: false,
            terminated: false,
            multi_char: None,
            choice: None,
        }
    }

    /// The routine that lists the accepted values, with its validate mark.
    pub open spec fn spec_choice_fn(&self) -> Option<(Seq<char>, bool)> {
        match self.choice {
            Some(ChoiceData::Fn(name, validate)) => Some((name@, validate)),
            _ => None,
        }
    }

    /// The routine against whose output values are to be checked, if any.
    pub open spec fn checked_choice_fn(&self) -> Option<Seq<char>> {
        match self.choice {
            Some(ChoiceData::Fn(name, validate)) => if validate {
                Some(name@)
            } else {
                None
            },
            _ => None,
        }
    }

    /// The fixed list of accepted values, if the parameter declares one.
    pub open spec fn spec_choice_values(&self) -> Option<Seq<Seq<char>>> {
        match self.choice {
            Some(ChoiceData::Values(list)) => Some(texts(list@)),
            _ => None,
        }
    }

    /// The first line of the description.
    pub open spec fn spec_describe_head(&self) -> Seq<char> {
        self.describe@.subrange(0, first_index_of(self.describe@, '\n'))
    }

    pub fn choice_fn(&self) -> (found: Option<(&String, bool)>)
        ensures
            found is Some == self.spec_choice_fn() is Some,
            found matches Some(f) ==> self.spec_choice_fn() == Some((f.0@, f.1)),
    {
        match &self.choice {
            Some(ChoiceData::Fn(name, validate)) => Some((name, *validate)),
            _ => None,
        }
    }

    pub fn choice_values(&self) -> (found: Option<&Vec<String>>)
        ensures
            found is Some == self.spec_choice_values() is Some,
            found matches Some(list) ==> self.spec_choice_values() == Some(texts(list@)),
    {
        match &self.choice {
            Some(ChoiceData::Values(list)) => Some(list),
            _ => None,
        }
    }

    pub fn multi_char(&self) -> (mark: Option<char>)
        ensures
            mark == self.multi_char,
    {
        self.multi_char
    }

    pub fn describe_head(&self) -> (head: &str)
        ensures
            head@ == self.spec_describe_head(),
    {
        let text = self.describe.as_str();
        let n: usize = text.unicode_len();
        let mut i: usize = 0;
        while i < n && text.get_char(i) != '\n'
            invariant
                n == text@.len(),
                i <= n,
                forall|j: int| 0 <= j < i ==> text@[j] != '\n',
            decreases n - i,
        {
            i += 1;
        }
        proof {
            lemma_first_index_unique(text@, '\n', i as int);
        }
        text.substring_char(0, i)
    }
}

impl FlagOptionParam {
    /// An optional flag or option with the given spellings; it takes one
    /// value for each of `arg_value_names`.
    pub fn new(name: &str, spellings: Vec<String>, arg_value_names: Vec<String>) -> (param:
        FlagOptionParam)
        ensures
            param.data.name@ == name@,
            !param.data.required,
            !param.data.multiple,
            !param.data.terminated,
            param.data.choice is None,
            param.spellings == spellings,
            param.arg_value_names == arg_value_names,
    {
        FlagOptionParam { data: ParamData::new(name), spellings, arg_value_names }
    }

    /// The number of values one occurrence takes.
    pub open spec fn arity(&self) -> nat {
        self.arg_value_names@.len()
    }

    /// Whether `word` is one of the recognized spellings.
    pub open spec fn spec_is_match(&self, word: Seq<char>) -> bool {
        texts(self.spellings@).contains(word)
    }

    /// The name of the value at `index`: the last name stands for every later
    /// value, and the canonical name for a parameter that declares none.
    pub open spec fn spec_value_name(&self, index: int) -> Seq<char> {
        if self.arg_value_names@.len() == 0 {
            self.data.name@
        } else if 0 <= index < self.arg_value_names@.len() {
            self.arg_value_names@[index]@
        } else {
            self.arg_value_names@.last()@
        }
    }

    /// How the parameter is named in messages: its first spelling, or the
    /// canonical name when it has no spelling.
    pub open spec fn spec_render_name(&self) -> Seq<char> {
        if self.spellings@.len() == 0 {
            self.data.name@
        } else {
            self.spellings@[0]@
        }
    }

    /// `values` shown after `prefix`, each as ` <NAME>`.
    pub open spec fn with_value_names(prefix: Seq<char>, names: Seq<Seq<char>>) -> Seq<char>
        decreases names.len(),
    {
        if names.len() == 0 {
            prefix
        } else {
            Self::with_value_names(prefix, names.drop_last()) + seq![' ', '<'] + names.last()
                + seq!['>']
        }
    }

    /// The parameter with its value names, such as `--out <FILE>`.
    pub open spec fn spec_render_name_values(&self) -> Seq<char> {
        Self::with_value_names(self.spec_render_name(), texts(self.arg_value_names@))
    }

    /// The first value name between angle brackets.
    pub open spec fn spec_render_single_value(&self) -> Seq<char> {
        seq!['<'] + self.spec_value_name(0) + seq!['>']
    }

    pub fn values_size(&self) -> (n: usize)
        ensures
            n == self.arity(),
    {
        self.arg_value_names.len()
    }

    pub fn is_flag(&self) -> (yes: bool)
        ensures
            yes == (self.arity() == 0),
    {
        self.arg_value_names.len() == 0
    }

    pub fn is_option(&self) -> (yes: bool)
        ensures
            yes == (self.arity() > 0),
    {
        self.arg_value_names.len() > 0
    }

    pub fn multiple(&self) -> (yes: bool)
        ensures
            yes == self.data.multiple,
    {
        self.data.multiple
    }

    pub fn required(&self) -> (yes: bool)
        ensures
            yes == self.data.required,
    {
        self.data.required
    }

    pub fn terminated(&self) -> (yes: bool)
        ensures
            yes == self.data.terminated,
    {
        self.data.terminated
    }

    pub fn is_match(&self, word: &str) -> (yes: bool)
        ensures
            yes == self.spec_is_match(word@),
    {
        let mut i: usize = 0;
        while i < self.spellings.len()
            invariant
                i <= self.spellings@.len(),
                forall|j: int| 0 <= j < i ==> texts(self.spellings@)[j] != word@,
            decreases self.spellings@.len() - i,
        {
            if str_eq(self.spellings[i].as_str(), word) {
                assert(texts(self.spellings@)[i as int] == word@);
                return true;
            }
            i += 1;
        }
        false
    }

    /// Whether the short spelling made of a dash and `letter` is recognized.
    pub fn is_match_short(&self, letter: char) -> (yes: bool)
        ensures
            yes == self.spec_is_match(seq!['-', letter]),
    {
        let mut i: usize = 0;
        while i < self.spellings.len()
            invariant
                i <= self.spellings@.len(),
                forall|j: int| 0 <= j < i ==> texts(self.spellings@)[j] != seq!['-', letter],
            decreases self.spellings@.len() - i,
        {
            let spelling = self.spellings[i].as_str();
            if spelling.unicode_len() == 2 && spelling.get_char(0) == '-' && spelling.get_char(1)
                == letter {
                assert(texts(self.spellings@)[i as int] =~= seq!['-', letter]);
                return true;
            }
            i += 1;
        }
        false
    }

    pub fn value_name(&self, index: usize) -> (name: &str)
        ensures
            name@ == self.spec_value_name(index as int),
    {
        let n: usize = self.arg_value_names.len();
        if n == 0 {
            self.data.name.as_str()
        } else if index < n {
            self.arg_value_names[index].as_str()
        } else {
            self.arg_value_names[n - 1].as_str()
        }
    }

    pub fn render_name(&self) -> (shown: String)
        ensures
            shown@ == self.spec_render_name(),
    {
        if self.spellings.len() == 0 {
            self.data.name.clone()
        } else {
            self.spellings[0].clone()
        }
    }

    pub fn render_name_values(&self) -> (shown: String)
        ensures
            shown@ == self.spec_render_name_values(),
    {
        let mut shown = self.render_name();
        let mut i: usize = 0;
        while i < self.arg_value_names.len()
            invariant
                i <= self.arg_value_names@.len(),
                shown@ == Self::with_value_names(
                    self.spec_render_name(),
                    texts(self.arg_value_names@).take(i as int),
                ),
            decreases self.arg_value_names@.len() - i,
        {
            proof {
                let after = texts(self.arg_value_names@).take(i + 1);
                assert(after.drop_last() =~= texts(self.arg_value_names@).take(i as int));
                reveal_strlit(" <");
                reveal_strlit(">");
                assert(" <"@ =~= seq![' ', '<']);
                assert(">"@ =~= seq!['>']);
            }
            shown.append(" <");
            shown.append(self.arg_value_names[i].as_str());
            shown.append(">");
            i += 1;
        }
        proof {
            assert(texts(self.arg_value_names@).take(self.arg_value_names@.len() as int)
                =~= texts(self.arg_value_names@));
        }
        shown
    }

    pub fn render_single_value(&self) -> (shown: String)
        ensures
            shown@ == self.spec_render_single_value(),
    {
        proof {
            reveal_strlit("<");
            reveal_strlit(">");
            assert("<"@ =~= seq!['<']);
            assert(">"@ =~= seq!['>']);
        }
        let mut shown = String::from_str("<");
        shown.append(self.value_name(0));
        shown.append(">");
        shown
    }

    pub fn describe_head(&self) -> (head: &str)
        ensures
            head@ == self.data.spec_describe_head(),
    {
        self.data.describe_head()
    }

    pub fn list_names(&self) -> (names: Vec<String>)
        ensures
            texts(names@) == texts(self.spellings@),
    {
        clone_strings(&self.spellings)
    }
}

impl PositionalParam {
    /// An optional positional parameter that takes one value, shown under
    /// `arg_value_name`.
    pub fn new(name: &str, arg_value_name: &str) -> (param: PositionalParam)
        ensures
            param.data.name@ == name@,
            !param.data.required,
            !param.data.multiple,
            !param.data.terminated,
            param.data.choice is None,
            param.arg_value_name@ == arg_value_name@,
    {
        PositionalParam {
            data: ParamData::new(name),
            arg_value_name: String::from_str(arg_value_name),
        }
    }

    /// The parameter as it is shown in messages: the value name between
    /// angle brackets when it is required and square brackets when it is
    /// not, followed by three dots when it takes several values.
    pub open spec fn spec_render_value(&self) -> Seq<char> {
        let named = if self.data.required {
            seq!['<'] + self.arg_value_name@ + seq!['>']
        } else {
            seq!['['] + self.arg_value_name@ + seq![']']
        };
        if self.data.multiple {
            named + seq!['.', '.', '.']
        } else {
            named
        }
    }

    pub fn multiple(&self) -> (yes: bool)
        ensures
            yes == self.data.multiple,
    {
        self.data.multiple
    }

    pub fn required(&self) -> (yes: bool)
        ensures
            yes == self.data.required,
    {
        self.data.required
    }

    pub fn terminated(&self) -> (yes: bool)
        ensures
            yes == self.data.terminated,
    {
        self.data.terminated
    }

    pub fn describe_head(&self) -> (head: &str)
        ensures
            head@ == self.data.spec_describe_head(),
    {
        self.data.describe_head()
    }

    pub fn render_value(&self) -> (shown: String)
        ensures
            shown@ == self.spec_render_value(),
    {
        proof {
            reveal_strlit("<");
            reveal_strlit(">");
            reveal_strlit("[");
            reveal_strlit("]");
            reveal_strlit("...");
            assert("<"@ =~= seq!['<']);
            assert(">"@ =~= seq!['>']);
            assert("["@ =~= seq!['[']);
            assert("]"@ =~= seq![']']);
            assert("..."@ =~= seq!['.', '.', '.']);
        }
        let mut shown = if self.data.required {
            String::from_str("<")
        } else {
            String::from_str("[")
        };
        shown.append(self.arg_value_name.as_str());
        if self.data.required {
            shown.append(">");
        } else {
            shown.append("]");
        }
        if self.data.multiple {
            shown.append("...");
        }
        shown
    }
}

} // verus!
