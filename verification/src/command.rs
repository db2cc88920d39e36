//! The command tree: each node declares its parameters and its subcommands.

use vstd::prelude::*;
use vstd::string::*;
use crate::param::{FlagOptionParam, PositionalParam};
use crate::text::{clone_strings, first_index_of, lemma_first_index_unique, str_eq, texts};

verus! {

/// One node of the command tree.
pub struct Command {
    /// The name under which the node is shown; the root usually has none and
    /// is shown under the name it was invoked with.
    pub name: Option<String>,
    /// Further names under which the node is found as a subcommand.
    pub aliases: Vec<String>,
    pub describe: String,
    pub flag_option_params: Vec<FlagOptionParam>,
    pub positional_params: Vec<PositionalParam>,
    pub subcommands: Vec<Command>,
    /// A delegated node parses nothing: every token after the program name
    /// is passed through as a positional value.
    pub delegated: bool,
    /// Whether `-h` asks for help at this node (it does not where a
    /// parameter of the node is spelled `-h`).
    pub help_short_name: bool,
    /// Whether `-V` asks for the version at this node.
    pub version_short_name: bool,
    /// The handler that runs the node itself, if one is registered.
    pub cmd_fn: Option<String>,
    /// The help text of the node.
    pub help: String,
    /// The usage block of the node.
    pub usage: String,
    /// The version text of the node.
    pub version: String,
}

/// Whether `found` is the first position of `hits` that holds `true`, or
/// `None` when no position does.
pub open spec fn first_hit(hits: Seq<bool>) -> Option<int> {
    if first_index_of(hits, true) < hits.len() {
        Some(first_index_of(hits, true))
    } else {
        None
    }
}

impl Command {
    /// A command without parameters, subcommands, handler or texts; `-h`
    /// and `-V` ask for help and for the version.
    pub fn new() -> (cmd: Command)
        ensures
            cmd.name is None,
            cmd.aliases@.len() == 0,
            cmd.flag_option_params@.len() == 0,
            cmd.positional_params@.len() == 0,
            cmd.subcommands@.len() == 0,
            !cmd.delegated,
            cmd.help_short_name,
            cmd.version_short_name,
            cmd.cmd_fn is None,
            cmd.describe@ == Seq::<char>::empty(),
            cmd.help@ == Seq::<char>::empty(),
            cmd.usage@ == Seq::<char>::empty(),
            cmd.version@ == Seq::<char>::empty(),
    {
        Command {
            name: None,
            aliases: Vec::new(),
            describe: String::new(),
            flag_option_params: Vec::new(),
            positional_params: Vec::new(),
            subcommands: Vec::new(),
            delegated: false,
            help_short_name: true,
            version_short_name: true,
            cmd_fn: None,
            help: String::new(),
            usage: String::new(),
            version: String::new(),
        }
    }

    /// A node that declares no flag, no option and no subcommand.
    pub open spec fn spec_no_flags_options_subcommands(&self) -> bool {
        self.flag_option_params@.len() == 0 && self.subcommands@.len() == 0
    }

    /// For each flag or option, whether `word` is one of its spellings.
    pub open spec fn spelling_hits(&self, word: Seq<char>) -> Seq<bool> {
        Seq::new(
            self.flag_option_params@.len(),
            |i: int| self.flag_option_params@[i].spec_is_match(word),
        )
    }

    /// The first flag or option that recognizes the spelling `word`.
    pub open spec fn spec_find_flag_option(&self, word: Seq<char>) -> Option<int> {
        first_hit(self.spelling_hits(word))
    }

    /// For each flag or option, whether `name` is its canonical name.
    pub open spec fn name_hits(&self, name: Seq<char>) -> Seq<bool> {
        Seq::new(
            self.flag_option_params@.len(),
            |i: int| self.flag_option_params@[i].data.name@ == name,
        )
    }

    /// The first flag or option whose canonical name is `name`.
    pub open spec fn spec_find_by_name(&self, name: Seq<char>) -> Option<int> {
        first_hit(self.name_hits(name))
    }

    /// For each flag or option, whether it is required and `name` is its
    /// canonical name.
    pub open spec fn required_hits(&self, name: Seq<char>) -> Seq<bool> {
        Seq::new(
            self.flag_option_params@.len(),
            |i: int|
                self.flag_option_params@[i].data.required && self.flag_option_params@[i].data.name@
                    == name,
        )
    }

    /// The first required flag or option whose canonical name is `name`.
    pub open spec fn spec_find_required(&self, name: Seq<char>) -> Option<int> {
        first_hit(self.required_hits(name))
    }

    /// Whether the node answers to `word` as a subcommand: by its name or by
    /// one of its aliases.
    pub open spec fn answers_to(&self, word: Seq<char>) -> bool {
        ||| (self.name matches Some(name) && name@ == word)
        ||| texts(self.aliases@).contains(word)
    }

    /// For each subcommand, whether it answers to `word`.
    pub open spec fn subcommand_hits(&self, word: Seq<char>) -> Seq<bool> {
        Seq::new(self.subcommands@.len(), |i: int| self.subcommands@[i].answers_to(word))
    }

    /// The first subcommand that answers to `word`.
    pub open spec fn spec_find_subcommand(&self, word: Seq<char>) -> Option<int> {
        first_hit(self.subcommand_hits(word))
    }

    /// The name under which the node is shown when it was reached through
    /// the token `word`.
    pub open spec fn spec_display_name(&self, word: Seq<char>) -> Seq<char> {
        match self.name {
            Some(name) => name@,
            None => word,
        }
    }

    /// The first line of the description.
    pub open spec fn spec_describe_head(&self) -> Seq<char> {
        self.describe@.subrange(0, first_index_of(self.describe@, '\n'))
    }

    /// The names and aliases of the node.
    pub open spec fn spec_list_names(&self) -> Seq<Seq<char>> {
        match self.name {
            Some(name) => seq![name@] + texts(self.aliases@),
            None => texts(self.aliases@),
        }
    }

    /// The names of the first `upto` subcommands that have one.
    pub open spec fn subcommand_names_upto(&self, upto: int) -> Seq<Seq<char>>
        decreases upto,
    {
        if upto <= 0 {
            Seq::empty()
        } else {
            match self.subcommands@[upto - 1].name {
                Some(name) => self.subcommand_names_upto(upto - 1).push(name@),
                None => self.subcommand_names_upto(upto - 1),
            }
        }
    }

    /// The names of the subcommands, in declaration order.
    pub open spec fn spec_list_subcommand_names(&self) -> Seq<Seq<char>> {
        self.subcommand_names_upto(self.subcommands@.len() as int)
    }

    pub fn delegated(&self) -> (yes: bool)
        ensures
            yes == self.delegated,
    {
        self.delegated
    }

    pub fn no_flags_options_subcommands(&self) -> (yes: bool)
        ensures
            yes == self.spec_no_flags_options_subcommands(),
    {
        self.flag_option_params.len() == 0 && self.subcommands.len() == 0
    }

    pub fn match_help_short_name(&self) -> (yes: bool)
        ensures
            yes == self.help_short_name,
    {
        self.help_short_name
    }

    pub fn match_version_short_name(&self) -> (yes: bool)
        ensures
            yes == self.version_short_name,
    {
        self.version_short_name
    }

    /// Whether a handler runs the node itself when no subcommand is chosen.
    pub fn exist_main_fn(&self) -> (yes: bool)
        ensures
            yes == self.cmd_fn is Some,
    {
        self.cmd_fn.is_some()
    }

    pub fn get_cmd_fn(&self) -> (handler: Option<String>)
        ensures
            handler is Some == self.cmd_fn is Some,
            handler matches Some(h) ==> h@ == self.cmd_fn->0@,
    {
        match &self.cmd_fn {
            Some(h) => Some(h.clone()),
            None => None,
        }
    }

    pub fn find_flag_option(&self, word: &str) -> (found: Option<usize>)
        ensures
            found is Some == self.spec_find_flag_option(word@) is Some,
            found matches Some(i) ==> self.spec_find_flag_option(word@) == Some(i as int) && i
                < self.flag_option_params@.len(),
    {
        let ghost hits = self.spelling_hits(word@);
        let mut i: usize = 0;
        while i < self.flag_option_params.len()
            invariant
                i <= self.flag_option_params@.len(),
                hits == self.spelling_hits(word@),
                forall|j: int| 0 <= j < i ==> hits[j] != true,
            decreases self.flag_option_params@.len() - i,
        {
            if self.flag_option_params[i].is_match(word) {
                proof {
                    lemma_first_index_unique(hits, true, i as int);
                }
                return Some(i);
            }
            i += 1;
        }
        proof {
            lemma_first_index_unique(hits, true, i as int);
        }
        None
    }

    /// The first flag or option that recognizes the short spelling made of a
    /// dash and `letter`.
    pub fn find_short(&self, letter: char) -> (found: Option<usize>)
        ensures
            found is Some == self.spec_find_flag_option(seq!['-', letter]) is Some,
            found matches Some(i) ==> self.spec_find_flag_option(seq!['-', letter]) == Some(
                i as int,
            ) && i < self.flag_option_params@.len(),
    {
        let ghost hits = self.spelling_hits(seq!['-', letter]);
        let mut i: usize = 0;
        while i < self.flag_option_params.len()
            invariant
                i <= self.flag_option_params@.len(),
                hits == self.spelling_hits(seq!['-', letter]),
                forall|j: int| 0 <= j < i ==> hits[j] != true,
            decreases self.flag_option_params@.len() - i,
        {
            if self.flag_option_params[i].is_match_short(letter) {
                proof {
                    lemma_first_index_unique(hits, true, i as int);
                }
                return Some(i);
            }
            i += 1;
        }
        proof {
            lemma_first_index_unique(hits, true, i as int);
        }
        None
    }

    /// The first flag or option whose canonical name is `name`.
    pub fn find_by_name(&self, name: &str) -> (found: Option<usize>)
        ensures
            found is Some == self.spec_find_by_name(name@) is Some,
            found matches Some(i) ==> self.spec_find_by_name(name@) == Some(i as int) && i
                < self.flag_option_params@.len(),
    {
        let ghost hits = self.name_hits(name@);
        let mut i: usize = 0;
        while i < self.flag_option_params.len()
            invariant
                i <= self.flag_option_params@.len(),
                hits == self.name_hits(name@),
                forall|j: int| 0 <= j < i ==> hits[j] != true,
            decreases self.flag_option_params@.len() - i,
        {
            if str_eq(self.flag_option_params[i].data.name.as_str(), name) {
                proof {
                    lemma_first_index_unique(hits, true, i as int);
                }
                return Some(i);
            }
            i += 1;
        }
        proof {
            lemma_first_index_unique(hits, true, i as int);
        }
        None
    }

    /// The first required flag or option whose canonical name is `name`.
    pub fn find_required(&self, name: &str) -> (found: Option<usize>)
        ensures
            found is Some == self.spec_find_required(name@) is Some,
            found matches Some(i) ==> self.spec_find_required(name@) == Some(i as int) && i
                < self.flag_option_params@.len(),
    {
        let ghost hits = self.required_hits(name@);
        let mut i: usize = 0;
        while i < self.flag_option_params.len()
            invariant
                i <= self.flag_option_params@.len(),
                hits == self.required_hits(name@),
                forall|j: int| 0 <= j < i ==> hits[j] != true,
            decreases self.flag_option_params@.len() - i,
        {
            if self.flag_option_params[i].required() && str_eq(
                self.flag_option_params[i].data.name.as_str(),
                name,
            ) {
                proof {
                    lemma_first_index_unique(hits, true, i as int);
                }
                return Some(i);
            }
            i += 1;
        }
        proof {
            lemma_first_index_unique(hits, true, i as int);
        }
        None
    }

    /// Whether the node answers to `word` as a subcommand.
    pub fn is_named(&self, word: &str) -> (yes: bool)
        ensures
            yes == self.answers_to(word@),
    {
        if let Some(name) = &self.name {
            if str_eq(name.as_str(), word) {
                return true;
            }
        }
        let mut i: usize = 0;
        while i < self.aliases.len()
            invariant
                i <= self.aliases@.len(),
                forall|j: int| 0 <= j < i ==> texts(self.aliases@)[j] != word@,
            decreases self.aliases@.len() - i,
        {
            if str_eq(self.aliases[i].as_str(), word) {
                assert(texts(self.aliases@)[i as int] == word@);
                return true;
            }
            i += 1;
        }
        false
    }

    pub fn find_subcommand(&self, word: &str) -> (found: Option<usize>)
        ensures
            found is Some == self.spec_find_subcommand(word@) is Some,
            found matches Some(i) ==> self.spec_find_subcommand(word@) == Some(i as int) && i
                < self.subcommands@.len(),
    {
        let ghost hits = self.subcommand_hits(word@);
        let mut i: usize = 0;
        while i < self.subcommands.len()
            invariant
                i <= self.subcommands@.len(),
                hits == self.subcommand_hits(word@),
                forall|j: int| 0 <= j < i ==> hits[j] != true,
            decreases self.subcommands@.len() - i,
        {
            if self.subcommands[i].is_named(word) {
                proof {
                    lemma_first_index_unique(hits, true, i as int);
                }
                return Some(i);
            }
            i += 1;
        }
        proof {
            lemma_first_index_unique(hits, true, i as int);
        }
        None
    }

    /// The name under which the node is shown when it was reached through
    /// the token `word`.
    pub fn display_name(&self, word: &str) -> (shown: String)
        ensures
            shown@ == self.spec_display_name(word@),
    {
        match &self.name {
            Some(name) => name.clone(),
            None => String::from_str(word),
        }
    }

    pub fn describe_head(&self) -> (head: &str)
        ensures
            head@ == self.spec_describe_head(),
    {
        let text = self.describe.as_str();
        let n: usize = text.unicode_len();
        let mut i: usize = 0;
        while i < n && text.get_char(i) != '\n'
            invariant
                n == text@.len(),
                i <= n,
                forall|j: int| 0 <= j < i ==> text@[j] != '\n',
            decreases n - i,
        {
            i += 1;
        }
        proof {
            lemma_first_index_unique(text@, '\n', i as int);
        }
        text.substring_char(0, i)
    }

    pub fn list_names(&self) -> (names: Vec<String>)
        ensures
            texts(names@) == self.spec_list_names(),
    {
        let mut names = clone_strings(&self.aliases);
        if let Some(name) = &self.name {
            names.insert(0, name.clone());
            proof {
                assert(texts(names@) =~= seq![name@] + texts(self.aliases@));
            }
        }
        names
    }

    pub fn list_subcommand_names(&self) -> (names: Vec<String>)
        ensures
            texts(names@) == self.spec_list_subcommand_names(),
    {
        let mut names: Vec<String> = Vec::new();
        let mut i: usize = 0;
        while i < self.subcommands.len()
            invariant
                i <= self.subcommands@.len(),
                texts(names@) == self.subcommand_names_upto(i as int),
            decreases self.subcommands@.len() - i,
        {
            if let Some(name) = &self.subcommands[i].name {
                names.push(name.clone());
                proof {
                    assert(texts(names@) =~= self.subcommand_names_upto(i as int).push(name@));
                }
            }
            i += 1;
        }
        names
    }
}

} // verus!
