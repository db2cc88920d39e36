//! The message and the exit code for each outcome of validation.

use vstd::prelude::*;
use vstd::string::*;
use crate::command::Command;
use crate::matcher::Matcher;
use crate::session::Session;
use crate::text::{join, joined, texts, tokens};
use crate::validate::{Failure, MatchError};

verus! {

/// The level that `level` stands for in a path of `len` levels: itself, or
/// the innermost level where the path is shorter.
pub open spec fn level_within(level: nat, len: nat) -> int {
    if level < len {
        level as int
    } else {
        len - 1
    }
}

/// The names under which the levels of the path up to `level` are shown.
pub open spec fn path_names(s: Session, level: int) -> Seq<Seq<char>> {
    Seq::new((level + 1) as nat, |i: int| s.path[i].name)
}

/// Each of `items` behind two spaces.
pub open spec fn indented(items: Seq<Seq<char>>) -> Seq<Seq<char>> {
    Seq::new(items.len(), |i: int| "  "@ + items[i])
}

/// What every failure message ends with.
pub open spec fn footer() -> Seq<char> {
    "For more information, try '--help'."@
}

/// The usage block and the footer.
pub open spec fn usage_and_footer(usage: Seq<char>) -> Seq<char> {
    "\n\n"@ + usage + "\n\n"@ + footer() + "\n"@
}

/// The message for `failure`.
pub open spec fn message_of(s: Session, failure: Failure) -> Seq<char> {
    let last = s.path.last().cmd;
    match failure {
        Failure::DisplayHelp => last.help@,
        Failure::DisplaySubcommandHelp(name) => match last.spec_find_subcommand(name) {
            Some(k) => last.subcommands@[k].help@,
            None => last.help@,
        },
        Failure::DisplayVersion => last.version@,
        Failure::InvalidSubcommand => "error: `"@ + joined(
            path_names(s, s.path.len() - 1),
            "-"@,
        ) + "` requires a subcommand but one was not provided\n  [subcommands: "@ + joined(
            last.spec_list_subcommand_names(),
            ", "@,
        ) + "]"@ + usage_and_footer(last.usage@),
        Failure::UnknownArgument(level, name) => "error: unexpected argument `"@ + name
            + "` found"@ + usage_and_footer(s.path[level_within(level, s.path.len())].cmd.usage@),
        Failure::MissingRequiredArgument(level, values) =>
            "error: the following required arguments were not provided:\n"@ + joined(
            indented(values),
            "\n"@,
        ) + usage_and_footer(s.path[level_within(level, s.path.len())].cmd.usage@),
        Failure::NotMultipleArgument(level, name) => "error: the argument `"@ + name
            + "` cannot be used multiple times"@ + usage_and_footer(
            s.path[level_within(level, s.path.len())].cmd.usage@,
        ),
        Failure::InvalidValue(_, value, name, choices) => "error: invalid value `"@ + value
            + "` for `"@ + name + "`\n  [possible values: "@ + joined(choices, ", "@) + "]\n\n"@
            + footer() + "\n"@,
        Failure::MismatchValues(level, value) => "error: invalid values for `"@ + value + "`"@
            + usage_and_footer(s.path[level_within(level, s.path.len())].cmd.usage@),
        Failure::NoMoreValue(level, name, value) => "error: unexpected value `"@ + value
            + "` for `"@ + name + "` found; no more were expected "@ + usage_and_footer(
            s.path[level_within(level, s.path.len())].cmd.usage@,
        ),
    }
}

/// The exit code for `failure`: 0 for help and version, 1 for a failure.
pub open spec fn exit_of(failure: Failure) -> int {
    match failure {
        Failure::DisplayHelp => 0,
        Failure::DisplaySubcommandHelp(_) => 0,
        Failure::DisplayVersion => 0,
        _ => 1,
    }
}

/// Appends the usage block and the footer to `message`.
fn push_usage_and_footer(message: &mut String, usage: &str)
    ensures
        final(message)@ == old(message)@ + usage_and_footer(usage@),
{
    let mut tail = String::from_str("\n\n");
    tail.append(usage);
    tail.append("\n\n");
    tail.append("For more information, try '--help'.");
    tail.append("\n");
    message.append(tail.as_str());
}

impl<'a, 'b> Matcher<'a, 'b> {
    /// The command at `level` of the path, or the innermost one where the
    /// path is shorter, with the names under which the levels up to it are
    /// shown.
    pub fn get_cmd_and_paths(&self, level: usize) -> (found: (&'a Command, Vec<&str>))
        ensures
            *found.0 == self.session().path[level_within(
                level as nat,
                self.session().path.len(),
            )].cmd,
            tokens(found.1@) == path_names(
                self.session(),
                level_within(level as nat, self.session().path.len()),
            ),
    {
        proof {
            use_type_invariant(self);
        }
        let at: usize = if level < self.cmds.len() {
            level
        } else {
            self.cmds.len() - 1
        };
        let cmd: &'a Command = self.cmds[at].cmd;
        let mut cmd_paths: Vec<&str> = Vec::new();
        let count: usize = at + 1;
        let mut i: usize = 0;
        while i < count
            invariant
                count == at + 1,
                at < self.cmds@.len(),
                i <= count,
                cmd_paths@.len() == i,
                forall|j: int| 0 <= j < i ==> cmd_paths@[j]@ == self.cmds@[j].name@,
            decreases count - i,
        {
            cmd_paths.push(self.cmds[i].name.as_str());
            i += 1;
        }
        proof {
            assert(tokens(cmd_paths@) =~= path_names(self.session(), at as int));
        }
        (cmd, cmd_paths)
    }

    /// The message for `err` and the exit code: 0 for help and version, 1
    /// for a failure.
    pub fn stringify_match_error(&self, err: &MatchError) -> (shown: (String, i32))
        ensures
            shown.0@ == message_of(self.session(), err@),
            shown.1 == exit_of(err@),
    {
        proof {
            use_type_invariant(self);
        }
        let last: &'a Command = self.cmds[self.cmds.len() - 1].cmd;
        proof {
            assert(self.session().path.last().cmd == *last);
        }
        match err {
            MatchError::DisplayHelp => (last.help.clone(), 0),
            MatchError::DisplaySubcommandHelp(name) => {
                match last.find_subcommand(name.as_str()) {
                    Some(k) => (last.subcommands[k].help.clone(), 0),
                    None => (last.help.clone(), 0),
                }
            },
            MatchError::DisplayVersion => (last.version.clone(), 0),
            MatchError::InvalidSubcommand => {
                let (cmd, cmd_paths) = self.get_cmd_and_paths(self.cmds.len() - 1);
                let mut names: Vec<String> = Vec::new();
                let mut i: usize = 0;
                while i < cmd_paths.len()
                    invariant
                        i <= cmd_paths@.len(),
                        names@.len() == i,
                        forall|j: int| 0 <= j < i ==> names@[j]@ == cmd_paths@[j]@,
                    decreases cmd_paths@.len() - i,
                {
                    names.push(String::from_str(cmd_paths[i]));
                    i += 1;
                }
                proof {
                    assert(texts(names@) =~= tokens(cmd_paths@));
                }
                let mut message = String::from_str("error: `");
                message.append(join(&names, "-").as_str());
                message.append("` requires a subcommand but one was not provided\n  [subcommands: ");
                message.append(join(&cmd.list_subcommand_names(), ", ").as_str());
                message.append("]");
                push_usage_and_footer(&mut message, cmd.usage.as_str());
                (message, 1)
            },
            MatchError::UnknownArgument(level, name) => {
                let (cmd, _) = self.get_cmd_and_paths(*level);
                let mut message = String::from_str("error: unexpected argument `");
                message.append(name.as_str());
                message.append("` found");
                push_usage_and_footer(&mut message, cmd.usage.as_str());
                (message, 1)
            },
            MatchError::MissingRequiredArgument(level, values) => {
                let (cmd, _) = self.get_cmd_and_paths(*level);
                let mut lines: Vec<String> = Vec::new();
                let mut i: usize = 0;
                while i < values.len()
                    invariant
                        i <= values@.len(),
                        lines@.len() == i,
                        forall|j: int| 0 <= j < i ==> lines@[j]@ == "  "@ + values@[j]@,
                    decreases values@.len() - i,
                {
                    let mut line = String::from_str("  ");
                    line.append(values[i].as_str());
                    lines.push(line);
                    i += 1;
                }
                proof {
                    assert(texts(lines@) =~= indented(texts(values@)));
                }
                let mut message = String::from_str(
                    "error: the following required arguments were not provided:\n",
                );
                message.append(join(&lines, "\n").as_str());
                push_usage_and_footer(&mut message, cmd.usage.as_str());
                (message, 1)
            },
            MatchError::NotMultipleArgument(level, name) => {
                let (cmd, _) = self.get_cmd_and_paths(*level);
                let mut message = String::from_str("error: the argument `");
                message.append(name.as_str());
                message.append("` cannot be used multiple times");
                push_usage_and_footer(&mut message, cmd.usage.as_str());
                (message, 1)
            },
            MatchError::InvalidValue(_, value, name, choices) => {
                let mut message = String::from_str("error: invalid value `");
                message.append(value.as_str());
                message.append("` for `");
                message.append(name.as_str());
                message.append("`\n  [possible values: ");
                message.append(join(choices, ", ").as_str());
                message.append("]\n\n");
                message.append("For more information, try '--help'.");
                message.append("\n");
                (message, 1)
            },
            MatchError::MismatchValues(level, value) => {
                let (cmd, _) = self.get_cmd_and_paths(*level);
                let mut message = String::from_str("error: invalid values for `");
                message.append(value.as_str());
                message.append("`");
                push_usage_and_footer(&mut message, cmd.usage.as_str());
                (message, 1)
            },
            MatchError::NoMoreValue(level, name, value) => {
                let (cmd, _) = self.get_cmd_and_paths(*level);
                let mut message = String::from_str("error: unexpected value `");
                message.append(value.as_str());
                message.append("` for `");
                message.append(name.as_str());
                message.append("` found; no more were expected ");
                push_usage_and_footer(&mut message, cmd.usage.as_str());
                (message, 1)
            },
        }
    }
}

} // verus!
