use argc::bind::ArgcValue;
use argc::choices::{choice_lines, read_choices};
use argc::command::Command;
use argc::compgen::{comp_flag_option, comp_positional, comp_subcomands, CompColor, CompItem};
use argc::matcher::{ArgComp, FlagOptionArg, Matcher};
use argc::param::{ChoiceData, FlagOptionParam, ParamData, PositionalParam};
use argc::text::{decimal_string, join, split_assign};
use argc::validate::{get_param_choice, ChoiceEntry, MatchError};

const FOOTER: &str = "For more information, try '--help'.";

fn strings(list: &[&str]) -> Vec<String> {
    list.iter().map(|v| v.to_string()).collect()
}

fn data(name: &str) -> ParamData {
    ParamData {
        name: name.to_string(),
        describe: String::new(),
        required: false,
        multiple: false,
        terminated: false,
        multi_char: None,
        choice: None,
    }
}

fn flag(name: &str, spellings: &[&str]) -> FlagOptionParam {
    FlagOptionParam { data: data(name), spellings: strings(spellings), arg_value_names: vec![] }
}

fn option(name: &str, spellings: &[&str], value_names: &[&str]) -> FlagOptionParam {
    FlagOptionParam {
        data: data(name),
        spellings: strings(spellings),
        arg_value_names: strings(value_names),
    }
}

fn positional(name: &str, required: bool, multiple: bool) -> PositionalParam {
    let mut data = data(name);
    data.required = required;
    data.multiple = multiple;
    PositionalParam { data, arg_value_name: name.to_uppercase() }
}

fn command(name: Option<&str>) -> Command {
    let shown = name.unwrap_or("prog");
    Command {
        name: name.map(|v| v.to_string()),
        aliases: vec![],
        describe: String::new(),
        flag_option_params: vec![],
        positional_params: vec![],
        subcommands: vec![],
        delegated: false,
        help_short_name: true,
        version_short_name: true,
        cmd_fn: None,
        help: format!("HELP {shown}"),
        usage: format!("USAGE: {shown}"),
        version: format!("{shown} 1.0"),
    }
}

/// A root with the flag `--verbose`, the option `--out` and the required
/// positional parameter `name`.
fn sample() -> Command {
    let mut root = command(None);
    root.flag_option_params.push(flag("verbose", &["--verbose", "-v"]));
    root.flag_option_params.push(option("out", &["--out", "-o"], &["FILE"]));
    root.positional_params.push(positional("name", true, false));
    root
}

/// A root with the flag `--verbose` and the subcommands `build` and `test`.
fn nested() -> Command {
    let mut root = command(None);
    root.flag_option_params.push(flag("verbose", &["--verbose", "-v"]));
    let mut build = command(Some("build"));
    build.aliases.push("b".to_string());
    build.describe = "Build it\nwith care".to_string();
    build.cmd_fn = Some("build".to_string());
    build.flag_option_params.push(flag("release", &["--release"]));
    root.subcommands.push(build);
    let mut test = command(Some("test"));
    test.describe = "Test it".to_string();
    test.cmd_fn = Some("test".to_string());
    root.subcommands.push(test);
    root
}

fn occurrence<'a>(key: &'a str, values: &[&'a str], param: Option<&'a str>) -> FlagOptionArg<'a, 'a> {
    FlagOptionArg { key, values: values.to_vec(), param }
}

fn verdict(root: &Command, args: &[&str]) -> Option<MatchError> {
    let args = strings(args);
    Matcher::new(root, &args).validate(&vec![])
}

fn groups(root: &Command, args: &[&str]) -> Vec<Vec<String>> {
    let args = strings(args);
    let matcher = Matcher::new(root, &args);
    matcher
        .match_positionals()
        .iter()
        .map(|group| group.iter().map(|v| v.to_string()).collect())
        .collect()
}

fn complete(root: &Command, args: &[&str]) -> Vec<CompItem> {
    let args = strings(args);
    Matcher::new(root, &args).compgen(&strings(&["<", ">"]))
}

fn item(text: &str, describe: &str, kind: CompColor) -> CompItem {
    (text.to_string(), describe.to_string(), kind)
}

fn single(name: &str, value: &str) -> ArgcValue {
    ArgcValue::Single(name.to_string(), value.to_string())
}

fn multiple(name: &str, values: &[&str]) -> ArgcValue {
    ArgcValue::Multiple(name.to_string(), strings(values))
}

#[test]
fn required_positional_after_flag() {
    let root = sample();
    assert_eq!(
        verdict(&root, &["prog", "--verbose"]),
        Some(MatchError::MissingRequiredArgument(0, strings(&["<NAME>"])))
    );
    let args = strings(&["prog", "--verbose", "x"]);
    let matcher = Matcher::new(&root, &args);
    assert_eq!(matcher.validate(&vec![]), None);
    assert_eq!(
        matcher.to_arg_values(&vec![]),
        vec![
            single("verbose", "true"),
            single("name", "x"),
            multiple("_args", &["prog", "--verbose", "x"]),
            single("_index", "0"),
        ]
    );
}

#[test]
fn delegated_root_passes_tokens_through() {
    let mut root = sample();
    root.delegated = true;
    let args = strings(&["prog", "--weird", "-x"]);
    let matcher = Matcher::new(&root, &args);
    assert_eq!(matcher.positional_args(), &vec!["--weird", "-x"]);
    assert_eq!(matcher.flag_option_args(), &vec![Vec::<FlagOptionArg>::new()]);
    assert_eq!(matcher.arg_comp(), &ArgComp::Any);
    assert_eq!(matcher.levels(), 1);
    assert!(matcher.dashes().is_empty());
    assert!(matcher.choice_fns().is_empty());
}

#[test]
fn combined_shorts_expand() {
    let mut root = command(None);
    root.flag_option_params.push(flag("a", &["-a"]));
    root.flag_option_params.push(flag("b", &["-b"]));
    root.flag_option_params.push(option("c", &["-c"], &["C"]));
    root.positional_params.push(positional("rest", false, true));
    let args = strings(&["prog", "-abc", "val", "rest"]);
    let matcher = Matcher::new(&root, &args);
    assert_eq!(
        matcher.flag_option_args(),
        &vec![vec![
            occurrence("-abc", &[], Some("a")),
            occurrence("-abc", &[], Some("b")),
            occurrence("-abc", &["val"], Some("c")),
        ]]
    );
    assert_eq!(matcher.positional_args(), &vec!["rest"]);
    assert_eq!(matcher.validate(&vec![]), None);
    assert_eq!(
        matcher.to_arg_values(&vec![]),
        vec![
            single("a", "true"),
            single("b", "true"),
            single("c", "val"),
            multiple("rest", &["rest"]),
            multiple("_args", &["prog", "-abc", "val", "rest"]),
            single("_index", "0"),
        ]
    );
}

#[test]
fn combined_shorts_need_leading_flags() {
    let mut root = command(None);
    root.flag_option_params.push(flag("a", &["-a"]));
    root.flag_option_params.push(option("c", &["-c"], &["C"]));
    let args = strings(&["prog", "-ca", "-ax"]);
    let matcher = Matcher::new(&root, &args);
    assert_eq!(
        matcher.flag_option_args(),
        &vec![vec![occurrence("-ca", &[], None), occurrence("-ax", &[], None)]]
    );
    assert_eq!(
        matcher.validate(&vec![]),
        Some(MatchError::UnknownArgument(0, "-ca".to_string()))
    );
}

#[test]
fn subcommand_token_descends() {
    let root = nested();
    let args = strings(&["prog", "-v", "b", "--release"]);
    let matcher = Matcher::new(&root, &args);
    assert_eq!(matcher.levels(), 2);
    let entry = matcher.cmd_entry(1).unwrap();
    assert_eq!(entry.token, "b");
    assert_eq!(entry.name, "build");
    assert_eq!(entry.index, 2);
    assert!(matcher.cmd_entry(2).is_none());
    assert_eq!(matcher.cmd_entry(0).unwrap().name, "prog");
    assert_eq!(
        matcher.flag_option_args(),
        &vec![
            vec![occurrence("-v", &[], Some("verbose"))],
            vec![occurrence("--release", &[], Some("release"))],
        ]
    );
    assert!(matcher.positional_args().is_empty());
    let (cmd, paths) = matcher.get_cmd_and_paths(1);
    assert_eq!(cmd.name, Some("build".to_string()));
    assert_eq!(paths, vec!["prog", "build"]);
    let (cmd, paths) = matcher.get_cmd_and_paths(0);
    assert_eq!(cmd.name, None);
    assert_eq!(paths, vec!["prog"]);
    let (cmd, paths) = matcher.get_cmd_and_paths(7);
    assert_eq!(cmd.name, Some("build".to_string()));
    assert_eq!(paths, vec!["prog", "build"]);
}

#[test]
fn subcommand_name_after_separator_is_positional() {
    let root = nested();
    let args = strings(&["prog", "--", "build", "--release"]);
    let matcher = Matcher::new(&root, &args);
    assert_eq!(matcher.levels(), 1);
    assert_eq!(matcher.positional_args(), &vec!["build", "--release"]);
    assert_eq!(matcher.dashes(), &vec![0]);
    assert_eq!(matcher.flag_option_args(), &vec![Vec::<FlagOptionArg>::new()]);
}

#[test]
fn help_is_displayed_whatever_else_is_given() {
    let root = sample();
    assert_eq!(verdict(&root, &["prog", "--help"]), Some(MatchError::DisplayHelp));
    assert_eq!(verdict(&root, &["prog", "-h"]), Some(MatchError::DisplayHelp));
    assert_eq!(verdict(&root, &["prog", "-help"]), Some(MatchError::DisplayHelp));
    assert_eq!(
        verdict(&root, &["prog", "--bogus", "--out", "--help", "x", "y", "z"]),
        Some(MatchError::DisplayHelp)
    );
    let tree = nested();
    let args = strings(&["prog", "--bogus", "build", "--nope", "--help"]);
    let matcher = Matcher::new(&tree, &args);
    assert_eq!(matcher.levels(), 2);
    let found = matcher.validate(&vec![]);
    assert_eq!(found, Some(MatchError::DisplayHelp));
    assert_eq!(
        matcher.stringify_match_error(&found.unwrap()),
        ("HELP build".to_string(), 0)
    );
}

#[test]
fn short_help_gives_way_to_a_parameter() {
    let mut root = sample();
    root.help_short_name = false;
    root.version_short_name = false;
    assert_eq!(
        verdict(&root, &["prog", "-h", "x"]),
        Some(MatchError::UnknownArgument(0, "-h".to_string()))
    );
    assert_eq!(
        verdict(&root, &["prog", "-V", "x"]),
        Some(MatchError::UnknownArgument(0, "-V".to_string()))
    );
    assert_eq!(verdict(&root, &["prog", "--help", "x"]), Some(MatchError::DisplayHelp));
}

#[test]
fn help_parameter_by_name() {
    let mut root = sample();
    root.flag_option_params.push(flag("help", &["--assist"]));
    root.flag_option_params.push(flag("version", &["--release-number"]));
    assert_eq!(verdict(&root, &["prog", "--assist"]), Some(MatchError::DisplayHelp));
    assert_eq!(
        verdict(&root, &["prog", "--release-number", "--assist"]),
        Some(MatchError::DisplayVersion)
    );
}

#[test]
fn version_is_displayed() {
    let root = sample();
    assert_eq!(verdict(&root, &["prog", "--version"]), Some(MatchError::DisplayVersion));
    assert_eq!(verdict(&root, &["prog", "-V"]), Some(MatchError::DisplayVersion));
    assert_eq!(verdict(&root, &["prog", "-version"]), Some(MatchError::DisplayVersion));
    assert_eq!(
        verdict(&root, &["prog", "--version", "--help"]),
        Some(MatchError::DisplayVersion)
    );
    let args = strings(&["prog", "--version"]);
    let matcher = Matcher::new(&root, &args);
    assert_eq!(
        matcher.stringify_match_error(&MatchError::DisplayVersion),
        ("prog 1.0".to_string(), 0)
    );
}

#[test]
fn positional_help_requests() {
    let root = nested();
    assert_eq!(verdict(&root, &["prog", "help"]), Some(MatchError::DisplayHelp));
    assert_eq!(
        verdict(&root, &["prog", "--", "help", "b"]),
        Some(MatchError::DisplaySubcommandHelp("build".to_string()))
    );
    assert_eq!(
        verdict(&root, &["prog", "--", "help", "nope"]),
        Some(MatchError::InvalidValue(
            0,
            "nope".to_string(),
            "<command>".to_string(),
            strings(&["build", "test"])
        ))
    );
    let args = strings(&["prog", "--", "help", "b"]);
    let matcher = Matcher::new(&root, &args);
    assert_eq!(
        matcher.stringify_match_error(&MatchError::DisplaySubcommandHelp("build".to_string())),
        ("HELP build".to_string(), 0)
    );
    assert_eq!(
        matcher.stringify_match_error(&MatchError::DisplaySubcommandHelp("nope".to_string())),
        ("HELP prog".to_string(), 0)
    );
    assert_eq!(
        matcher.stringify_match_error(&MatchError::DisplayHelp),
        ("HELP prog".to_string(), 0)
    );
}

#[test]
fn subcommand_is_required() {
    let root = nested();
    assert_eq!(verdict(&root, &["prog"]), Some(MatchError::DisplayHelp));
    assert_eq!(verdict(&root, &["prog", "x"]), Some(MatchError::InvalidSubcommand));
    assert_eq!(verdict(&root, &["prog", "-v"]), Some(MatchError::InvalidSubcommand));
    let mut runnable = nested();
    runnable.cmd_fn = Some("main".to_string());
    assert_eq!(verdict(&runnable, &["prog"]), None);
    assert_eq!(verdict(&runnable, &["prog", "x"]), Some(MatchError::InvalidSubcommand));
    runnable.positional_params.push(positional("name", false, false));
    assert_eq!(verdict(&runnable, &["prog", "x"]), None);
    assert_eq!(verdict(&root, &["prog", "build"]), None);
}

#[test]
fn invalid_subcommand_message() {
    let root = nested();
    let args = strings(&["prog", "x"]);
    let matcher = Matcher::new(&root, &args);
    assert_eq!(
        matcher.stringify_match_error(&MatchError::InvalidSubcommand),
        (
            format!(
                "error: `prog` requires a subcommand but one was not provided\n  [subcommands: build, test]\n\nUSAGE: prog\n\n{FOOTER}\n"
            ),
            1
        )
    );
    let mut deep = nested();
    deep.subcommands[0].subcommands.push(command(Some("docs")));
    deep.subcommands[0].cmd_fn = None;
    let args = strings(&["prog", "build", "x"]);
    let matcher = Matcher::new(&deep, &args);
    let found = matcher.validate(&vec![]);
    assert_eq!(found, Some(MatchError::InvalidSubcommand));
    assert_eq!(
        matcher.stringify_match_error(&MatchError::InvalidSubcommand),
        (
            format!(
                "error: `prog-build` requires a subcommand but one was not provided\n  [subcommands: docs]\n\nUSAGE: build\n\n{FOOTER}\n"
            ),
            1
        )
    );
}

#[test]
fn unexpected_arguments() {
    let root = sample();
    let args = strings(&["prog", "x", "y", "z"]);
    let matcher = Matcher::new(&root, &args);
    let found = matcher.validate(&vec![]);
    assert_eq!(found, Some(MatchError::UnknownArgument(0, "y".to_string())));
    assert_eq!(
        matcher.stringify_match_error(&found.unwrap()),
        (format!("error: unexpected argument `y` found\n\nUSAGE: prog\n\n{FOOTER}\n"), 1)
    );
    assert_eq!(
        verdict(&root, &["prog", "--bogus", "x"]),
        Some(MatchError::UnknownArgument(0, "--bogus".to_string()))
    );
    let tree = nested();
    assert_eq!(
        verdict(&tree, &["prog", "--bogus", "build"]),
        Some(MatchError::UnknownArgument(0, "--bogus".to_string()))
    );
    assert_eq!(
        verdict(&tree, &["prog", "--bogus", "build", "--nope"]),
        Some(MatchError::UnknownArgument(1, "--nope".to_string()))
    );
    let args = strings(&["prog", "--bogus", "build"]);
    let matcher = Matcher::new(&tree, &args);
    assert_eq!(
        matcher.stringify_match_error(&MatchError::UnknownArgument(1, "--nope".to_string())),
        (format!("error: unexpected argument `--nope` found\n\nUSAGE: build\n\n{FOOTER}\n"), 1)
    );
}

#[test]
fn required_flag_or_option_omitted() {
    let mut root = command(None);
    let mut out = option("out", &["--out", "-o"], &["FILE"]);
    out.data.required = true;
    root.flag_option_params.push(out);
    root.flag_option_params.push(flag("verbose", &["--verbose"]));
    assert_eq!(
        verdict(&root, &["prog", "--verbose"]),
        Some(MatchError::MissingRequiredArgument(0, strings(&["--out <FILE>"])))
    );
    assert_eq!(verdict(&root, &["prog", "--out", "f"]), None);
    assert_eq!(verdict(&root, &["prog", "-o", "f"]), None);
    let mut forced = command(None);
    let mut force = flag("force", &["--force"]);
    force.data.required = true;
    forced.flag_option_params.push(force);
    assert_eq!(
        verdict(&forced, &["prog"]),
        Some(MatchError::MissingRequiredArgument(0, strings(&["--force"])))
    );
    assert_eq!(verdict(&forced, &["prog", "--force"]), None);
}

#[test]
fn missing_names_follow_the_set_order() {
    let mut root = command(None);
    for name in ["a", "b", "c", "d"] {
        let mut param = flag(name, &[&format!("--{name}")]);
        param.data.required = true;
        root.flag_option_params.push(param);
    }
    assert_eq!(
        verdict(&root, &["prog"]),
        Some(MatchError::MissingRequiredArgument(0, strings(&["--a", "--b", "--c", "--d"])))
    );
    assert_eq!(
        verdict(&root, &["prog", "--a"]),
        Some(MatchError::MissingRequiredArgument(0, strings(&["--d", "--b", "--c"])))
    );
    assert_eq!(
        verdict(&root, &["prog", "--a", "--d", "--a"]),
        Some(MatchError::MissingRequiredArgument(0, strings(&["--c", "--b"])))
    );
    assert_eq!(
        verdict(&root, &["prog", "--d"]),
        Some(MatchError::MissingRequiredArgument(0, strings(&["--a", "--b", "--c"])))
    );
}

#[test]
fn missing_is_reported_for_the_deepest_level() {
    let mut root = nested();
    let mut token = option("token", &["--token"], &["TOKEN"]);
    token.data.required = true;
    root.flag_option_params.push(token);
    assert_eq!(
        verdict(&root, &["prog", "build"]),
        Some(MatchError::MissingRequiredArgument(0, strings(&["--token <TOKEN>"])))
    );
    root.subcommands[0].positional_params.push(positional("target", true, false));
    let mut jobs = option("jobs", &["--jobs"], &["N"]);
    jobs.data.required = true;
    root.subcommands[0].flag_option_params.push(jobs);
    let args = strings(&["prog", "build"]);
    let matcher = Matcher::new(&root, &args);
    let found = matcher.validate(&vec![]);
    assert_eq!(
        found,
        Some(MatchError::MissingRequiredArgument(1, strings(&["<TARGET>", "--jobs <N>"])))
    );
    assert_eq!(
        matcher.stringify_match_error(&found.unwrap()),
        (
            format!(
                "error: the following required arguments were not provided:\n  <TARGET>\n  --jobs <N>\n\nUSAGE: build\n\n{FOOTER}\n"
            ),
            1
        )
    );
    assert_eq!(
        verdict(&root, &["prog", "build", "x", "--jobs", "2"]),
        Some(MatchError::MissingRequiredArgument(0, strings(&["--token <TOKEN>"])))
    );
    assert_eq!(verdict(&root, &["prog", "--token", "t", "build", "x", "--jobs", "2"]), None);
}

#[test]
fn missing_comes_before_unknown_arguments() {
    let root = sample();
    assert_eq!(
        verdict(&root, &["prog", "--bogus"]),
        Some(MatchError::MissingRequiredArgument(0, strings(&["<NAME>"])))
    );
}

#[test]
fn argument_used_multiple_times() {
    let root = sample();
    let args = strings(&["prog", "-v", "--verbose", "x"]);
    let matcher = Matcher::new(&root, &args);
    let found = matcher.validate(&vec![]);
    assert_eq!(found, Some(MatchError::NotMultipleArgument(0, "--verbose".to_string())));
    assert_eq!(
        matcher.stringify_match_error(&found.unwrap()),
        (
            format!(
                "error: the argument `--verbose` cannot be used multiple times\n\nUSAGE: prog\n\n{FOOTER}\n"
            ),
            1
        )
    );
    let mut repeatable = sample();
    repeatable.flag_option_params[0].data.multiple = true;
    assert_eq!(verdict(&repeatable, &["prog", "-v", "--verbose", "x"]), None);
}

#[test]
fn occurrences_are_checked_name_by_name() {
    let root = sample();
    assert_eq!(
        verdict(&root, &["prog", "x", "-v", "--out", "-v"]),
        Some(MatchError::NotMultipleArgument(0, "--verbose".to_string()))
    );
    assert_eq!(
        verdict(&root, &["prog", "x", "--out", "-v", "-v"]),
        Some(MatchError::MismatchValues(0, "--out <FILE>".to_string()))
    );
    assert_eq!(
        verdict(&root, &["prog", "x", "--out", "a", "-v", "--out", "b", "-v"]),
        Some(MatchError::NotMultipleArgument(0, "--out".to_string()))
    );
}

#[test]
fn mismatched_values() {
    let root = sample();
    let args = strings(&["prog", "x", "--out"]);
    let matcher = Matcher::new(&root, &args);
    let found = matcher.validate(&vec![]);
    assert_eq!(found, Some(MatchError::MismatchValues(0, "--out <FILE>".to_string())));
    assert_eq!(
        matcher.stringify_match_error(&found.unwrap()),
        (format!("error: invalid values for `--out <FILE>`\n\nUSAGE: prog\n\n{FOOTER}\n"), 1)
    );
    let mut pair = sample();
    pair.flag_option_params.push(option("size", &["--size"], &["W", "H"]));
    assert_eq!(
        verdict(&pair, &["prog", "x", "--size", "1"]),
        Some(MatchError::MismatchValues(0, "--size <W> <H>".to_string()))
    );
    assert_eq!(verdict(&pair, &["prog", "x", "--size", "1", "2"]), None);
}

#[test]
fn flag_takes_no_value() {
    let root = sample();
    let args = strings(&["prog", "--verbose=1", "x"]);
    let matcher = Matcher::new(&root, &args);
    assert_eq!(
        matcher.flag_option_args(),
        &vec![vec![occurrence("--verbose", &["1"], Some("verbose"))]]
    );
    let found = matcher.validate(&vec![]);
    assert_eq!(
        found,
        Some(MatchError::NoMoreValue(0, "--verbose".to_string(), "1".to_string()))
    );
    assert_eq!(
        matcher.stringify_match_error(&found.unwrap()),
        (
            format!(
                "error: unexpected value `1` for `--verbose` found; no more were expected \n\nUSAGE: prog\n\n{FOOTER}\n"
            ),
            1
        )
    );
}

#[test]
fn values_outside_the_choices() {
    let mut root = sample();
    let mut color = option("color", &["--color"], &["COLOR"]);
    color.data.choice = Some(ChoiceData::Values(strings(&["red", "green"])));
    root.flag_option_params.push(color);
    root.positional_params[0].data.choice = Some(ChoiceData::Values(strings(&["x", "y"])));
    let args = strings(&["prog", "x", "--color", "blue"]);
    let matcher = Matcher::new(&root, &args);
    let found = matcher.validate(&vec![]);
    assert_eq!(
        found,
        Some(MatchError::InvalidValue(
            0,
            "blue".to_string(),
            "<COLOR>".to_string(),
            strings(&["red", "green"])
        ))
    );
    assert_eq!(
        matcher.stringify_match_error(&found.unwrap()),
        (
            format!(
                "error: invalid value `blue` for `<COLOR>`\n  [possible values: red, green]\n\n{FOOTER}\n"
            ),
            1
        )
    );
    assert_eq!(verdict(&root, &["prog", "y", "--color", "green"]), None);
    assert_eq!(
        verdict(&root, &["prog", "z", "--color", "blue"]),
        Some(MatchError::InvalidValue(
            0,
            "z".to_string(),
            "<NAME>".to_string(),
            strings(&["x", "y"])
        ))
    );
}

#[test]
fn dynamic_choices_are_checked_when_listed() {
    let mut root = sample();
    let mut color = option("color", &["--color"], &["COLOR"]);
    color.data.choice = Some(ChoiceData::Fn("_choice_color".to_string(), true));
    root.flag_option_params.push(color);
    let mut shade = option("shade", &["--shade"], &["SHADE"]);
    shade.data.choice = Some(ChoiceData::Fn("_choice_shade".to_string(), false));
    root.flag_option_params.push(shade);
    let args = strings(&["prog", "x", "--color", "blue", "--shade", "dark"]);
    let mut matcher = Matcher::new(&root, &args);
    assert_eq!(matcher.choice_fns(), &vec!["_choice_color"]);
    assert_eq!(matcher.validate(&vec![]), None);
    assert_eq!(matcher.choices_request(), None);
    assert_eq!(matcher.script_path(), None);
    matcher.set_script_path("/tmp/script.sh");
    matcher.set_term_width(80);
    assert_eq!(matcher.script_path(), Some(&"/tmp/script.sh".to_string()));
    assert_eq!(matcher.term_width(), Some(80));
    assert_eq!(
        matcher.choices_request(),
        Some(("/tmp/script.sh".to_string(), strings(&["_choice_color"])))
    );
    let table = read_choices(
        &strings(&["_choice_color", "_choice_shade"]),
        &strings(&["red\ngreen\n", "light\n"]),
    );
    assert_eq!(
        matcher.validate(&table),
        Some(MatchError::InvalidValue(
            0,
            "blue".to_string(),
            "<COLOR>".to_string(),
            strings(&["red", "green"])
        ))
    );
    let other = read_choices(&strings(&["_choice_shade"]), &strings(&["light\n"]));
    assert_eq!(matcher.validate(&other), None);
}

#[test]
fn choice_routines_are_noted_once() {
    let mut root = command(None);
    let mut color = option("color", &["--color"], &["COLOR"]);
    color.data.choice = Some(ChoiceData::Fn("_choice_color".to_string(), true));
    root.flag_option_params.push(color);
    let mut tint = option("tint", &["--tint"], &["TINT"]);
    tint.data.choice = Some(ChoiceData::Fn("_choice_color".to_string(), true));
    root.flag_option_params.push(tint);
    let mut size = option("size", &["--size"], &["SIZE"]);
    size.data.choice = Some(ChoiceData::Fn("_choice_size".to_string(), true));
    root.flag_option_params.push(size);
    let mut name = positional("name", false, false);
    name.data.choice = Some(ChoiceData::Fn("_choice_name".to_string(), true));
    root.positional_params.push(name);
    let mut kind = positional("kind", false, false);
    kind.data.choice = Some(ChoiceData::Fn("_choice_kind".to_string(), false));
    root.positional_params.push(kind);
    let args = strings(&["prog", "--tint=a", "--color", "b", "--tint", "c"]);
    let matcher = Matcher::new(&root, &args);
    assert_eq!(matcher.choice_fns(), &vec!["_choice_color", "_choice_name"]);
    let args = strings(&["prog"]);
    let matcher = Matcher::new(&root, &args);
    assert_eq!(matcher.choice_fns(), &vec!["_choice_name"]);
}

#[test]
fn param_choices() {
    let table = vec![ChoiceEntry { name: "_f".to_string(), values: strings(&["a", "b"]) }];
    let fixed = Some(ChoiceData::Values(strings(&["x"])));
    assert_eq!(get_param_choice(&fixed, &table), Some(&strings(&["x"])));
    let checked = Some(ChoiceData::Fn("_f".to_string(), true));
    assert_eq!(get_param_choice(&checked, &table), Some(&strings(&["a", "b"])));
    let unchecked = Some(ChoiceData::Fn("_f".to_string(), false));
    assert_eq!(get_param_choice(&unchecked, &table), None);
    let unlisted = Some(ChoiceData::Fn("_g".to_string(), true));
    assert_eq!(get_param_choice(&unlisted, &table), None);
    assert_eq!(get_param_choice(&None, &table), None);
}

#[test]
fn classification_is_repeatable() {
    let root = nested();
    let args = strings(&["prog", "-v", "--x=1", "build", "--release", "--", "a", "--", "b"]);
    let first = Matcher::new(&root, &args);
    let second = Matcher::new(&root, &args);
    assert_eq!(first.arg_comp(), second.arg_comp());
    assert_eq!(first.flag_option_args(), second.flag_option_args());
    assert_eq!(first.positional_args(), second.positional_args());
    assert_eq!(first.dashes(), second.dashes());
    assert_eq!(first.choice_fns(), second.choice_fns());
    assert_eq!(first.levels(), second.levels());
    assert_eq!(first.is_last_arg_option_assign(), second.is_last_arg_option_assign());
    assert_eq!(first.args(), second.args());
    assert_eq!(
        first.flag_option_args(),
        &vec![
            vec![occurrence("-v", &[], Some("verbose")), occurrence("--x", &["1"], None)],
            vec![occurrence("--release", &[], Some("release"))],
        ]
    );
    assert_eq!(first.positional_args(), &vec!["a", "b"]);
    assert_eq!(first.dashes(), &vec![0, 1]);
    assert_eq!(first.to_arg_values(&vec![]), second.to_arg_values(&vec![]));
}

#[test]
fn last_variadic_takes_the_rest() {
    let mut root = command(None);
    root.positional_params.push(positional("a", true, false));
    root.positional_params.push(positional("b", true, false));
    root.positional_params.push(positional("rest", true, true));
    assert_eq!(
        groups(&root, &["prog", "x", "y", "z"]),
        vec![strings(&["x"]), strings(&["y"]), strings(&["z"])]
    );
    assert_eq!(
        groups(&root, &["prog", "x", "y", "z", "w", "v"]),
        vec![strings(&["x"]), strings(&["y"]), strings(&["z", "w", "v"])]
    );
    assert_eq!(groups(&root, &["prog", "x"]), vec![strings(&["x"])]);
    assert_eq!(groups(&root, &["prog"]), Vec::<Vec<String>>::new());
    assert_eq!(
        verdict(&root, &["prog", "x"]),
        Some(MatchError::MissingRequiredArgument(0, strings(&["<B>", "<REST>..."])))
    );
}

#[test]
fn variadic_leaves_one_for_each_later_parameter() {
    let mut root = command(None);
    root.positional_params.push(positional("many", false, true));
    root.positional_params.push(positional("last", false, false));
    assert_eq!(
        groups(&root, &["prog", "a", "b", "c"]),
        vec![strings(&["a", "b"]), strings(&["c"])]
    );
    assert_eq!(groups(&root, &["prog", "a"]), vec![strings(&["a"])]);
    assert_eq!(
        groups(&root, &["prog", "a", "b", "c", "d"]),
        vec![strings(&["a", "b", "c"]), strings(&["d"])]
    );
    let mut single_only = command(None);
    single_only.positional_params.push(positional("one", false, false));
    assert_eq!(
        groups(&single_only, &["prog", "a", "b", "c"]),
        vec![strings(&["a"]), strings(&["b", "c"])]
    );
}

#[test]
fn separator_and_allocation() {
    let mut root = command(None);
    root.positional_params.push(positional("a", false, false));
    root.positional_params.push(positional("rest", false, true));
    assert_eq!(
        groups(&root, &["prog", "x", "--", "y", "z"]),
        groups(&root, &["prog", "x", "y", "z"])
    );
    assert_eq!(
        groups(&root, &["prog", "x", "--", "y", "z"]),
        vec![strings(&["x"]), strings(&["y", "z"])]
    );
    let mut two = command(None);
    two.positional_params.push(positional("first", false, true));
    two.positional_params.push(positional("second", false, true));
    assert_eq!(
        groups(&two, &["prog", "a", "b", "c"]),
        vec![strings(&["a", "b"]), strings(&["c"])]
    );
    assert_eq!(
        groups(&two, &["prog", "a", "--", "b", "c"]),
        vec![strings(&["a"]), strings(&["b", "c"])]
    );
    assert_eq!(
        groups(&two, &["prog", "a", "b", "c", "--"]),
        vec![strings(&["a", "b", "c"])]
    );
    assert_eq!(
        groups(&two, &["prog", "--", "a", "b"]),
        vec![Vec::<String>::new(), strings(&["a", "b"])]
    );
    assert_eq!(
        groups(&two, &["prog", "a", "--", "b", "--", "c"]),
        vec![strings(&["a"]), strings(&["b", "c"])]
    );
    let args = strings(&["prog", "a", "--", "b", "--", "c"]);
    let matcher = Matcher::new(&two, &args);
    assert_eq!(matcher.dashes(), &vec![1, 2]);
    assert_eq!(
        matcher.to_arg_values_for_choice_fn(),
        vec![
            multiple("first", &["a"]),
            multiple("second", &["b", "c"]),
            multiple("_args", &["prog", "a", "--", "b", "--", "c"]),
            single("_index", "0"),
            multiple("_dashes", &["1", "2"]),
        ]
    );
}

#[test]
fn inline_assignment() {
    let root = sample();
    let args = strings(&["prog", "x", "--out=a=b"]);
    let matcher = Matcher::new(&root, &args);
    assert_eq!(
        matcher.flag_option_args(),
        &vec![vec![occurrence("--out", &["a=b"], Some("out"))]]
    );
    assert_eq!(matcher.arg_comp(), &ArgComp::OptionValue("out".to_string(), 0));
    assert!(matcher.is_last_arg_option_assign());
    assert_eq!(matcher.validate(&vec![]), None);
    let args = strings(&["prog", "--out=", "x"]);
    let matcher = Matcher::new(&root, &args);
    assert_eq!(
        matcher.flag_option_args(),
        &vec![vec![occurrence("--out", &[""], Some("out"))]]
    );
    assert_eq!(matcher.arg_comp(), &ArgComp::CommandOrPositional);
    assert!(!matcher.is_last_arg_option_assign());
    let args = strings(&["prog", "--nope=1"]);
    let matcher = Matcher::new(&root, &args);
    assert_eq!(matcher.flag_option_args(), &vec![vec![occurrence("--nope", &["1"], None)]]);
    assert_eq!(matcher.arg_comp(), &ArgComp::FlagOrOption);
    assert!(matcher.is_last_arg_option_assign());
}

#[test]
fn guesses() {
    let root = sample();
    let guess = |list: &[&str]| {
        let args = strings(list);
        let matcher = Matcher::new(&root, &args);
        let found: ArgComp = match matcher.arg_comp() {
            ArgComp::FlagOrOption => ArgComp::FlagOrOption,
            ArgComp::FlagOrOptionCombine(v) => ArgComp::FlagOrOptionCombine(v.clone()),
            ArgComp::CommandOrPositional => ArgComp::CommandOrPositional,
            ArgComp::OptionValue(n, i) => ArgComp::OptionValue(n.clone(), *i),
            ArgComp::Any => ArgComp::Any,
        };
        found
    };
    assert_eq!(guess(&["prog"]), ArgComp::CommandOrPositional);
    assert_eq!(guess(&["prog", ""]), ArgComp::Any);
    assert_eq!(guess(&["prog", "x"]), ArgComp::CommandOrPositional);
    assert_eq!(guess(&["prog", "--verbose"]), ArgComp::FlagOrOption);
    assert_eq!(guess(&["prog", "--out"]), ArgComp::OptionValue("out".to_string(), 0));
    assert_eq!(guess(&["prog", "x", "-o"]), ArgComp::OptionValue("out".to_string(), 0));
    assert_eq!(guess(&["prog", "-v"]), ArgComp::FlagOrOptionCombine("-v".to_string()));
    assert_eq!(guess(&["prog", "-"]), ArgComp::FlagOrOption);
    assert_eq!(guess(&["prog", "--out", ""]), ArgComp::OptionValue("out".to_string(), 0));
    assert_eq!(guess(&["prog", "--out", "f"]), ArgComp::OptionValue("out".to_string(), 0));
    assert_eq!(guess(&["prog", "--out", "f", "x"]), ArgComp::CommandOrPositional);
    assert!(ArgComp::FlagOrOption.is_flag_or_option());
    assert!(ArgComp::OptionValue("out".to_string(), 1).is_flag_or_option());
    assert!(!ArgComp::FlagOrOptionCombine("-v".to_string()).is_flag_or_option());
    assert!(!ArgComp::CommandOrPositional.is_flag_or_option());
    assert!(!ArgComp::Any.is_flag_or_option());
}

#[test]
fn option_values_stop_at_a_dash() {
    let mut root = sample();
    root.flag_option_params.push(option("size", &["--size"], &["W", "H"]));
    let args = strings(&["prog", "--size", "1", "-v", "x"]);
    let matcher = Matcher::new(&root, &args);
    assert_eq!(
        matcher.flag_option_args(),
        &vec![vec![
            occurrence("--size", &["1"], Some("size")),
            occurrence("-v", &[], Some("verbose")),
        ]]
    );
    assert_eq!(matcher.positional_args(), &vec!["x"]);
    let args = strings(&["prog", "--size", "1", "2", "3"]);
    let matcher = Matcher::new(&root, &args);
    assert_eq!(
        matcher.flag_option_args(),
        &vec![vec![occurrence("--size", &["1", "2"], Some("size"))]]
    );
    assert_eq!(matcher.positional_args(), &vec!["3"]);
    let args = strings(&["prog", "x", "--size", "1", "2"]);
    let matcher = Matcher::new(&root, &args);
    assert_eq!(matcher.arg_comp(), &ArgComp::OptionValue("size".to_string(), 1));
    assert_eq!(
        matcher.to_arg_values(&vec![]),
        vec![
            multiple("size", &["1", "2"]),
            single("name", "x"),
            multiple("_args", &["prog", "x", "--size", "1", "2"]),
            single("_index", "0"),
        ]
    );
}

#[test]
fn terminated_option_takes_everything() {
    let mut root = sample();
    let mut run = option("run", &["--run"], &["CMD"]);
    run.data.terminated = true;
    root.flag_option_params.push(run);
    let args = strings(&["prog", "x", "--run", "a", "-b", "--", "c"]);
    let matcher = Matcher::new(&root, &args);
    assert_eq!(
        matcher.flag_option_args(),
        &vec![vec![occurrence("--run", &["a", "-b", "--", "c"], Some("run"))]]
    );
    assert_eq!(matcher.positional_args(), &vec!["x"]);
    assert!(matcher.dashes().is_empty());
    assert_eq!(matcher.arg_comp(), &ArgComp::OptionValue("run".to_string(), 3));
    let args = strings(&["prog", "x", "--run"]);
    let matcher = Matcher::new(&root, &args);
    assert_eq!(matcher.arg_comp(), &ArgComp::FlagOrOption);
}

#[test]
fn terminated_positional_turns_the_rest_positional() {
    let mut root = sample();
    let mut rest = positional("rest", false, true);
    rest.data.terminated = true;
    root.positional_params.push(rest);
    let args = strings(&["prog", "-v", "f", "--verbose", "--", "build", "-x"]);
    let matcher = Matcher::new(&root, &args);
    assert_eq!(
        matcher.flag_option_args(),
        &vec![vec![occurrence("-v", &[], Some("verbose"))]]
    );
    assert_eq!(matcher.positional_args(), &vec!["f", "--verbose", "--", "build", "-x"]);
    assert_eq!(matcher.dashes(), &vec![2]);
    assert_eq!(matcher.arg_comp(), &ArgComp::CommandOrPositional);
    assert_eq!(
        matcher.to_arg_values(&vec![]),
        vec![
            single("verbose", "true"),
            single("name", "f"),
            multiple("rest", &["--verbose", "--", "build", "-x"]),
            multiple("_args", &["prog", "-v", "f", "--verbose", "--", "build", "-x"]),
            single("_index", "0"),
        ]
    );
}

#[test]
fn command_without_flags_takes_dashed_tokens() {
    let mut root = command(None);
    root.positional_params.push(positional("rest", false, true));
    let args = strings(&["prog", "-x", "--y=1", "--help"]);
    let matcher = Matcher::new(&root, &args);
    assert_eq!(matcher.positional_args(), &vec!["-x", "--y=1"]);
    assert_eq!(matcher.flag_option_args(), &vec![vec![occurrence("--help", &[], None)]]);
    assert_eq!(matcher.validate(&vec![]), Some(MatchError::DisplayHelp));
}

#[test]
fn bound_values() {
    let mut root = command(None);
    let mut tag = option("tag", &["--tag", "-t"], &["TAG"]);
    tag.data.multiple = true;
    root.flag_option_params.push(tag);
    let mut loud = flag("loud", &["-l"]);
    loud.data.multiple = true;
    root.flag_option_params.push(loud);
    root.flag_option_params.push(option("out", &["--out"], &["FILE"]));
    root.cmd_fn = Some("main".to_string());
    let args = strings(&["prog", "--tag", "a", "-l", "-t", "b", "-l", "--out", "f", "x", "y"]);
    let matcher = Matcher::new(&root, &args);
    assert_eq!(matcher.validate(&vec![]), None);
    assert_eq!(
        matcher.to_arg_values(&vec![]),
        vec![
            multiple("tag", &["a", "b"]),
            single("loud", "true"),
            single("out", "f"),
            multiple(
                "_args",
                &["prog", "--tag", "a", "-l", "-t", "b", "-l", "--out", "f", "x", "y"]
            ),
            single("_index", "0"),
            ArgcValue::ExtraPositionalMultiple(strings(&["x", "y"])),
            ArgcValue::CmdFn("main".to_string()),
        ]
    );
    assert_eq!(
        matcher.to_arg_values_base(),
        vec![
            multiple("tag", &["a", "b"]),
            single("loud", "true"),
            single("out", "f"),
            multiple(
                "_args",
                &["prog", "--tag", "a", "-l", "-t", "b", "-l", "--out", "f", "x", "y"]
            ),
            single("_index", "0"),
        ]
    );
    assert_eq!(matcher.to_arg_values_for_choice_fn(), matcher.to_arg_values_base());
}

#[test]
fn bound_values_of_every_level() {
    let args = strings(&["prog", "-v", "-v", "-v", "-v", "-v", "-v", "-v", "-v", "-v", "-v", "-v", "build", "--release"]);
    let mut tree = nested();
    tree.flag_option_params[0].data.multiple = true;
    let matcher = Matcher::new(&tree, &args);
    assert_eq!(matcher.levels(), 2);
    let mut expected = vec![single("verbose", "true"), single("release", "true")];
    expected.push(ArgcValue::Multiple("_args".to_string(), args.clone()));
    expected.push(single("_index", "12"));
    expected.push(ArgcValue::CmdFn("build".to_string()));
    assert_eq!(matcher.to_arg_values(&vec![]), expected);
}

#[test]
fn failure_is_bound_as_an_error() {
    let root = sample();
    let args = strings(&["prog", "--bogus", "x"]);
    let matcher = Matcher::new(&root, &args);
    assert_eq!(
        matcher.to_arg_values(&vec![]),
        vec![ArgcValue::Error((
            format!("error: unexpected argument `--bogus` found\n\nUSAGE: prog\n\n{FOOTER}\n"),
            1
        ))]
    );
    let args = strings(&["prog", "--help"]);
    let matcher = Matcher::new(&root, &args);
    assert_eq!(
        matcher.to_arg_values(&vec![]),
        vec![ArgcValue::Error(("HELP prog".to_string(), 0))]
    );
}

#[test]
fn completion_after_a_redirection() {
    let root = sample();
    assert_eq!(
        complete(&root, &["prog", "x", ">", ""]),
        vec![item("__argc_value=path", "", CompColor::OfValue)]
    );
}

#[test]
fn completion_of_flags_and_options() {
    let mut root = sample();
    root.flag_option_params[0].data.describe = "Say more\nthan usual".to_string();
    root.flag_option_params[1].data.describe = "Write there".to_string();
    assert_eq!(
        complete(&root, &["prog", "-"]),
        vec![
            item("--verbose", "Say more", CompColor::OfFlag),
            item("-v", "Say more", CompColor::OfFlag),
            item("--out", "Write there", CompColor::OfOption),
            item("-o", "Write there", CompColor::OfOption),
        ]
    );
    assert_eq!(
        complete(&root, &["prog", "--verbose"]),
        vec![
            item("--out", "Write there", CompColor::OfOption),
            item("-o", "Write there", CompColor::OfOption),
            item("--verbose", "Say more", CompColor::OfFlag),
        ]
    );
    assert_eq!(
        complete(&root, &["prog", "-v"]),
        vec![item("-v", "", CompColor::OfFlag), item("-vo", "Write there", CompColor::OfOption)]
    );
    root.flag_option_params.push(flag("quiet", &["-q"]));
    assert_eq!(
        complete(&root, &["prog", "-v"]),
        vec![
            item("-vo", "Write there", CompColor::OfOption),
            item("-vq", "", CompColor::OfFlag),
        ]
    );
    let args = strings(&["prog", "-v"]);
    let matcher = Matcher::new(&root, &args);
    assert_eq!(
        matcher.comp_flag_options(),
        vec![
            item("--out", "Write there", CompColor::OfOption),
            item("-o", "Write there", CompColor::OfOption),
            item("-q", "", CompColor::OfFlag),
        ]
    );
}

#[test]
fn completion_of_option_values() {
    let mut root = sample();
    root.flag_option_params[1].data.describe = "Write there".to_string();
    assert_eq!(
        complete(&root, &["prog", "--out", ""]),
        vec![item("__argc_value=FILE", "Write there", CompColor::OfValue)]
    );
    assert_eq!(
        complete(&root, &["prog", "--out="]),
        vec![item("__argc_value=FILE", "Write there", CompColor::OfValue)]
    );
    root.flag_option_params[1].data.choice = Some(ChoiceData::Values(strings(&["a", "b"])));
    root.flag_option_params[1].data.multi_char = Some(',');
    assert_eq!(
        complete(&root, &["prog", "--out", ""]),
        vec![
            item("__argc_multi=,", "", CompColor::OfValue),
            item("a", "", CompColor::OfValue),
            item("b", "", CompColor::OfValue),
        ]
    );
    root.flag_option_params[1].data.multi_char = None;
    root.flag_option_params[1].data.choice =
        Some(ChoiceData::Fn("_choice_out".to_string(), false));
    assert_eq!(
        complete(&root, &["prog", "--out", ""]),
        vec![item("__argc_fn=_choice_out", "", CompColor::OfValue)]
    );
    assert_eq!(complete(&root, &["prog", "--verbose=x"]), Vec::<CompItem>::new());
    let pair = option("size", &["--size"], &["W", "H"]);
    assert_eq!(
        comp_flag_option(&pair, 0),
        vec![item("__argc_value=W", "", CompColor::OfValue)]
    );
    assert_eq!(
        comp_flag_option(&pair, 1),
        vec![item("__argc_value=H", "", CompColor::OfValue)]
    );
    assert_eq!(
        comp_flag_option(&pair, 5),
        vec![item("__argc_value=H", "", CompColor::OfValue)]
    );
    assert_eq!(comp_flag_option(&flag("v", &["-v"]), 0), Vec::<CompItem>::new());
}

#[test]
fn completion_of_commands_and_positionals() {
    let mut root = nested();
    assert_eq!(
        complete(&root, &["prog", "x"]),
        vec![
            item("build", "Build it", CompColor::OfCommand),
            item("b", "Build it", CompColor::OfCommand),
            item("test", "Test it", CompColor::OfCommand),
        ]
    );
    assert_eq!(complete(&root, &["prog", "build"]), complete(&root, &["prog", "x"]));
    assert_eq!(comp_subcomands(&root), complete(&root, &["prog", "x"]));
    assert_eq!(
        complete(&root, &["prog", "--", "help", "b"]),
        complete(&root, &["prog", "x"])
    );
    let mut target = positional("target", false, false);
    target.data.describe = "What to build".to_string();
    root.subcommands[0].positional_params.push(target);
    assert_eq!(
        complete(&root, &["prog", "build", ""]),
        vec![item("__argc_value=TARGET", "What to build", CompColor::OfValue)]
    );
    root.subcommands[0].positional_params[0].data.choice =
        Some(ChoiceData::Values(strings(&["lib", "bin"])));
    assert_eq!(
        complete(&root, &["prog", "build", "l"]),
        vec![item("lib", "", CompColor::OfValue), item("bin", "", CompColor::OfValue)]
    );
    assert_eq!(
        comp_positional(&root.subcommands[0].positional_params[0]),
        vec![item("lib", "", CompColor::OfValue), item("bin", "", CompColor::OfValue)]
    );
    assert_eq!(complete(&root, &["prog", "build", "lib", "x"]), Vec::<CompItem>::new());
    assert_eq!(
        complete(&root, &["prog", "test", ""]),
        vec![item("__argc_value=path", "", CompColor::OfValue)]
    );
}

#[test]
fn completion_for_a_delegated_command() {
    let mut root = command(None);
    root.delegated = true;
    assert_eq!(complete(&root, &["prog", "-x"]), Vec::<CompItem>::new());
    let mut name = positional("name", false, false);
    name.data.choice = Some(ChoiceData::Fn("_choice_name".to_string(), true));
    root.positional_params.push(name);
    assert_eq!(
        complete(&root, &["prog", "-x"]),
        vec![item("__argc_fn=_choice_name", "", CompColor::OfValue)]
    );
}

#[test]
fn lines_of_a_routine() {
    assert_eq!(
        choice_lines("  red \n\ngreen\0\0\n \t\r\n\u{3000}blue grey\u{a0}"),
        strings(&["red", "green", "blue grey"])
    );
    assert_eq!(choice_lines(""), Vec::<String>::new());
    assert_eq!(choice_lines("\n\n"), Vec::<String>::new());
    assert_eq!(choice_lines("a"), strings(&["a"]));
    assert_eq!(choice_lines("a\n"), strings(&["a"]));
    assert_eq!(choice_lines("\0a b\0\nc"), strings(&["a b", "c"]));
    let table = read_choices(&strings(&["f", "g", "h"]), &strings(&["1\n2", "\n"]));
    assert_eq!(table.len(), 2);
    assert_eq!(table[0].name, "f");
    assert_eq!(table[0].values, strings(&["1", "2"]));
    assert_eq!(table[1].name, "g");
    assert_eq!(table[1].values, Vec::<String>::new());
    let table = read_choices(&strings(&["f"]), &strings(&["1", "2"]));
    assert_eq!(table.len(), 1);
}

#[test]
fn text_helpers() {
    assert_eq!(decimal_string(0), "0");
    assert_eq!(decimal_string(7), "7");
    assert_eq!(decimal_string(10), "10");
    assert_eq!(decimal_string(12345), "12345");
    assert_eq!(decimal_string(usize::MAX), usize::MAX.to_string());
    assert_eq!(join(&strings(&[]), ", "), "");
    assert_eq!(join(&strings(&["a"]), ", "), "a");
    assert_eq!(join(&strings(&["a", "b", "c"]), ", "), "a, b, c");
    assert_eq!(split_assign("--k=v=w"), Some(("--k", "v=w")));
    assert_eq!(split_assign("=v"), Some(("", "v")));
    assert_eq!(split_assign("k="), Some(("k", "")));
    assert_eq!(split_assign("kv"), None);
    assert_eq!(split_assign("é=ü"), Some(("é", "ü")));
}

#[test]
fn parameters_as_they_are_shown() {
    let size = option("size", &["--size", "-s"], &["W", "H"]);
    assert_eq!(size.render_name(), "--size");
    assert_eq!(size.render_name_values(), "--size <W> <H>");
    assert_eq!(size.render_single_value(), "<W>");
    assert_eq!(size.list_names(), strings(&["--size", "-s"]));
    assert!(size.is_match("-s"));
    assert!(!size.is_match("size"));
    assert!(size.is_match_short('s'));
    assert!(!size.is_match_short('x'));
    let bare = flag("bare", &[]);
    assert_eq!(bare.render_name(), "bare");
    assert_eq!(bare.render_name_values(), "bare");
    assert_eq!(bare.render_single_value(), "<bare>");
    assert_eq!(positional("a", true, false).render_value(), "<A>");
    assert_eq!(positional("a", true, true).render_value(), "<A>...");
    assert_eq!(positional("a", false, false).render_value(), "[A]");
    assert_eq!(positional("a", false, true).render_value(), "[A]...");
    let mut described = flag("d", &["-d"]);
    described.data.describe = "first\nsecond".to_string();
    assert_eq!(described.describe_head(), "first");
}

#[test]
fn constructors() {
    let mut root = Command::new();
    assert_eq!(root.name, None);
    assert!(root.help_short_name && root.version_short_name && !root.delegated);
    let mut out = FlagOptionParam::new("out", strings(&["--out"]), strings(&["FILE"]));
    assert!(out.is_option() && !out.is_flag() && !out.required() && !out.multiple());
    assert_eq!(out.values_size(), 1);
    out.data.required = true;
    root.flag_option_params.push(out);
    root.flag_option_params.push(FlagOptionParam::new("quiet", strings(&["-q"]), vec![]));
    root.positional_params.push(PositionalParam::new("name", "NAME"));
    assert_eq!(
        verdict(&root, &["prog", "-q", "x"]),
        Some(MatchError::MissingRequiredArgument(0, strings(&["--out <FILE>"])))
    );
    assert_eq!(verdict(&root, &["prog", "-q", "x", "--out", "f"]), None);
    let data = ParamData::new("n");
    assert_eq!(data.name, "n");
    assert_eq!(data.choice_fn(), None);
    assert_eq!(data.choice_values(), None);
    assert_eq!(data.multi_char(), None);
}

#[test]
fn later_entry_of_a_routine_answers() {
    let table = vec![
        ChoiceEntry { name: "_f".to_string(), values: strings(&["a"]) },
        ChoiceEntry { name: "_g".to_string(), values: strings(&["b"]) },
        ChoiceEntry { name: "_f".to_string(), values: strings(&["c", "d"]) },
    ];
    let checked = Some(ChoiceData::Fn("_f".to_string(), true));
    assert_eq!(get_param_choice(&checked, &table), Some(&strings(&["c", "d"])));
    let other = Some(ChoiceData::Fn("_g".to_string(), true));
    assert_eq!(get_param_choice(&other, &table), Some(&strings(&["b"])));
    let table = read_choices(&strings(&["_f", "_f"]), &strings(&["a\n", "c\n"]));
    assert_eq!(get_param_choice(&checked, &table), Some(&strings(&["c"])));
}

#[test]
fn missing_parameter_is_shown_as_the_required_one() {
    let mut root = command(None);
    root.flag_option_params.push(flag("out", &["--dry-out"]));
    let mut out = option("out", &["--out"], &["FILE"]);
    out.data.required = true;
    root.flag_option_params.push(out);
    assert_eq!(
        verdict(&root, &["prog"]),
        Some(MatchError::MissingRequiredArgument(0, strings(&["--out <FILE>"])))
    );
    assert_eq!(verdict(&root, &["prog", "--dry-out"]), None);
}

#[test]
fn option_as_the_last_token_awaits_its_value() {
    let mut root = sample();
    root.flag_option_params[1].data.describe = "Write there".to_string();
    root.flag_option_params.push(option("size", &["--size"], &["W", "H"]));
    let args = strings(&["prog", "--out"]);
    let matcher = Matcher::new(&root, &args);
    assert_eq!(matcher.arg_comp(), &ArgComp::OptionValue("out".to_string(), 0));
    assert_eq!(
        matcher.flag_option_args(),
        &vec![vec![occurrence("--out", &[], Some("out"))]]
    );
    assert_eq!(
        complete(&root, &["prog", "--out"]),
        vec![item("__argc_value=FILE", "Write there", CompColor::OfValue)]
    );
    let args = strings(&["prog", "x", "--size", "1"]);
    let matcher = Matcher::new(&root, &args);
    assert_eq!(matcher.arg_comp(), &ArgComp::OptionValue("size".to_string(), 0));
    let args = strings(&["prog", "x", "--size"]);
    let matcher = Matcher::new(&root, &args);
    assert_eq!(matcher.arg_comp(), &ArgComp::OptionValue("size".to_string(), 0));
}

