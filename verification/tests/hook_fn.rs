use argc::bind::ArgcValue;
use argc::command::Command;
use argc::matcher::Matcher;

fn command(name: Option<&str>, cmd_fn: Option<&str>) -> Command {
    Command {
        name: name.map(|v| v.to_string()),
        aliases: vec![],
        describe: String::new(),
        flag_option_params: vec![],
        positional_params: vec![],
        subcommands: vec![],
        delegated: false,
        help_short_name: true,
        version_short_name: true,
        cmd_fn: cmd_fn.map(|v| v.to_string()),
        help: String::new(),
        usage: String::new(),
        version: String::new(),
    }
}

/// The command tree that a script declares: a root that runs `main` where
/// the script defines it, and one subcommand for each function marked with
/// `# @cmd`.
fn tree_of(script: &str) -> Command {
    let lines: Vec<&str> = script.lines().collect();
    let has_main = lines.iter().any(|line| line.starts_with("main()"));
    let mut root = command(None, if has_main { Some("main") } else { None });
    for (i, line) in lines.iter().enumerate() {
        if line.trim() == "# @cmd" {
            if let Some(next) = lines.get(i + 1) {
                if let Some(at) = next.find("()") {
                    let name = &next[..at];
                    root.subcommands.push(command(Some(name), Some(name)));
                }
            }
        }
    }
    root
}

fn strings(list: &[&str]) -> Vec<String> {
    list.iter().map(|v| v.to_string()).collect()
}

fn run(script: &str, args: &[&str]) -> Vec<ArgcValue> {
    let root = tree_of(script);
    let args = strings(args);
    let matcher = Matcher::new(&root, &args);
    matcher.to_arg_values(&vec![])
}

#[test]
fn hook_without_subcmd() {
    let script = r###"
_argc_before() { :; }
_argc_after() { :; }
"###;
    assert_eq!(
        run(script, &["prog"]),
        vec![
            ArgcValue::Multiple("_args".to_string(), strings(&["prog"])),
            ArgcValue::Single("_index".to_string(), "0".to_string()),
        ]
    );
}

#[test]
fn hook_with_main() {
    let script = r###"
_argc_before() { :; }
_argc_after() { :; }
main() { :; }
"###;
    assert_eq!(
        run(script, &["prog"]),
        vec![
            ArgcValue::Multiple("_args".to_string(), strings(&["prog"])),
            ArgcValue::Single("_index".to_string(), "0".to_string()),
            ArgcValue::CmdFn("main".to_string()),
        ]
    );
}

#[test]
fn hook_only_before() {
    let script = r###"
_argc_before() { :; }
main() { :; }
"###;
    assert_eq!(
        run(script, &["prog"]),
        vec![
            ArgcValue::Multiple("_args".to_string(), strings(&["prog"])),
            ArgcValue::Single("_index".to_string(), "0".to_string()),
            ArgcValue::CmdFn("main".to_string()),
        ]
    );
}

#[test]
fn hook_with_subcmd() {
    let script = r###"
_argc_before() { :; }
_argc_after() { :; }

# @cmd
cmd() { :; }
"###;
    assert_eq!(
        run(script, &["prog", "cmd"]),
        vec![
            ArgcValue::Multiple("_args".to_string(), strings(&["prog", "cmd"])),
            ArgcValue::Single("_index".to_string(), "1".to_string()),
            ArgcValue::CmdFn("cmd".to_string()),
        ]
    );
}
