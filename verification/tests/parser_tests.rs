use clojure::errors::LaunchError;
use clojure::opts::{CljOpts, ExecOpts};
use clojure::parser::{parse_args, ParseOutcome};

fn strs(xs: &[&str]) -> Vec<String> {
    xs.iter().map(|s| s.to_string()) .collect()
}

fn run(xs: &[&str]) -> (ExecOpts, CljOpts) {
    match parse_args(&strs(xs)) {
        Ok(ParseOutcome::Run(e, c)) => (e, c),
        other => panic!("expected a run intent, got {:?}", other),
    }
}

#[test]
fn scenario_main_bare_drains_rest() {
    let (mode, opts) = run(&["-M", "-m", "myapp.core"]);
    assert_eq!(mode, ExecOpts::Main(String::new()));
    assert_eq!(opts.clojure_args, strs(&["-m", "myapp.core"]));
}

#[test]
fn scenario_exec_fused_alias() {
    let (mode, opts) = run(&["-X:serve", "--port", "8080"]);
    assert_eq!(mode, ExecOpts::Exec("serve".to_string()));
    assert_eq!(opts.clojure_args, strs(&["--port", "8080"]));
}

#[test]
fn scenario_sdeps_then_tool() {
    let (mode, opts) = run(&["-Sdeps", "{:deps {}}", "-T:build", "task"]);
    assert_eq!(opts.deps, Some("{:deps {}}".to_string()));
    assert_eq!(mode, ExecOpts::Tool("build".to_string()));
    assert_eq!(opts.clojure_args, strs(&["task"]));
}

#[test]
fn scenario_version_query() {
    assert_eq!(parse_args(&strs(&["-version"])), Ok(ParseOutcome::Version));
    assert_eq!(parse_args(&strs(&["--version"])), Ok(ParseOutcome::Version));
    assert_eq!(
        clojure::version_message(),
        "Clojure CLI version 1.11.1.1155".to_string()
    );
}

#[test]
fn aliases_accumulate_in_encounter_order() {
    let (mode, opts) = run(&["-A:a", "-A:b"]);
    assert_eq!(mode, ExecOpts::Repl);
    assert_eq!(opts.repl_aliases, strs(&["a", "b"]));
}

#[test]
fn jvm_options_accumulate_and_do_not_terminate() {
    let (mode, opts) = run(&["-J-Xmx512m", "-J-Xms256m", "-Spath"]);
    assert_eq!(mode, ExecOpts::Repl);
    assert_eq!(opts.jvm_opts, strs(&["-Xmx512m", "-Xms256m"]));
    assert!(opts.path);
}

#[test]
fn main_fused_alias() {
    let (mode, opts) = run(&["-M:dev", "x"]);
    assert_eq!(mode, ExecOpts::Main("dev".to_string()));
    assert_eq!(opts.clojure_args, strs(&["x"]));
}

#[test]
fn main_colon_takes_next_token() {
    let (mode, opts) = run(&["-M:", "dev", "x"]);
    assert_eq!(mode, ExecOpts::Main("dev".to_string()));
    assert_eq!(opts.clojure_args, strs(&["x"]));
}

#[test]
fn tool_forms() {
    let (mode, opts) = run(&["-T"]);
    assert_eq!(mode, ExecOpts::Tool(String::new()));
    assert!(opts.clojure_args.is_empty());

    let (mode, _) = run(&["-Tantq"]);
    assert_eq!(mode, ExecOpts::Tool("antq".to_string()));

    let (mode, opts) = run(&["-T:", "build", "task"]);
    assert_eq!(mode, ExecOpts::Tool("build".to_string()));
    assert_eq!(opts.clojure_args, strs(&["task"]));
}

#[test]
fn exec_bare_and_colon_forms() {
    let (mode, _) = run(&["-X"]);
    assert_eq!(mode, ExecOpts::Exec(String::new()));

    let (mode, opts) = run(&["-X:", "serve", "a"]);
    assert_eq!(mode, ExecOpts::Exec("serve".to_string()));
    assert_eq!(opts.clojure_args, strs(&["a"]));
}

#[test]
fn prepare_drains_rest() {
    let (mode, opts) = run(&["-P", "x", "-M"]);
    assert_eq!(mode, ExecOpts::Prepare);
    assert_eq!(opts.clojure_args, strs(&["x", "-M"]));
}

#[test]
fn separator_drains_rest_keeping_mode() {
    let (mode, opts) = run(&["-Spath", "--", "a", "-M"]);
    assert_eq!(mode, ExecOpts::Repl);
    assert!(opts.path);
    assert_eq!(opts.clojure_args, strs(&["a", "-M"]));
}

#[test]
fn unrecognized_token_drains_itself_and_rest() {
    let (mode, opts) = run(&["script.clj", "-M", "x"]);
    assert_eq!(mode, ExecOpts::Repl);
    assert_eq!(opts.clojure_args, strs(&["script.clj", "-M", "x"]));
}

#[test]
fn boolean_flags_all_set() {
    let (_, opts) = run(&["-Spath", "-Stree", "-Spom", "-Sverbose", "-Strace"]);
    assert!(opts.path && opts.tree && opts.pom && opts.verbose && opts.trace);
}

#[test]
fn unsupported_system_options_fail_with_token() {
    assert_eq!(
        parse_args(&strs(&["-Scp"])),
        Err(LaunchError::UnsupportedOption("-Scp".to_string()))
    );
    assert_eq!(
        parse_args(&strs(&["-Sbogus", "x"])),
        Err(LaunchError::UnsupportedOption("-Sbogus".to_string()))
    );
}

#[test]
fn dangling_value_tokens_fail() {
    assert_eq!(
        parse_args(&strs(&["-Sdeps"])),
        Err(LaunchError::UnsupportedOption("-Sdeps".to_string()))
    );
    assert_eq!(
        parse_args(&strs(&["-M:"])),
        Err(LaunchError::UnsupportedOption("-M:".to_string()))
    );
    assert_eq!(
        parse_args(&strs(&["-T:"])),
        Err(LaunchError::UnsupportedOption("-T:".to_string()))
    );
}

#[test]
fn help_outside_main_is_a_launcher_help_request() {
    assert_eq!(parse_args(&strs(&["-h"])), Ok(ParseOutcome::Help));
    assert_eq!(parse_args(&strs(&["--help"])), Ok(ParseOutcome::Help));
    assert_eq!(parse_args(&strs(&["-?"])), Ok(ParseOutcome::Help));
}

#[test]
fn bare_jvm_token_contributes_an_empty_option() {
    let (_, opts) = run(&["-J"]);
    assert_eq!(opts.jvm_opts, strs(&[""]));
}

#[test]
fn empty_input_is_a_bare_repl() {
    let (mode, opts) = run(&[]);
    assert_eq!(mode, ExecOpts::Repl);
    assert_eq!(opts, CljOpts::default());
}

#[test]
fn first_mode_token_wins_later_ones_are_passthrough() {
    let (mode, opts) = run(&["-M", "-T:build", "-X"]);
    assert_eq!(mode, ExecOpts::Main(String::new()));
    assert_eq!(opts.clojure_args, strs(&["-T:build", "-X"]));
}
