use clojure::cachekey::derive_artifact_paths;
use clojure::errors::LaunchError;
use clojure::opts::{CljOpts, ExecOpts};
use clojure::refresh::{
    build_resolver_command, cache_state, make_tools_args, refresh_action, refresh_result,
    CacheState, RefreshAction,
};

fn s(x: &str) -> String {
    x.to_string()
}

fn strs(xs: &[&str]) -> Vec<String> {
    xs.iter().map(|x| x.to_string()).collect()
}

#[test]
fn freshness_is_the_classpath_artifact() {
    assert_eq!(cache_state(true), CacheState::Fresh);
    assert_eq!(cache_state(false), CacheState::Stale);
    assert_eq!(refresh_action(CacheState::Fresh), RefreshAction::UseCache);
    assert_eq!(refresh_action(CacheState::Stale), RefreshAction::RunResolver);
}

#[test]
fn refresh_judgements() {
    assert_eq!(refresh_result(false, 0, false), Ok(()));
    assert_eq!(refresh_result(true, 3, true), Err(LaunchError::ResolutionFailed(3)));
    assert_eq!(refresh_result(true, 0, false), Err(LaunchError::ResolutionIncomplete));
    assert_eq!(refresh_result(true, 0, true), Ok(()));
}

#[test]
fn a_successful_refresh_makes_the_next_pass_a_cache_hit() {
    // First pass: stale, the resolver runs and writes the classpath file.
    assert_eq!(refresh_action(cache_state(false)), RefreshAction::RunResolver);
    assert_eq!(refresh_result(true, 0, true), Ok(()));
    // Second pass with the key unchanged: fresh, zero resolver invocations.
    assert_eq!(refresh_action(cache_state(true)), RefreshAction::UseCache);
}

#[test]
fn tools_args_collect_every_section_in_order() {
    let mut opts = CljOpts::default();
    opts.deps = Some(s("{:deps {}}"));
    opts.repl_aliases = strs(&["a", "b"]);
    opts.tree = true;
    opts.trace = true;
    let args = make_tools_args(&ExecOpts::Main(s("dev")), &opts);
    assert_eq!(
        args,
        strs(&["--config-data", "{:deps {}}", "-M:dev", "ab", "--tree", "--trace"])
    );
}

#[test]
fn alias_fragments_concatenate_in_encounter_order() {
    let mut opts = CljOpts::default();
    opts.repl_aliases = strs(&["a", "b"]);
    assert_eq!(make_tools_args(&ExecOpts::Repl, &opts), strs(&["ab"]));
}

#[test]
fn tool_mode_arguments() {
    let opts = CljOpts::default();
    assert_eq!(
        make_tools_args(&ExecOpts::Tool(s("build")), &opts),
        strs(&["--tool-mode", "--tool-name", "build"])
    );
    assert_eq!(make_tools_args(&ExecOpts::Tool(String::new()), &opts), strs(&["--tool-mode"]));
}

#[test]
fn exec_alias_argument() {
    let opts = CljOpts::default();
    assert_eq!(make_tools_args(&ExecOpts::Exec(s("serve")), &opts), strs(&["-X:serve"]));
    assert_eq!(make_tools_args(&ExecOpts::Exec(String::new()), &opts), strs(&[]));
    assert_eq!(make_tools_args(&ExecOpts::Main(String::new()), &opts), strs(&[]));
}

#[test]
fn resolver_command_names_entry_point_files_and_mode_flags() {
    let artifacts = derive_artifact_paths("/c", "k");
    let cmd = build_resolver_command(
        "/usr/bin/java",
        "/inst/clojure-tools-1.11.1.1155.jar",
        "/cfg/deps.edn",
        "deps.edn",
        &artifacts,
        &ExecOpts::Tool(s("build")),
        &CljOpts::default(),
    );
    assert_eq!(cmd.program, s("/usr/bin/java"));
    assert_eq!(
        cmd.args,
        strs(&[
            "-classpath",
            "/inst/clojure-tools-1.11.1.1155.jar",
            "clojure.main",
            "-m",
            "clojure.tools.deps.alpha.script.make-classpath2",
            "--config-user",
            "/cfg/deps.edn",
            "--config-project",
            "deps.edn",
            "--basis-file",
            "/c/k.basis",
            "--libs-file",
            "/c/k.libs",
            "--cp-file",
            "/c/k.cp",
            "--jvm-file",
            "/c/k.jvm",
            "--main-file",
            "/c/k.main",
            "--manifest-file",
            "/c/k.manifest",
            "--tool-mode",
            "--tool-name",
            "build",
        ])
    );
}
