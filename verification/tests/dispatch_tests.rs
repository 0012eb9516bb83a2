use clojure::dispatch::{build_command, exec_classpath, split_ws};
use clojure::opts::{CljOpts, ExecOpts};

fn s(x: &str) -> String {
    x.to_string()
}

fn strs(xs: &[&str]) -> Vec<String> {
    xs.iter().map(|x| x.to_string()).collect()
}

#[test]
fn whitespace_splitting() {
    assert_eq!(split_ws("  a  bb\tc \n"), strs(&["a", "bb", "c"]));
    assert_eq!(split_ws(""), strs(&[]));
    assert_eq!(split_ws(" \t\r\n"), strs(&[]));
    assert_eq!(split_ws("one"), strs(&["one"]));
}

#[test]
fn companion_archive_joins_with_the_platform_separator() {
    assert_eq!(exec_classpath("CP", "/inst", false), s("CP:/inst/exec.jar"));
    assert_eq!(exec_classpath("CP", "C:/inst", true), s("CP;C:/inst/exec.jar"));
}

#[test]
fn prepare_mode_runs_nothing() {
    let cmd = build_command(
        "/usr/bin/java",
        &ExecOpts::Prepare,
        &CljOpts::default(),
        "",
        "",
        "CP",
        "/c/k.basis",
        "/inst",
        false,
    );
    assert!(cmd.is_none());
}

#[test]
fn main_mode_command_layout() {
    let mut opts = CljOpts::default();
    opts.jvm_opts = strs(&["-Dx=1", "-Da=1 -Db=2"]);
    opts.clojure_args = strs(&["-m", "myapp.core"]);
    let cmd = build_command(
        "/usr/bin/java",
        &ExecOpts::Main(s("dev")),
        &opts,
        "-Xmx1g -Xms1g",
        "-m prefix.ns",
        "CP",
        "/c/k.basis",
        "/inst",
        false,
    )
    .expect("a command");
    assert_eq!(cmd.program, s("/usr/bin/java"));
    assert_eq!(
        cmd.args,
        strs(&[
            "-Xmx1g",
            "-Xms1g",
            "-Dx=1",
            "-Da=1",
            "-Db=2",
            "-Dclojure.basis=/c/k.basis",
            "-classpath",
            "CP",
            "clojure.main",
            "-m",
            "prefix.ns",
            "-m",
            "myapp.core",
        ])
    );
}

#[test]
fn repl_mode_without_cached_options() {
    let cmd = build_command(
        "java",
        &ExecOpts::Repl,
        &CljOpts::default(),
        "",
        "",
        "CP",
        "B",
        "/inst",
        false,
    )
    .expect("a command");
    assert_eq!(
        cmd.args,
        strs(&["-Dclojure.basis=B", "-classpath", "CP", "clojure.main"])
    );
}

#[test]
fn exec_and_tool_modes_use_the_exec_entry_point() {
    let mut opts = CljOpts::default();
    opts.clojure_args = strs(&["task"]);
    for mode in [ExecOpts::Exec(s("serve")), ExecOpts::Tool(s("build"))] {
        let cmd = build_command("java", &mode, &opts, "", "-m ignored", "CP", "B", "/inst", false)
            .expect("a command");
        assert_eq!(
            cmd.args,
            strs(&[
                "-Dclojure.basis=B",
                "-classpath",
                "CP:/inst/exec.jar",
                "clojure.main",
                "-m",
                "clojure.run.exec",
                "task",
            ])
        );
    }
}

#[test]
fn alias_mode_dispatches_like_repl() {
    let cmd = build_command(
        "java",
        &ExecOpts::Alias(s("dev")),
        &CljOpts::default(),
        "",
        "-e nil",
        "CP",
        "B",
        "/inst",
        false,
    )
    .expect("a command");
    assert_eq!(
        cmd.args,
        strs(&["-Dclojure.basis=B", "-classpath", "CP", "clojure.main", "-e", "nil"])
    );
}
