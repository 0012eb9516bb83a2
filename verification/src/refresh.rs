//! Cache validity and the refresh step, as a two-state machine: a key is
//! `Fresh` exactly when the mandatory classpath artifact exists (the
//! optional artifacts are treated as empty when absent, never as staleness),
//! and `Stale` otherwise.  On `Stale` the external resolver runs once; a
//! non-zero exit fails the invocation, with no retry, and a successful exit
//! that still left no classpath artifact is a resolver contract violation.
//! The decisions are here; the caller performs the process work and hands
//! the observations back.

use vstd::prelude::*;

use crate::cachekey::CacheArtifactSet;
use crate::dispatch::CommandSpec;
use crate::errors::LaunchError;
use crate::opts::{CljOpts, CljOptsV, ExecOpts, ModeV};
use crate::strutil::{concat_all, concat_strings, push_all_from, push_string};

verus! {

/// Whether the cached resolution for a key may be used as it stands.
#[derive(Debug, PartialEq, Eq, Structural)]
pub enum CacheState {
    Fresh,
    Stale,
}

/// What the refresh driver does about a cache state.
#[derive(Debug, PartialEq, Eq, Structural)]
pub enum RefreshAction {
    UseCache,
    RunResolver,
}

/// A key is fresh exactly when its mandatory classpath artifact exists.
pub open spec fn state_of(cp_file_exists: bool) -> CacheState {
    if cp_file_exists {
        CacheState::Fresh
    } else {
        CacheState::Stale
    }
}

/// Only a stale key makes the resolver run.
pub open spec fn action_of(s: CacheState) -> RefreshAction {
    if s == CacheState::Stale {
        RefreshAction::RunResolver
    } else {
        RefreshAction::UseCache
    }
}

/// Classifies a key from the one observation that matters: whether the
/// classpath artifact exists.
pub fn cache_state(cp_file_exists: bool) -> (r: CacheState)
    ensures
        r == state_of(cp_file_exists),
{
    if cp_file_exists {
        CacheState::Fresh
    } else {
        CacheState::Stale
    }
}

/// Plans the refresh step for a cache state.
pub fn refresh_action(state: CacheState) -> (r: RefreshAction)
    ensures
        r == action_of(state),
{
    match state {
        CacheState::Stale => RefreshAction::RunResolver,
        CacheState::Fresh => RefreshAction::UseCache,
    }
}

/// The refresh step's judgement: nothing ran, fine; the resolver failed, the
/// invocation fails with its exit status; the resolver succeeded but wrote
/// no classpath artifact, a contract violation; otherwise fine.
pub open spec fn refresh_result_of(ran: bool, exit_code: i32, cp_exists_after: bool) -> Result<
    (),
    LaunchError,
> {
    if !ran {
        Ok(())
    } else if exit_code != 0 {
        Err(LaunchError::ResolutionFailed(exit_code))
    } else if !cp_exists_after {
        Err(LaunchError::ResolutionIncomplete)
    } else {
        Ok(())
    }
}

/// Judges the refresh step from what was observed: whether the resolver ran,
/// its exit status, and whether the classpath artifact exists afterwards.
pub fn refresh_result(ran: bool, exit_code: i32, cp_exists_after: bool) -> (r: Result<
    (),
    LaunchError,
>)
    ensures
        r == refresh_result_of(ran, exit_code, cp_exists_after),
{
    if !ran {
        Ok(())
    } else if exit_code != 0 {
        Err(LaunchError::ResolutionFailed(exit_code))
    } else if !cp_exists_after {
        Err(LaunchError::ResolutionIncomplete)
    } else {
        Ok(())
    }
}

/// Refresh is idempotent: whenever one refresh pass over a key succeeded —
/// whether it found the cache fresh or ran the resolver — the classpath
/// artifact exists afterwards, so an immediately repeated pass with the key
/// unchanged finds the cache fresh and plans zero resolver invocations.
pub proof fn lemma_refresh_idempotent(cp_before: bool, exit_code: i32, cp_after_run: bool)
    ensures
        ({
            let ran = action_of(state_of(cp_before)) == RefreshAction::RunResolver;
            let cp_now = if ran {
                cp_after_run
            } else {
                cp_before
            };
            refresh_result_of(ran, exit_code, cp_now) is Ok ==> action_of(state_of(cp_now))
                == RefreshAction::UseCache
        }),
{
}

/// The arguments handed to the external resolver beyond the fixed file
/// paths: the inline configuration data, the main or exec alias, the
/// accumulated alias fragments concatenated in encounter order, the tool
/// mode and name, and the tree and trace flags, in that order.
pub open spec fn tools_args_of(m: ModeV, o: CljOptsV) -> Seq<Seq<char>> {
    let deps_part: Seq<Seq<char>> = match o.deps {
        Some(d) => seq!["--config-data"@, d],
        None => Seq::empty(),
    };
    let main_part: Seq<Seq<char>> = match m {
        ModeV::Main(a) => if a.len() > 0 {
            seq!["-M:"@ + a]
        } else {
            Seq::empty()
        },
        _ => Seq::empty(),
    };
    let alias_part: Seq<Seq<char>> = if o.repl_aliases.len() > 0 {
        seq![concat_all(o.repl_aliases)]
    } else {
        Seq::empty()
    };
    let exec_part: Seq<Seq<char>> = match m {
        ModeV::Exec(a) => if a.len() > 0 {
            seq!["-X:"@ + a]
        } else {
            Seq::empty()
        },
        _ => Seq::empty(),
    };
    let tool_part: Seq<Seq<char>> = match m {
        ModeV::Tool(a) => seq!["--tool-mode"@] + if a.len() > 0 {
            seq!["--tool-name"@, a]
        } else {
            Seq::empty()
        },
        _ => Seq::empty(),
    };
    let tree_part: Seq<Seq<char>> = if o.tree {
        seq!["--tree"@]
    } else {
        Seq::empty()
    };
    let trace_part: Seq<Seq<char>> = if o.trace {
        seq!["--trace"@]
    } else {
        Seq::empty()
    };
    deps_part + main_part + alias_part + exec_part + tool_part + tree_part + trace_part
}

/// Builds the mode- and option-specific resolver arguments, exactly
/// `tools_args_of` over the intent.
pub fn make_tools_args(exec_opts: &ExecOpts, clj_opts: &CljOpts) -> (r: Vec<String>)
    ensures
        r.deep_view() == tools_args_of(exec_opts@, clj_opts@),
{
    let ghost m = exec_opts@;
    let ghost o = clj_opts@;
    let mut v: Vec<String> = Vec::new();
    match &clj_opts.deps {
        Some(d) => {
            push_string(&mut v, String::from_str("--config-data"));
            push_string(&mut v, d.clone());
        },
        None => {},
    }
    let ghost part1 = match o.deps {
        Some(d) => seq!["--config-data"@, d],
        None => Seq::<Seq<char>>::empty(),
    };
    proof {
        assert(v.deep_view() =~~= part1);
    }
    match exec_opts {
        ExecOpts::Main(a) => {
            if !a.as_str().is_empty() {
                let mut s = String::from_str("-M:");
                s.append(a.as_str());
                push_string(&mut v, s);
            }
        },
        _ => {},
    }
    let ghost part2 = part1 + (match m {
        ModeV::Main(a) => if a.len() > 0 {
            seq!["-M:"@ + a]
        } else {
            Seq::<Seq<char>>::empty()
        },
        _ => Seq::<Seq<char>>::empty(),
    });
    proof {
        assert(v.deep_view() =~~= part2);
    }
    if clj_opts.repl_aliases.len() > 0 {
        push_string(&mut v, concat_strings(&clj_opts.repl_aliases));
    }
    let ghost part3 = part2 + (if o.repl_aliases.len() > 0 {
        seq![concat_all(o.repl_aliases)]
    } else {
        Seq::<Seq<char>>::empty()
    });
    proof {
        assert(v.deep_view() =~~= part3);
    }
    match exec_opts {
        ExecOpts::Exec(a) => {
            if !a.as_str().is_empty() {
                let mut s = String::from_str("-X:");
                s.append(a.as_str());
                push_string(&mut v, s);
            }
        },
        _ => {},
    }
    let ghost part4 = part3 + (match m {
        ModeV::Exec(a) => if a.len() > 0 {
            seq!["-X:"@ + a]
        } else {
            Seq::<Seq<char>>::empty()
        },
        _ => Seq::<Seq<char>>::empty(),
    });
    proof {
        assert(v.deep_view() =~~= part4);
    }
    match exec_opts {
        ExecOpts::Tool(a) => {
            push_string(&mut v, String::from_str("--tool-mode"));
            if !a.as_str().is_empty() {
                push_string(&mut v, String::from_str("--tool-name"));
                push_string(&mut v, a.clone());
            }
        },
        _ => {},
    }
    let ghost part5 = part4 + (match m {
        ModeV::Tool(a) => seq!["--tool-mode"@] + if a.len() > 0 {
            seq!["--tool-name"@, a]
        } else {
            Seq::<Seq<char>>::empty()
        },
        _ => Seq::<Seq<char>>::empty(),
    });
    proof {
        assert(v.deep_view() =~~= part5);
    }
    if clj_opts.tree {
        push_string(&mut v, String::from_str("--tree"));
    }
    if clj_opts.trace {
        push_string(&mut v, String::from_str("--trace"));
    }
    proof {
        assert(v.deep_view() =~~= tools_args_of(m, o));
    }
    v
}

/// The resolver invocation's full argument list: the resolver archive on the
/// classpath, the fixed entry point, the user and project configuration
/// files, the six target artifact paths, then the mode- and option-specific
/// arguments.
pub open spec fn resolver_args_of(
    tools_cp: Seq<char>,
    user_config: Seq<char>,
    project_config: Seq<char>,
    libs: Seq<char>,
    cp: Seq<char>,
    jvm: Seq<char>,
    main: Seq<char>,
    basis: Seq<char>,
    manifest: Seq<char>,
    m: ModeV,
    o: CljOptsV,
) -> Seq<Seq<char>> {
    seq![
        "-classpath"@,
        tools_cp,
        "clojure.main"@,
        "-m"@,
        "clojure.tools.deps.alpha.script.make-classpath2"@,
        "--config-user"@,
        user_config,
        "--config-project"@,
        project_config,
        "--basis-file"@,
        basis,
        "--libs-file"@,
        libs,
        "--cp-file"@,
        cp,
        "--jvm-file"@,
        jvm,
        "--main-file"@,
        main,
        "--manifest-file"@,
        manifest,
    ] + tools_args_of(m, o)
}

/// Builds the external resolver invocation: the runtime executable with
/// `resolver_args_of` over the configuration files, the artifact paths and
/// the intent.
pub fn build_resolver_command(
    java: &str,
    tools_cp: &str,
    user_config: &str,
    project_config: &str,
    artifacts: &CacheArtifactSet,
    exec_opts: &ExecOpts,
    clj_opts: &CljOpts,
) -> (r: CommandSpec)
    ensures
        r.program@ == java@,
        r.args.deep_view() == resolver_args_of(
            tools_cp@,
            user_config@,
            project_config@,
            artifacts.libs_file@,
            artifacts.cp_file@,
            artifacts.jvm_file@,
            artifacts.main_file@,
            artifacts.basis_file@,
            artifacts.manifest_file@,
            exec_opts@,
            clj_opts@,
        ),
{
    let mut args: Vec<String> = Vec::new();
    push_string(&mut args, String::from_str("-classpath"));
    push_string(&mut args, String::from_str(tools_cp));
    push_string(&mut args, String::from_str("clojure.main"));
    push_string(&mut args, String::from_str("-m"));
    push_string(&mut args, String::from_str("clojure.tools.deps.alpha.script.make-classpath2"));
    push_string(&mut args, String::from_str("--config-user"));
    push_string(&mut args, String::from_str(user_config));
    push_string(&mut args, String::from_str("--config-project"));
    push_string(&mut args, String::from_str(project_config));
    push_string(&mut args, String::from_str("--basis-file"));
    push_string(&mut args, artifacts.basis_file.clone());
    push_string(&mut args, String::from_str("--libs-file"));
    push_string(&mut args, artifacts.libs_file.clone());
    push_string(&mut args, String::from_str("--cp-file"));
    push_string(&mut args, artifacts.cp_file.clone());
    push_string(&mut args, String::from_str("--jvm-file"));
    push_string(&mut args, artifacts.jvm_file.clone());
    push_string(&mut args, String::from_str("--main-file"));
    push_string(&mut args, artifacts.main_file.clone());
    push_string(&mut args, String::from_str("--manifest-file"));
    push_string(&mut args, artifacts.manifest_file.clone());
    let tools_args = make_tools_args(exec_opts, clj_opts);
    push_all_from(&mut args, &tools_args, 0);
    proof {
        assert(tools_args.deep_view().skip(0) =~~= tools_args.deep_view());
        assert(args.deep_view() =~~= resolver_args_of(
            tools_cp@,
            user_config@,
            project_config@,
            artifacts.libs_file@,
            artifacts.cp_file@,
            artifacts.jvm_file@,
            artifacts.main_file@,
            artifacts.basis_file@,
            artifacts.manifest_file@,
            exec_opts@,
            clj_opts@,
        ));
    }
    CommandSpec { program: String::from_str(java), args }
}

} // verus!
