//! The dispatcher: builds the one final child-process invocation from the
//! validated cache artifacts and the intent.  Exec and tool modes get an
//! auxiliary classpath segment and the exec-dispatch entry point; the other
//! modes run the plain entry point with the cached main options as an
//! argument prefix; prepare mode runs nothing.  Every mode prepends the
//! cached runtime options and then the launcher-supplied ones, in that
//! order, before the classpath flag.

use vstd::prelude::*;

use crate::opts::{CljOpts, CljOptsV, ExecOpts, ModeV};
use crate::strutil::{push_all_from, push_string};

verus! {

/// The whitespace that separates tokens in the cached option files.
pub open spec fn is_ws_char(c: char) -> bool {
    c == ' ' || c == '\t' || c == '\n' || c == '\r' || c == '\x0c'
}

/// The words of `s` from position `i` on, `cur` being the word in progress:
/// whitespace closes `cur` when it is non-empty, every other character
/// extends it.
pub open spec fn split_acc(s: Seq<char>, i: int, cur: Seq<char>) -> Seq<Seq<char>>
    decreases s.len() - i,
{
    if i < 0 || i >= s.len() {
        if cur.len() > 0 {
            seq![cur]
        } else {
            Seq::empty()
        }
    } else if is_ws_char(s[i]) {
        if cur.len() > 0 {
            seq![cur] + split_acc(s, i + 1, Seq::empty())
        } else {
            split_acc(s, i + 1, Seq::empty())
        }
    } else {
        split_acc(s, i + 1, cur.push(s[i]))
    }
}

/// The whitespace-separated words of `s`, in order, each non-empty.
pub open spec fn split_ws_of(s: Seq<char>) -> Seq<Seq<char>> {
    split_acc(s, 0, Seq::empty())
}

fn is_ws(c: char) -> (r: bool)
    ensures
        r == is_ws_char(c),
{
    c == ' ' || c == '\t' || c == '\n' || c == '\r' || c == '\x0c'
}

/// Splits `s` into its whitespace-separated words.
pub fn split_ws(s: &str) -> (r: Vec<String>)
    ensures
        r.deep_view() == split_ws_of(s@),
{
    let n = s.unicode_len();
    let mut out: Vec<String> = Vec::new();
    let mut cur = String::new();
    let mut i: usize = 0;
    while i < n
        invariant
            i <= n,
            n == s@.len(),
            split_ws_of(s@) == out.deep_view() + split_acc(s@, i as int, cur@),
        decreases n - i,
    {
        let c = s.get_char(i);
        if is_ws(c) {
            if !cur.as_str().is_empty() {
                let ghost curv = cur@;
                let ghost preout = out.deep_view();
                push_string(&mut out, cur);
                cur = String::new();
                proof {
                    assert(split_acc(s@, i as int, curv) == seq![curv] + split_acc(
                        s@,
                        i + 1 as int,
                        Seq::<char>::empty(),
                    ));
                    assert(preout.push(curv) =~~= preout + seq![curv]);
                    assert(out.deep_view() + split_acc(s@, i + 1 as int, cur@) =~~= preout
                        + split_acc(s@, i as int, curv));
                }
            } else {
                proof {
                    assert(cur@ =~= Seq::<char>::empty());
                    assert(split_acc(s@, i as int, cur@) == split_acc(s@, i + 1 as int, cur@));
                }
            }
        } else {
            let piece = s.substring_char(i, i + 1);
            proof {
                assert(piece@ =~= seq![s@[i as int]]);
            }
            let ghost prev = cur@;
            cur.append(piece);
            proof {
                assert(cur@ =~= prev.push(s@[i as int]));
                assert(split_acc(s@, i as int, prev) == split_acc(s@, i + 1 as int, cur@));
            }
        }
        i += 1;
    }
    if !cur.as_str().is_empty() {
        let ghost curv = cur@;
        let ghost preout = out.deep_view();
        push_string(&mut out, cur);
        proof {
            assert(split_acc(s@, n as int, curv) == seq![curv]);
            assert(preout.push(curv) =~~= preout + seq![curv]);
            assert(out.deep_view() =~~= split_ws_of(s@));
        }
    } else {
        proof {
            assert(cur@ =~= Seq::<char>::empty());
            assert(split_acc(s@, n as int, cur@) == Seq::<Seq<char>>::empty());
            assert(out.deep_view() + Seq::<Seq<char>>::empty() =~~= out.deep_view());
            assert(out.deep_view() =~~= split_ws_of(s@));
        }
    }
    out
}

/// Every element of `xs` split into words, flattened in order.
pub open spec fn split_all_of(xs: Seq<Seq<char>>) -> Seq<Seq<char>>
    decreases xs.len(),
{
    if xs.len() == 0 {
        Seq::empty()
    } else {
        split_ws_of(xs[0]) + split_all_of(xs.skip(1))
    }
}

proof fn lemma_split_all_push(xs: Seq<Seq<char>>, x: Seq<char>)
    ensures
        split_all_of(xs.push(x)) == split_all_of(xs) + split_ws_of(x),
    decreases xs.len(),
{
    reveal_with_fuel(split_all_of, 3);
    if xs.len() == 0 {
        assert(xs.push(x).skip(1) =~~= Seq::<Seq<char>>::empty());
        assert(split_all_of(xs.push(x)) == split_ws_of(xs.push(x)[0]) + split_all_of(
            xs.push(x).skip(1),
        ));
        assert(split_all_of(xs.push(x)) =~~= split_all_of(xs) + split_ws_of(x));
    } else {
        assert(xs.push(x).skip(1) =~~= xs.skip(1).push(x));
        lemma_split_all_push(xs.skip(1), x);
        assert(xs.push(x)[0] == xs[0]);
        assert(split_all_of(xs.push(x)) == split_ws_of(xs[0]) + (split_all_of(xs.skip(1))
            + split_ws_of(x)));
        assert(split_all_of(xs) == split_ws_of(xs[0]) + split_all_of(xs.skip(1)));
        assert(split_ws_of(xs[0]) + (split_all_of(xs.skip(1)) + split_ws_of(x)) =~~= (split_ws_of(
            xs[0],
        ) + split_all_of(xs.skip(1))) + split_ws_of(x));
    }
}

/// Appends to `dst` the words of every element of `xs`, in order.
fn append_split_all(dst: &mut Vec<String>, xs: &Vec<String>)
    ensures
        final(dst).deep_view() == old(dst).deep_view() + split_all_of(xs.deep_view()),
{
    let mut i: usize = 0;
    while i < xs.len()
        invariant
            i <= xs@.len(),
            dst.deep_view() == old(dst).deep_view() + split_all_of(xs.deep_view().take(i as int)),
        decreases xs@.len() - i,
    {
        let parts = split_ws(xs[i].as_str());
        push_all_from(dst, &parts, 0);
        proof {
            assert(parts.deep_view().skip(0) =~~= parts.deep_view());
            assert(xs.deep_view().take(i as int).push(xs.deep_view()[i as int]) =~~= xs.deep_view()
                .take(i + 1 as int));
            lemma_split_all_push(xs.deep_view().take(i as int), xs.deep_view()[i as int]);
            assert(dst.deep_view() =~~= old(dst).deep_view() + split_all_of(
                xs.deep_view().take(i + 1 as int),
            ));
        }
        i += 1;
    }
    proof {
        assert(xs.deep_view().take(xs.deep_view().len() as int) =~~= xs.deep_view());
    }
}

/// The classpath for exec and tool modes: the cached classpath plus the
/// fixed companion archive from the install location, joined with the
/// platform path-list separator.
pub open spec fn exec_classpath_of(cp: Seq<char>, install_dir: Seq<char>, windows: bool) -> Seq<
    char,
> {
    cp + (if windows {
        seq![';']
    } else {
        seq![':']
    }) + install_dir + "/exec.jar"@
}

/// Appends the companion archive to the cached classpath.
pub fn exec_classpath(cp: &str, install_dir: &str, windows: bool) -> (r: String)
    ensures
        r@ == exec_classpath_of(cp@, install_dir@, windows),
{
    let mut s = String::from_str(cp);
    if windows {
        s.append(";");
    } else {
        s.append(":");
    }
    s.append(install_dir);
    s.append("/exec.jar");
    proof {
        reveal_strlit(";");
        reveal_strlit(":");
        assert(";"@ =~= seq![';']);
        assert(":"@ =~= seq![':']);
        assert(s@ =~= exec_classpath_of(cp@, install_dir@, windows));
    }
    s
}

/// One child-process invocation: a program and its arguments.
pub struct CommandSpec {
    pub program: String,
    pub args: Vec<String>,
}

/// The final invocation's arguments: the cached runtime options, then the
/// launcher-supplied ones, the basis property, the classpath flag with the
/// mode's classpath, the entry point, and the mode's own trailing arguments
/// — the exec-dispatch namespace with the passthrough arguments for exec and
/// tool modes, the cached main options before the passthrough arguments for
/// the rest.
pub open spec fn command_args_of(
    m: ModeV,
    o: CljOptsV,
    jvm_cache: Seq<char>,
    main_cache: Seq<char>,
    cp: Seq<char>,
    basis_file: Seq<char>,
    install_dir: Seq<char>,
    windows: bool,
) -> Seq<Seq<char>> {
    let prefix = split_ws_of(jvm_cache) + split_all_of(o.jvm_opts) + seq![
        "-Dclojure.basis="@ + basis_file,
        "-classpath"@,
    ];
    if m matches ModeV::Exec(_) || m matches ModeV::Tool(_) {
        prefix + seq![
            exec_classpath_of(cp, install_dir, windows),
            "clojure.main"@,
            "-m"@,
            "clojure.run.exec"@,
        ] + o.clojure_args
    } else {
        prefix + seq![cp, "clojure.main"@] + split_ws_of(main_cache) + o.clojure_args
    }
}

/// The dispatch decision: prepare mode runs nothing; every other mode runs
/// the runtime executable with `command_args_of`.
pub fn build_command(
    java: &str,
    exec_opts: &ExecOpts,
    clj_opts: &CljOpts,
    jvm_cache_opts: &str,
    main_cache_opts: &str,
    cp: &str,
    basis_file: &str,
    install_dir: &str,
    windows: bool,
) -> (r: Option<CommandSpec>)
    ensures
        (exec_opts@ matches ModeV::Prepare) <==> r is None,
        r matches Some(c) ==> c.program@ == java@ && c.args.deep_view() == command_args_of(
            exec_opts@,
            clj_opts@,
            jvm_cache_opts@,
            main_cache_opts@,
            cp@,
            basis_file@,
            install_dir@,
            windows,
        ),
{
    if matches!(exec_opts, ExecOpts::Prepare) {
        return None;
    }
    let ghost m = exec_opts@;
    let ghost o = clj_opts@;
    let mut args = split_ws(jvm_cache_opts);
    append_split_all(&mut args, &clj_opts.jvm_opts);
    let mut basis_arg = String::from_str("-Dclojure.basis=");
    basis_arg.append(basis_file);
    push_string(&mut args, basis_arg);
    push_string(&mut args, String::from_str("-classpath"));
    let ghost prefix = split_ws_of(jvm_cache_opts@) + split_all_of(o.jvm_opts) + seq![
        "-Dclojure.basis="@ + basis_file@,
        "-classpath"@,
    ];
    proof {
        assert(args.deep_view() =~~= prefix);
    }
    if matches!(exec_opts, ExecOpts::Exec(_) | ExecOpts::Tool(_)) {
        push_string(&mut args, exec_classpath(cp, install_dir, windows));
        push_string(&mut args, String::from_str("clojure.main"));
        push_string(&mut args, String::from_str("-m"));
        push_string(&mut args, String::from_str("clojure.run.exec"));
        push_all_from(&mut args, &clj_opts.clojure_args, 0);
        proof {
            assert(o.clojure_args.skip(0) =~~= o.clojure_args);
            assert(args.deep_view() =~~= command_args_of(
                m,
                o,
                jvm_cache_opts@,
                main_cache_opts@,
                cp@,
                basis_file@,
                install_dir@,
                windows,
            ));
        }
    } else {
        push_string(&mut args, String::from_str(cp));
        push_string(&mut args, String::from_str("clojure.main"));
        let main_opts = split_ws(main_cache_opts);
        push_all_from(&mut args, &main_opts, 0);
        push_all_from(&mut args, &clj_opts.clojure_args, 0);
        proof {
            assert(main_opts.deep_view().skip(0) =~~= main_opts.deep_view());
            assert(o.clojure_args.skip(0) =~~= o.clojure_args);
            assert(args.deep_view() =~~= command_args_of(
                m,
                o,
                jvm_cache_opts@,
                main_cache_opts@,
                cp@,
                basis_file@,
                install_dir@,
                windows,
            ));
        }
    }
    Some(CommandSpec { program: String::from_str(java), args })
}

} // verus!
