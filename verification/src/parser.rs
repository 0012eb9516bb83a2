//! The argument parser: a single left-to-right scan over the raw tokens with
//! early termination.  Once a mode-selecting or passthrough-triggering token
//! is consumed, every remaining token is appended verbatim to the passthrough
//! arguments and scanning stops, so downstream tools receive their own
//! arguments unmangled.  Accumulating tokens (runtime options, alias
//! fragments, flags, the inline configuration override) never terminate the
//! scan and may repeat.
//!
//! Token grammar, checked in this order: a version query (`-version`,
//! `--version`); a help request (`-h`, `--help`, `-?`); `-J<opt>`; `-A<alias>`;
//! the three mode groups `-M`, `-T`, `-X`, each in a bare form, a
//! colon-then-next-token form (`-M: a`), and a fused form (`-M:a`, `-Ta`);
//! `-P`; `-Sdeps <data>` and the boolean flags `-Spath`, `-Strace`,
//! `-Sverbose`, `-Stree`, `-Spom`; any other `-S` token is unsupported; `--`
//! drains the rest; anything else drains itself and the rest.  Alias text
//! after a mode letter may be separated from the letter by one colon, which
//! is separator syntax and not kept.

use vstd::prelude::*;

use crate::errors::LaunchError;
use crate::opts::{CljOpts, CljOptsV, ExecOpts, ModeV, init_opts_v};
use crate::strutil::{has_flag_prefix, option_suffix, push_all_from, strip_colon, suffix_from,
    token_eq};

verus! {

/// What one invocation's argument vector asks for: a version print, a
/// launcher help print, or a run with a mode and options.
#[derive(Debug, PartialEq, Eq)]
pub enum ParseOutcome {
    Version,
    Help,
    Run(ExecOpts, CljOpts),
}

/// Spec-level image of a parse's result.
pub ghost enum ParseV {
    Version,
    Help,
    Intent(ModeV, CljOptsV),
    Unsupported(Seq<char>),
}

/// `t` begins with `-` followed by `letter`.
pub open spec fn is_opt_prefix(t: Seq<char>, letter: char) -> bool {
    t.len() >= 2 && t[0] == '-' && t[1] == letter
}

/// `t` is exactly `-` followed by `letter`.
pub open spec fn is_bare(t: Seq<char>, letter: char) -> bool {
    t.len() == 2 && t[0] == '-' && t[1] == letter
}

pub open spec fn is_version_token(t: Seq<char>) -> bool {
    t == "-version"@ || t == "--version"@
}

pub open spec fn is_help_token(t: Seq<char>) -> bool {
    t == "-h"@ || t == "--help"@ || t == "-?"@
}

/// `o` with every token of `toks` from `k` on appended verbatim to the
/// passthrough arguments.
pub open spec fn drained(o: CljOptsV, toks: Seq<Seq<char>>, k: int) -> CljOptsV {
    CljOptsV { clojure_args: o.clojure_args + toks.skip(k), ..o }
}

/// The mode selected by the mode letter `l` with alias text `a`.
pub open spec fn letter_mode(l: char, a: Seq<char>) -> ModeV {
    if l == 'M' {
        ModeV::Main(a)
    } else if l == 'T' {
        ModeV::Tool(a)
    } else {
        ModeV::Exec(a)
    }
}

/// One mode-group token at position `i`: bare selects the mode with an empty
/// alias; `-M:` takes the next token as the alias; a fused token carries the
/// alias itself.  All three drain the remainder.
pub open spec fn parse_mode_group(toks: Seq<Seq<char>>, i: int, l: char, o: CljOptsV) -> ParseV {
    let t = toks[i];
    if t.len() == 2 {
        ParseV::Intent(letter_mode(l, Seq::empty()), drained(o, toks, i + 1))
    } else if t.len() == 3 && t[2] == ':' {
        if i + 1 < toks.len() {
            ParseV::Intent(letter_mode(l, toks[i + 1]), drained(o, toks, i + 2))
        } else {
            ParseV::Unsupported(t)
        }
    } else {
        ParseV::Intent(letter_mode(l, strip_colon(t.skip(2))), drained(o, toks, i + 1))
    }
}

/// The scan from position `i` with mode `m` and options `o` so far.
pub open spec fn parse_from(toks: Seq<Seq<char>>, i: int, m: ModeV, o: CljOptsV) -> ParseV
    decreases toks.len() - i,
{
    if i < 0 || i >= toks.len() {
        ParseV::Intent(m, o)
    } else {
        let t = toks[i];
        if is_version_token(t) {
            ParseV::Version
        } else if is_help_token(t) {
            // Once in main mode, help must reach the invoked namespace, not
            // this launcher; otherwise it is a launcher-level help request.
            if m matches ModeV::Main(_) {
                ParseV::Intent(m, drained(o, toks, i))
            } else {
                ParseV::Help
            }
        } else if is_opt_prefix(t, 'J') {
            parse_from(toks, i + 1, m, CljOptsV { jvm_opts: o.jvm_opts.push(t.skip(2)), ..o })
        } else if is_opt_prefix(t, 'A') {
            parse_from(
                toks,
                i + 1,
                m,
                CljOptsV { repl_aliases: o.repl_aliases.push(strip_colon(t.skip(2))), ..o },
            )
        } else if is_opt_prefix(t, 'M') {
            parse_mode_group(toks, i, 'M', o)
        } else if is_opt_prefix(t, 'T') {
            parse_mode_group(toks, i, 'T', o)
        } else if is_opt_prefix(t, 'X') {
            parse_mode_group(toks, i, 'X', o)
        } else if is_bare(t, 'P') {
            ParseV::Intent(ModeV::Prepare, drained(o, toks, i + 1))
        } else if is_opt_prefix(t, 'S') {
            if t == "-Sdeps"@ {
                if i + 1 < toks.len() {
                    parse_from(toks, i + 2, m, CljOptsV { deps: Some(toks[i + 1]), ..o })
                } else {
                    ParseV::Unsupported(t)
                }
            } else if t == "-Spath"@ {
                parse_from(toks, i + 1, m, CljOptsV { path: true, ..o })
            } else if t == "-Strace"@ {
                parse_from(toks, i + 1, m, CljOptsV { trace: true, ..o })
            } else if t == "-Sverbose"@ {
                parse_from(toks, i + 1, m, CljOptsV { verbose: true, ..o })
            } else if t == "-Stree"@ {
                parse_from(toks, i + 1, m, CljOptsV { tree: true, ..o })
            } else if t == "-Spom"@ {
                parse_from(toks, i + 1, m, CljOptsV { pom: true, ..o })
            } else {
                ParseV::Unsupported(t)
            }
        } else if t == "--"@ {
            ParseV::Intent(m, drained(o, toks, i + 1))
        } else {
            ParseV::Intent(m, drained(o, toks, i))
        }
    }
}

/// The whole scan, from the first token, in the default state.
pub open spec fn parse_spec(toks: Seq<Seq<char>>) -> ParseV {
    parse_from(toks, 0, ModeV::Repl, init_opts_v())
}

/// The executable result `r` renders the spec-level result `v`.
pub open spec fn outcome_matches(r: Result<ParseOutcome, LaunchError>, v: ParseV) -> bool {
    match v {
        ParseV::Version => r matches Ok(ParseOutcome::Version),
        ParseV::Help => r matches Ok(ParseOutcome::Help),
        ParseV::Intent(m, o) => r matches Ok(ParseOutcome::Run(e, c)) && e@ == m && c@ == o,
        ParseV::Unsupported(t) => (r matches Err(LaunchError::UnsupportedOption(s)) && s@ == t),
    }
}

/// The executable mode value for mode letter `l` and alias `alias`.
fn make_mode(l: char, alias: String) -> (e: ExecOpts)
    requires
        l == 'M' || l == 'T' || l == 'X',
    ensures
        e@ == letter_mode(l, alias@),
{
    if l == 'M' {
        ExecOpts::Main(alias)
    } else if l == 'T' {
        ExecOpts::Tool(alias)
    } else {
        ExecOpts::Exec(alias)
    }
}

/// Finishes the scan at a mode-group token: picks the alias per the token's
/// form, drains the remaining tokens, and returns the completed intent.
fn finish_mode_group(args: &Vec<String>, i: usize, l: char, opts: CljOpts) -> (r: Result<
    ParseOutcome,
    LaunchError,
>)
    requires
        i < args@.len(),
        l == 'M' || l == 'T' || l == 'X',
        args.deep_view()[i as int].len() >= 2,
    ensures
        outcome_matches(r, parse_mode_group(args.deep_view(), i as int, l, opts@)),
{
    let ghost toks = args.deep_view();
    let ghost o = opts@;
    let len = args.len();
    let a: &str = args[i].as_str();
    proof {
        assert(a@ == toks[i as int]);
    }
    let n = a.unicode_len();
    if n == 2 {
        let mut out = opts;
        push_all_from(&mut out.clojure_args, args, i + 1);
        let e = make_mode(l, String::new());
        proof {
            assert(out@ =~~= drained(o, toks, i + 1 as int));
        }
        Ok(ParseOutcome::Run(e, out))
    } else if n == 3 && a.get_char(2) == ':' {
        if i + 1 < len {
            let alias = args[i + 1].clone();
            proof {
                assert(alias@ == toks[i + 1 as int]);
            }
            let mut out = opts;
            push_all_from(&mut out.clojure_args, args, i + 2);
            let e = make_mode(l, alias);
            proof {
                assert(out@ =~~= drained(o, toks, i + 2 as int));
            }
            Ok(ParseOutcome::Run(e, out))
        } else {
            Err(LaunchError::UnsupportedOption(args[i].clone()))
        }
    } else {
        let alias = option_suffix(a);
        let mut out = opts;
        push_all_from(&mut out.clojure_args, args, i + 1);
        let e = make_mode(l, alias);
        proof {
            assert(out@ =~~= drained(o, toks, i + 1 as int));
        }
        Ok(ParseOutcome::Run(e, out))
    }
}

/// Scans the raw argument tokens (the program name excluded) and produces
/// the invocation's outcome: a version or help request, a completed intent,
/// or the unsupported-option failure, exactly as `parse_spec` states.
pub fn parse_args(args: &Vec<String>) -> (r: Result<ParseOutcome, LaunchError>)
    ensures
        outcome_matches(r, parse_spec(args.deep_view())),
{
    let ghost toks = args.deep_view();
    let mut opts = CljOpts::default();
    let mut i: usize = 0;
    while i < args.len()
        invariant
            i <= args@.len(),
            toks == args.deep_view(),
            parse_spec(toks) == parse_from(toks, i as int, ModeV::Repl, opts@),
        decreases args@.len() - i,
    {
        let ghost o = opts@;
        let a: &str = args[i].as_str();
        proof {
            assert(a@ == toks[i as int]);
        }
        if token_eq(a, "-version") || token_eq(a, "--version") {
            return Ok(ParseOutcome::Version);
        } else if token_eq(a, "-h") || token_eq(a, "--help") || token_eq(a, "-?") {
            return Ok(ParseOutcome::Help);
        } else if has_flag_prefix(a, 'J') {
            let s = suffix_from(a, 2);
            opts.jvm_opts.push(s);
            proof {
                assert(opts@ =~~= CljOptsV { jvm_opts: o.jvm_opts.push(toks[i as int].skip(2)), ..o });
            }
            i += 1;
        } else if has_flag_prefix(a, 'A') {
            let s = option_suffix(a);
            opts.repl_aliases.push(s);
            proof {
                assert(opts@ =~~= CljOptsV {
                    repl_aliases: o.repl_aliases.push(strip_colon(toks[i as int].skip(2))),
                    ..o
                });
            }
            i += 1;
        } else if has_flag_prefix(a, 'M') {
            return finish_mode_group(args, i, 'M', opts);
        } else if has_flag_prefix(a, 'T') {
            return finish_mode_group(args, i, 'T', opts);
        } else if has_flag_prefix(a, 'X') {
            return finish_mode_group(args, i, 'X', opts);
        } else if has_flag_prefix(a, 'P') && a.unicode_len() == 2 {
            let mut out = opts;
            push_all_from(&mut out.clojure_args, args, i + 1);
            proof {
                assert(out@ =~~= drained(o, toks, i + 1 as int));
            }
            return Ok(ParseOutcome::Run(ExecOpts::Prepare, out));
        } else if has_flag_prefix(a, 'S') {
            if token_eq(a, "-Sdeps") {
                if i + 1 < args.len() {
                    let d = args[i + 1].clone();
                    proof {
                        assert(d@ == toks[i + 1 as int]);
                    }
                    opts.deps = Some(d);
                    proof {
                        assert(opts@ =~~= CljOptsV { deps: Some(toks[i + 1 as int]), ..o });
                    }
                    i += 2;
                } else {
                    return Err(LaunchError::UnsupportedOption(args[i].clone()));
                }
            } else if token_eq(a, "-Spath") {
                opts.path = true;
                proof {
                    assert(opts@ =~~= CljOptsV { path: true, ..o });
                }
                i += 1;
            } else if token_eq(a, "-Strace") {
                opts.trace = true;
                proof {
                    assert(opts@ =~~= CljOptsV { trace: true, ..o });
                }
                i += 1;
            } else if token_eq(a, "-Sverbose") {
                opts.verbose = true;
                proof {
                    assert(opts@ =~~= CljOptsV { verbose: true, ..o });
                }
                i += 1;
            } else if token_eq(a, "-Stree") {
                opts.tree = true;
                proof {
                    assert(opts@ =~~= CljOptsV { tree: true, ..o });
                }
                i += 1;
            } else if token_eq(a, "-Spom") {
                opts.pom = true;
                proof {
                    assert(opts@ =~~= CljOptsV { pom: true, ..o });
                }
                i += 1;
            } else {
                return Err(LaunchError::UnsupportedOption(args[i].clone()));
            }
        } else if token_eq(a, "--") {
            let mut out = opts;
            push_all_from(&mut out.clojure_args, args, i + 1);
            proof {
                assert(out@ =~~= drained(o, toks, i + 1 as int));
            }
            return Ok(ParseOutcome::Run(ExecOpts::Repl, out));
        } else {
            let mut out = opts;
            push_all_from(&mut out.clojure_args, args, i);
            proof {
                assert(out@ =~~= drained(o, toks, i as int));
            }
            return Ok(ParseOutcome::Run(ExecOpts::Repl, out));
        }
    }
    proof {
        assert(parse_spec(toks) == ParseV::Intent(ModeV::Repl, opts@));
    }
    Ok(ParseOutcome::Run(ExecOpts::Repl, opts))
}

/// A token that selects a mode and drains from the very next position: a
/// bare or fused `-M`, `-T` or `-X` form (not the colon-then-next-token
/// form, which consumes one more token first), or `-P`.
pub open spec fn is_mode_selecting(t: Seq<char>) -> bool {
    ((is_opt_prefix(t, 'M') || is_opt_prefix(t, 'T') || is_opt_prefix(t, 'X')) && !(t.len() == 3
        && t[2] == ':')) || is_bare(t, 'P')
}

/// The mode such a token selects.
pub open spec fn selected_mode(t: Seq<char>) -> ModeV {
    if is_bare(t, 'P') {
        ModeV::Prepare
    } else if t.len() == 2 {
        letter_mode(t[1], Seq::empty())
    } else {
        letter_mode(t[1], strip_colon(t.skip(2)))
    }
}

/// First match wins, drain the rest: wherever the scan stands on a
/// mode-selecting token at position `i`, it ends at once with that token's
/// mode, and the passthrough arguments are exactly the tokens from `i + 1`
/// on, in original order, whatever was accumulated before.
pub proof fn lemma_mode_token_drains(toks: Seq<Seq<char>>, i: int, m: ModeV, o: CljOptsV)
    requires
        0 <= i < toks.len(),
        is_mode_selecting(toks[i]),
    ensures
        parse_from(toks, i, m, o) matches ParseV::Intent(m2, o2) && m2 == selected_mode(toks[i])
            && o2.clojure_args == o.clojure_args + toks.skip(i + 1),
{
    reveal_strlit("-version");
    reveal_strlit("--version");
    reveal_strlit("-h");
    reveal_strlit("--help");
    reveal_strlit("-?");
}

/// A token no class of the grammar recognizes.
pub open spec fn is_unrecognized(t: Seq<char>) -> bool {
    &&& !is_version_token(t)
    &&& !is_help_token(t)
    &&& !is_opt_prefix(t, 'J')
    &&& !is_opt_prefix(t, 'A')
    &&& !is_opt_prefix(t, 'M')
    &&& !is_opt_prefix(t, 'T')
    &&& !is_opt_prefix(t, 'X')
    &&& !is_bare(t, 'P')
    &&& !is_opt_prefix(t, 'S')
    &&& t != "--"@
}

/// The implicit default-mode passthrough: on an unrecognized token at
/// position `i` the scan ends at once, the mode stays as it was, and the
/// passthrough arguments are exactly the tokens from `i` on — the token
/// itself included — in original order.
pub proof fn lemma_unrecognized_token_drains(toks: Seq<Seq<char>>, i: int, m: ModeV, o: CljOptsV)
    requires
        0 <= i < toks.len(),
        is_unrecognized(toks[i]),
    ensures
        parse_from(toks, i, m, o) matches ParseV::Intent(m2, o2) && m2 == m && o2.clojure_args
            == o.clojure_args + toks.skip(i),
{
}

/// Repeated alias tokens accumulate in encounter order: an `-A` token at
/// position `i` appends its fragment to the end of what was gathered so far
/// and the scan goes on unchanged at `i + 1`.
pub proof fn lemma_alias_tokens_accumulate(toks: Seq<Seq<char>>, i: int, m: ModeV, o: CljOptsV)
    requires
        0 <= i < toks.len(),
        is_opt_prefix(toks[i], 'A'),
    ensures
        parse_from(toks, i, m, o) == parse_from(
            toks,
            i + 1,
            m,
            CljOptsV { repl_aliases: o.repl_aliases.push(strip_colon(toks[i].skip(2))), ..o },
        ),
{
    reveal_strlit("-version");
    reveal_strlit("--version");
    reveal_strlit("-h");
    reveal_strlit("--help");
    reveal_strlit("-?");
}

} // verus!
