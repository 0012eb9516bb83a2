//! The launcher's data model: the execution mode selected by the command
//! line, and the remaining structured options.  Exactly one mode is active
//! per invocation; the first mode-selecting token wins.

use vstd::prelude::*;

verus! {

/// The mutually-exclusive dispatch category selected by command-line tokens.
#[derive(Debug, PartialEq, Eq)]
pub enum ExecOpts {
    /// Default: run a read-eval-print loop.
    Repl,
    /// Classpath-modifying alias set; merges into the Repl/Main path.
    Alias(String),
    /// Invoke a function with structured arguments.
    Exec(String),
    /// Invoke a named tool or tool alias.
    Tool(String),
    /// Invoke a main entry point with free-form arguments.
    Main(String),
    /// Resolve and cache only; do not execute a final process.
    Prepare,
}

/// Spec-level image of `ExecOpts`, with alias text as a character sequence.
pub ghost enum ModeV {
    Repl,
    Alias(Seq<char>),
    Exec(Seq<char>),
    Tool(Seq<char>),
    Main(Seq<char>),
    Prepare,
}

impl View for ExecOpts {
    type V = ModeV;

    open spec fn view(&self) -> ModeV {
        match self {
            ExecOpts::Repl => ModeV::Repl,
            ExecOpts::Alias(a) => ModeV::Alias(a@),
            ExecOpts::Exec(a) => ModeV::Exec(a@),
            ExecOpts::Tool(a) => ModeV::Tool(a@),
            ExecOpts::Main(a) => ModeV::Main(a@),
            ExecOpts::Prepare => ModeV::Prepare,
        }
    }
}

/// Everything the argument parser produces besides the execution mode:
/// accumulated alias fragments, runtime options, the inline configuration
/// override, boolean flags, and the residual passthrough arguments.
#[derive(Debug, PartialEq, Eq)]
pub struct CljOpts {
    /// Alias fragments accumulated from repeated alias tokens, in encounter
    /// order.
    pub repl_aliases: Vec<String>,
    /// Raw runtime option strings accumulated from `-J` tokens, in order.
    pub jvm_opts: Vec<String>,
    /// Inline configuration data consumed after a `-Sdeps` token.
    pub deps: Option<String>,
    /// Compute the classpath and echo it to stdout only.
    pub path: bool,
    /// Generate or update a project descriptor with dependencies and paths.
    pub pom: bool,
    /// Print the dependency tree.
    pub tree: bool,
    /// Describe each step on stdout.
    pub verbose: bool,
    /// Ask the resolver for a trace of its work.
    pub trace: bool,
    /// Tokens forwarded unmodified to the ultimately dispatched process.
    pub clojure_args: Vec<String>,
}

/// Spec-level image of `CljOpts`.
#[verifier::ext_equal]
pub ghost struct CljOptsV {
    pub repl_aliases: Seq<Seq<char>>,
    pub jvm_opts: Seq<Seq<char>>,
    pub deps: Option<Seq<char>>,
    pub path: bool,
    pub pom: bool,
    pub tree: bool,
    pub verbose: bool,
    pub trace: bool,
    pub clojure_args: Seq<Seq<char>>,
}

impl View for CljOpts {
    type V = CljOptsV;

    open spec fn view(&self) -> CljOptsV {
        CljOptsV {
            repl_aliases: self.repl_aliases.deep_view(),
            jvm_opts: self.jvm_opts.deep_view(),
            deps: self.deps.deep_view(),
            path: self.path,
            pom: self.pom,
            tree: self.tree,
            verbose: self.verbose,
            trace: self.trace,
            clojure_args: self.clojure_args.deep_view(),
        }
    }
}

/// The state in which the argument scan starts: default mode, nothing
/// accumulated, every flag off.
pub open spec fn init_opts_v() -> CljOptsV {
    CljOptsV {
        repl_aliases: Seq::empty(),
        jvm_opts: Seq::empty(),
        deps: None,
        path: false,
        pom: false,
        tree: false,
        verbose: false,
        trace: false,
        clojure_args: Seq::empty(),
    }
}

impl Default for CljOpts {
    /// The options value the scan starts from.
    fn default() -> (r: CljOpts)
        ensures
            r@ == init_opts_v(),
    {
        let r = CljOpts {
            repl_aliases: Vec::new(),
            jvm_opts: Vec::new(),
            deps: None,
            path: false,
            pom: false,
            tree: false,
            verbose: false,
            trace: false,
            clojure_args: Vec::new(),
        };
        proof {
            assert(r@ =~~= init_opts_v());
        }
        r
    }
}

} // verus!
