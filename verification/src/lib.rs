//! Verified core of a Clojure command-line launcher.
//!
//! The launcher turns a raw argument sequence into a structured execution
//! intent, derives a content-addressed cache key for the expensive classpath
//! resolution step, decides whether the cached resolution is still valid, and
//! constructs the final child-process invocation for the selected execution
//! mode.  Everything with branching logic lives here, verified; process
//! spawning, downloads and file I/O live in the surrounding binary.

use vstd::prelude::*;

pub mod cachekey;
pub mod dispatch;
pub mod envres;
pub mod errors;
pub mod opts;
pub mod parser;
pub mod refresh;
pub mod strutil;

verus! {

/// The launcher's own version, which names the clojure-tools release it
/// installs and reports for a version query.
pub const VERSION: &'static str = "1.11.1.1155";

/// The line printed for a version query, after which the invocation ends
/// successfully without touching the cache or the environment.
pub fn version_message() -> (r: String)
    ensures
        r@ == "Clojure CLI version 1.11.1.1155"@,
{
    String::from_str("Clojure CLI version 1.11.1.1155")
}

/// The resolver archive's path under the install directory, named by the
/// pinned version.
pub fn tools_jar_path(install_dir: &str) -> (r: String)
    ensures
        r@ == install_dir@ + "/clojure-tools-"@ + VERSION@ + ".jar"@,
{
    let mut s = String::from_str(install_dir);
    s.append("/clojure-tools-");
    s.append(VERSION);
    s.append(".jar");
    proof {
        assert(s@ =~= install_dir@ + "/clojure-tools-"@ + VERSION@ + ".jar"@);
    }
    s
}

} // verus!
