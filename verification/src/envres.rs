//! Environment resolution: pure decisions over what the host reported.  The
//! caller reads environment variables, the search path and the filesystem,
//! and hands the observed values in; these functions fix which directory or
//! executable wins, and when the host is too bare to proceed.

use vstd::prelude::*;

use crate::errors::LaunchError;

verus! {

/// The user configuration directory implied by the environment: the
/// dedicated variable if set, else a `.clojure` directory under the first
/// home-directory variable that is set.
pub open spec fn config_dir_of(
    clj_config: Option<Seq<char>>,
    home: Option<Seq<char>>,
    userprofile: Option<Seq<char>>,
) -> Option<Seq<char>> {
    if clj_config is Some {
        clj_config
    } else if home is Some {
        Some(home->Some_0 + "/.clojure"@)
    } else if userprofile is Some {
        Some(userprofile->Some_0 + "/.clojure"@)
    } else {
        None
    }
}

/// Determines the user configuration directory from the environment values
/// handed in: the dedicated variable wins, then each home-directory fallback
/// in order; with none set the invocation fails before anything spawns.
pub fn get_clj_config(
    clj_config: Option<String>,
    home: Option<String>,
    userprofile: Option<String>,
) -> (r: Result<String, LaunchError>)
    ensures
        config_dir_of(clj_config.deep_view(), home.deep_view(), userprofile.deep_view()) matches
            Some(d) ==> (r matches Ok(s) && s@ == d),
        config_dir_of(clj_config.deep_view(), home.deep_view(), userprofile.deep_view()) is None
            ==> r == Err::<String, LaunchError>(LaunchError::EnvironmentUnresolved),
{
    match clj_config {
        Some(c) => Ok(c),
        None => match home {
            Some(h) => {
                let mut s = h;
                s.append("/.clojure");
                Ok(s)
            },
            None => match userprofile {
                Some(u) => {
                    let mut s = u;
                    s.append("/.clojure");
                    Ok(s)
                },
                None => Err(LaunchError::EnvironmentUnresolved),
            },
        },
    }
}

/// The user-level cache directory: the dedicated cache variable if set, else
/// a `.cpcache` directory under the configuration directory.
pub open spec fn user_cache_of(clj_cache: Option<Seq<char>>, config_dir: Seq<char>) -> Seq<char> {
    if clj_cache is Some {
        clj_cache->Some_0
    } else {
        config_dir + "/.cpcache"@
    }
}

/// Determines the user-level cache directory from the cache variable and the
/// already-resolved configuration directory.
pub fn get_clj_cache(clj_cache: Option<String>, config_dir: &str) -> (r: String)
    ensures
        r@ == user_cache_of(clj_cache.deep_view(), config_dir@),
{
    match clj_cache {
        Some(c) => c,
        None => {
            let mut s = String::from_str(config_dir);
            s.append("/.cpcache");
            s
        },
    }
}

/// The cache directory an invocation uses.  An explicitly set cache variable
/// wins outright; otherwise a project with its own configuration file gets
/// an isolated project-local cache, and only projects without one share the
/// user-level cache.
pub open spec fn selected_cache_dir_of(
    clj_cache: Option<Seq<char>>,
    project_config_exists: bool,
    config_dir: Seq<char>,
) -> Seq<char> {
    if clj_cache is Some {
        clj_cache->Some_0
    } else if project_config_exists {
        ".cpcache"@
    } else {
        config_dir + "/.cpcache"@
    }
}

/// Selects the cache directory: the dedicated cache variable if set, else
/// the project-local cache when the working directory has its own
/// configuration file, else the user-level cache.
pub fn select_cache_dir(
    clj_cache: Option<String>,
    project_config_exists: bool,
    config_dir: &str,
) -> (r: String)
    ensures
        r@ == selected_cache_dir_of(clj_cache.deep_view(), project_config_exists, config_dir@),
{
    if project_config_exists {
        match clj_cache {
            Some(c) => c,
            None => String::from_str(".cpcache"),
        }
    } else {
        get_clj_cache(clj_cache, config_dir)
    }
}

/// The cache-directory precedence, spelled out: the cache variable wins over
/// everything; without it a project-local configuration file forces the
/// project-local cache; only with neither does the user-level cache apply.
pub proof fn lemma_cache_dir_precedence(
    clj_cache: Option<Seq<char>>,
    project_config_exists: bool,
    config_dir: Seq<char>,
)
    ensures
        clj_cache matches Some(c) ==> selected_cache_dir_of(
            clj_cache,
            project_config_exists,
            config_dir,
        ) == c,
        clj_cache is None && project_config_exists ==> selected_cache_dir_of(
            clj_cache,
            project_config_exists,
            config_dir,
        ) == ".cpcache"@,
        clj_cache is None && !project_config_exists ==> selected_cache_dir_of(
            clj_cache,
            project_config_exists,
            config_dir,
        ) == config_dir + "/.cpcache"@,
{
}

/// The runtime executable the environment offers: one found on the search
/// path wins; else the first of the two conventional candidates under the
/// runtime home that exists.
pub open spec fn java_command_of(
    which_java: Option<Seq<char>>,
    java_home: Option<Seq<char>>,
    exe_candidate_exists: bool,
    plain_candidate_exists: bool,
) -> Option<Seq<char>> {
    if which_java is Some {
        which_java
    } else if java_home is Some && exe_candidate_exists {
        Some(java_home->Some_0 + "/bin/java.exe"@)
    } else if java_home is Some && plain_candidate_exists {
        Some(java_home->Some_0 + "/bin/java"@)
    } else {
        None
    }
}

/// Determines the runtime executable from what the host reported: the
/// search-path hit, the existence of each candidate under the runtime home
/// variable, in that order; with none the invocation fails before anything
/// spawns.
pub fn get_java_command(
    which_java: Option<String>,
    java_home: Option<String>,
    exe_candidate_exists: bool,
    plain_candidate_exists: bool,
) -> (r: Result<String, LaunchError>)
    ensures
        java_command_of(
            which_java.deep_view(),
            java_home.deep_view(),
            exe_candidate_exists,
            plain_candidate_exists,
        ) matches Some(j) ==> (r matches Ok(s) && s@ == j),
        java_command_of(
            which_java.deep_view(),
            java_home.deep_view(),
            exe_candidate_exists,
            plain_candidate_exists,
        ) is None ==> r == Err::<String, LaunchError>(LaunchError::RuntimeNotFound),
{
    match which_java {
        Some(j) => Ok(j),
        None => match java_home {
            Some(h) => {
                if exe_candidate_exists {
                    let mut s = h;
                    s.append("/bin/java.exe");
                    Ok(s)
                } else if plain_candidate_exists {
                    let mut s = h;
                    s.append("/bin/java");
                    Ok(s)
                } else {
                    Err(LaunchError::RuntimeNotFound)
                }
            },
            None => Err(LaunchError::RuntimeNotFound),
        },
    }
}

/// The fixed-precedence configuration path chain: the install-provided
/// default, the user configuration file, the project-local file, consulted
/// in that order, later entries overriding earlier ones during resolution.
pub open spec fn config_paths_of(install_dir: Seq<char>, config_dir: Seq<char>) -> Seq<Seq<char>> {
    seq![install_dir + "/deps.edn"@, config_dir + "/deps.edn"@, "deps.edn"@]
}

/// Where the versioned toolchain lives under the configuration directory:
/// the install root, its version marker, and the directory handed onward.
pub struct InstallPaths {
    pub install_dir: String,
    pub version_file: String,
    pub tools_dir: String,
}

/// Builds the install locations under the configuration directory.
pub fn install_paths(config_dir: &str) -> (r: InstallPaths)
    ensures
        r.install_dir@ == config_dir@ + "/clojure-tools"@,
        r.version_file@ == config_dir@ + "/clojure-tools/VERSION"@,
        r.tools_dir@ == config_dir@ + "/clojure-tools/ClojureTools"@,
{
    let mut d = String::from_str(config_dir);
    d.append("/clojure-tools");
    let mut vf = String::from_str(config_dir);
    vf.append("/clojure-tools/VERSION");
    let mut td = String::from_str(config_dir);
    td.append("/clojure-tools/ClojureTools");
    proof {
        reveal_strlit("/clojure-tools");
        reveal_strlit("/clojure-tools/VERSION");
        reveal_strlit("/clojure-tools/ClojureTools");
        reveal_strlit("/VERSION");
        reveal_strlit("/ClojureTools");
        assert(vf@ =~= config_dir@ + "/clojure-tools/VERSION"@);
        assert(td@ =~= config_dir@ + "/clojure-tools/ClojureTools"@);
    }
    InstallPaths { install_dir: d, version_file: vf, tools_dir: td }
}

/// Whether the version marker a previous install left matches the pinned
/// version, so the download is skipped.
pub fn install_is_current(version_contents: &str) -> (r: bool)
    ensures
        r == (version_contents@ == crate::VERSION@),
{
    crate::strutil::token_eq(version_contents, crate::VERSION)
}

/// The versioned archive's download address.
pub fn tools_download_url() -> (r: String)
    ensures
        r@ == "https://download.clojure.org/install/clojure-tools-"@ + crate::VERSION@ + ".zip"@,
{
    let mut s = String::from_str("https://download.clojure.org/install/clojure-tools-");
    s.append(crate::VERSION);
    s.append(".zip");
    proof {
        assert(s@ =~= "https://download.clojure.org/install/clojure-tools-"@ + crate::VERSION@
            + ".zip"@);
    }
    s
}

/// Builds the configuration path chain for the cache key and the resolver.
pub fn config_paths(install_dir: &str, config_dir: &str) -> (r: Vec<String>)
    ensures
        r.deep_view() == config_paths_of(install_dir@, config_dir@),
{
    let mut v: Vec<String> = Vec::new();
    let mut p0 = String::from_str(install_dir);
    p0.append("/deps.edn");
    v.push(p0);
    let mut p1 = String::from_str(config_dir);
    p1.append("/deps.edn");
    v.push(p1);
    v.push(String::from_str("deps.edn"));
    proof {
        assert(v.deep_view() =~~= config_paths_of(install_dir@, config_dir@));
    }
    v
}

} // verus!
