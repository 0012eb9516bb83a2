use clojure::envres::{
    config_paths, get_clj_cache, get_clj_config, get_java_command, install_is_current,
    install_paths, select_cache_dir, tools_download_url,
};
use clojure::errors::LaunchError;
use clojure::{tools_jar_path, version_message};

fn s(x: &str) -> String {
    x.to_string()
}

#[test]
fn config_dir_prefers_the_dedicated_variable() {
    assert_eq!(
        get_clj_config(Some(s("/cfg")), Some(s("/home/u")), Some(s("C:/u"))),
        Ok(s("/cfg"))
    );
}

#[test]
fn config_dir_falls_back_to_home_then_userprofile() {
    assert_eq!(
        get_clj_config(None, Some(s("/home/u")), Some(s("C:/u"))),
        Ok(s("/home/u/.clojure"))
    );
    assert_eq!(get_clj_config(None, None, Some(s("C:/u"))), Ok(s("C:/u/.clojure")));
}

#[test]
fn config_dir_fails_with_nothing_set() {
    assert_eq!(
        get_clj_config(None, None, None),
        Err(LaunchError::EnvironmentUnresolved)
    );
}

#[test]
fn user_cache_prefers_the_cache_variable() {
    assert_eq!(get_clj_cache(Some(s("/cache")), "/cfg"), s("/cache"));
    assert_eq!(get_clj_cache(None, "/cfg"), s("/cfg/.cpcache"));
}

#[test]
fn scenario_project_config_selects_the_project_cache() {
    // A project with its own configuration file gets the project-local
    // cache, not the user cache — unless the cache variable is set, which
    // wins outright.
    assert_eq!(select_cache_dir(None, true, "/cfg"), s(".cpcache"));
    assert_eq!(select_cache_dir(Some(s("/cache")), true, "/cfg"), s("/cache"));
    assert_eq!(select_cache_dir(Some(s("/cache")), false, "/cfg"), s("/cache"));
    assert_eq!(select_cache_dir(None, false, "/cfg"), s("/cfg/.cpcache"));
}

#[test]
fn java_command_prefers_the_search_path_hit() {
    assert_eq!(
        get_java_command(Some(s("/usr/bin/java")), Some(s("/jdk")), true, true),
        Ok(s("/usr/bin/java"))
    );
}

#[test]
fn java_command_tries_the_home_candidates_in_order() {
    assert_eq!(
        get_java_command(None, Some(s("/jdk")), true, true),
        Ok(s("/jdk/bin/java.exe"))
    );
    assert_eq!(
        get_java_command(None, Some(s("/jdk")), false, true),
        Ok(s("/jdk/bin/java"))
    );
}

#[test]
fn java_command_fails_when_nothing_is_found() {
    assert_eq!(
        get_java_command(None, Some(s("/jdk")), false, false),
        Err(LaunchError::RuntimeNotFound)
    );
    assert_eq!(get_java_command(None, None, true, true), Err(LaunchError::RuntimeNotFound));
}

#[test]
fn config_path_chain_is_install_then_user_then_project() {
    assert_eq!(
        config_paths("/inst", "/cfg"),
        vec![s("/inst/deps.edn"), s("/cfg/deps.edn"), s("deps.edn")]
    );
}

#[test]
fn install_locations_hang_under_the_config_dir() {
    let p = install_paths("/cfg");
    assert_eq!(p.install_dir, s("/cfg/clojure-tools"));
    assert_eq!(p.version_file, s("/cfg/clojure-tools/VERSION"));
    assert_eq!(p.tools_dir, s("/cfg/clojure-tools/ClojureTools"));
}

#[test]
fn install_currency_is_an_exact_version_match() {
    assert!(install_is_current("1.11.1.1155"));
    assert!(!install_is_current("1.11.1.1154"));
    assert!(!install_is_current(""));
}

#[test]
fn fixed_strings_carry_the_pinned_version() {
    assert_eq!(
        tools_download_url(),
        s("https://download.clojure.org/install/clojure-tools-1.11.1.1155.zip")
    );
    assert_eq!(tools_jar_path("/inst"), s("/inst/clojure-tools-1.11.1.1155.jar"));
    assert_eq!(version_message(), s("Clojure CLI version 1.11.1.1155"));
}
