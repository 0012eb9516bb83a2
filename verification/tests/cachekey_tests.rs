use clojure::cachekey::{cache_key_source, derive_artifact_paths, derive_cache_key, md5_string};
use clojure::opts::{CljOpts, ExecOpts};

fn strs(xs: &[&str]) -> Vec<String> {
    xs.iter().map(|s| s.to_string()).collect()
}

fn opts_with_args(args: &[&str]) -> CljOpts {
    let mut o = CljOpts::default();
    o.clojure_args = strs(args);
    o
}

#[test]
fn canonical_source_exact_value() {
    let opts = CljOpts::default();
    let src = cache_key_source(&ExecOpts::Repl, &opts, &strs(&["a", "b"]));
    assert_eq!(src, "|R|0[|2[1:a1:b|n".to_string());
}

#[test]
fn canonical_source_with_every_section() {
    let mut opts = opts_with_args(&["-m", "app"]);
    opts.deps = Some("{:deps {}}".to_string());
    let src = cache_key_source(&ExecOpts::Main("dev".to_string()), &opts, &strs(&["p"]));
    assert_eq!(src, "|M3:dev|2[2:-m3:app|1[1:p|s10:{:deps {}}".to_string());
}

#[test]
fn key_is_the_md5_of_the_canonical_source() {
    let opts = opts_with_args(&["x"]);
    let paths = strs(&["deps.edn"]);
    let mode = ExecOpts::Repl;
    let src = cache_key_source(&mode, &opts, &paths);
    let digest = <md5::Md5 as md5::Digest>::digest(src.as_bytes());
    let mut expected = String::new();
    for b in digest.iter() {
        expected.push_str(&format!("{:02x}", b));
    }
    assert_eq!(derive_cache_key(&mode, &opts, &paths), expected);
}

#[test]
fn md5_matches_a_known_vector() {
    // The reference digest of the three-byte input "abc".
    assert_eq!(
        md5_string("abc"),
        "900150983cd24fb0d6963f7d28e17f72".to_string()
    );
}

#[test]
fn key_is_32_lowercase_hex_characters() {
    let key = derive_cache_key(&ExecOpts::Repl, &CljOpts::default(), &strs(&[]));
    assert_eq!(key.len(), 32);
    assert!(key.chars().all(|c| c.is_ascii_hexdigit() && !c.is_ascii_uppercase()));
}

#[test]
fn key_is_pure_and_ignores_volatile_fields() {
    let paths = strs(&["deps.edn"]);
    let base = opts_with_args(&["-m", "app"]);
    let key1 = derive_cache_key(&ExecOpts::Repl, &base, &paths);
    let key2 = derive_cache_key(&ExecOpts::Repl, &base, &paths);
    assert_eq!(key1, key2);

    let mut noisy = opts_with_args(&["-m", "app"]);
    noisy.jvm_opts = strs(&["-Xmx2g"]);
    noisy.repl_aliases = strs(&["dev"]);
    noisy.path = true;
    noisy.pom = true;
    noisy.tree = true;
    noisy.verbose = true;
    noisy.trace = true;
    assert_eq!(key1, derive_cache_key(&ExecOpts::Repl, &noisy, &paths));
}

#[test]
fn key_tracks_every_ingredient() {
    let paths = strs(&["deps.edn"]);
    let base = opts_with_args(&["-m", "app"]);
    let key = derive_cache_key(&ExecOpts::Repl, &base, &paths);

    assert_ne!(key, derive_cache_key(&ExecOpts::Prepare, &base, &paths));
    assert_ne!(key, derive_cache_key(&ExecOpts::Repl, &opts_with_args(&["-m", "other"]), &paths));
    assert_ne!(key, derive_cache_key(&ExecOpts::Repl, &base, &strs(&["other.edn"])));
    let mut with_deps = opts_with_args(&["-m", "app"]);
    with_deps.deps = Some("{}".to_string());
    assert_ne!(key, derive_cache_key(&ExecOpts::Repl, &with_deps, &paths));
}

#[test]
fn field_boundaries_cannot_run_together() {
    // The length prefixes keep adjacent fields apart: one two-character
    // argument and two one-character arguments encode differently.
    let paths = strs(&["p"]);
    let joined = opts_with_args(&["ab"]);
    let split = opts_with_args(&["a", "b"]);
    assert_ne!(
        cache_key_source(&ExecOpts::Repl, &joined, &paths),
        cache_key_source(&ExecOpts::Repl, &split, &paths)
    );
    assert_ne!(
        derive_cache_key(&ExecOpts::Repl, &joined, &paths),
        derive_cache_key(&ExecOpts::Repl, &split, &paths)
    );
}

#[test]
fn artifact_paths_join_key_and_suffix_under_the_cache_dir() {
    let set = derive_artifact_paths("/c", "k");
    assert_eq!(set.libs_file, "/c/k.libs".to_string());
    assert_eq!(set.cp_file, "/c/k.cp".to_string());
    assert_eq!(set.jvm_file, "/c/k.jvm".to_string());
    assert_eq!(set.main_file, "/c/k.main".to_string());
    assert_eq!(set.basis_file, "/c/k.basis".to_string());
    assert_eq!(set.manifest_file, "/c/k.manifest".to_string());
}
