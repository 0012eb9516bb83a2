//! Cache-key derivation.  A stable fingerprint is computed from exactly the
//! inputs that affect the resolver's output — the execution mode, the
//! passthrough arguments, the configuration paths, and the inline
//! configuration override — and from nothing else: jvm options and the
//! boolean flags are deliberately excluded, since they do not affect the
//! resolved classpath and would only cause cache misses.
//!
//! The fields are serialized into a canonical, length-prefixed string and
//! digested.  Collisions are not handled: a collision silently reuses a
//! wrong cache entry, an accepted risk given the digest's output space.

use vstd::prelude::*;

use vstd::arithmetic::div_mod::lemma_fundamental_div_mod;

use crate::opts::{CljOpts, ExecOpts, ModeV};
use crate::strutil::{dec_digit, dec_of, hex_of, to_hex, usize_to_dec};

verus! {

/// `s` prefixed with its own length in decimal and a colon, so that no
/// string can run into the field after it.
pub open spec fn enc_of(s: Seq<char>) -> Seq<char> {
    dec_of(s.len()) + seq![':'] + s
}

/// Every element of `xs` length-prefix encoded, in order.
pub open spec fn enc_list_of(xs: Seq<Seq<char>>) -> Seq<char>
    decreases xs.len(),
{
    if xs.len() == 0 {
        Seq::empty()
    } else {
        enc_of(xs[0]) + enc_list_of(xs.skip(1))
    }
}

proof fn lemma_enc_list_push(xs: Seq<Seq<char>>, x: Seq<char>)
    ensures
        enc_list_of(xs.push(x)) == enc_list_of(xs) + enc_of(x),
    decreases xs.len(),
{
    reveal_with_fuel(enc_list_of, 3);
    if xs.len() == 0 {
        assert(xs.push(x).skip(1) =~~= Seq::<Seq<char>>::empty());
        assert(enc_list_of(xs.push(x)) == enc_of(xs.push(x)[0]) + enc_list_of(xs.push(x).skip(1)));
        assert(enc_list_of(xs.push(x)) =~= enc_list_of(xs) + enc_of(x));
    } else {
        assert(xs.push(x).skip(1) =~~= xs.skip(1).push(x));
        lemma_enc_list_push(xs.skip(1), x);
        assert(xs.push(x)[0] == xs[0]);
        assert(enc_list_of(xs.push(x)) == enc_of(xs[0]) + (enc_list_of(xs.skip(1)) + enc_of(x)));
        assert(enc_list_of(xs) == enc_of(xs[0]) + enc_list_of(xs.skip(1)));
        assert(enc_of(xs[0]) + (enc_list_of(xs.skip(1)) + enc_of(x)) =~= (enc_of(xs[0])
            + enc_list_of(xs.skip(1))) + enc_of(x));
    }
}

/// The mode's tag in the canonical string: one letter, plus the encoded
/// alias for the alias-carrying modes.
pub open spec fn mode_tag_of(m: ModeV) -> Seq<char> {
    match m {
        ModeV::Repl => seq!['R'],
        ModeV::Alias(a) => seq!['A'] + enc_of(a),
        ModeV::Exec(a) => seq!['X'] + enc_of(a),
        ModeV::Tool(a) => seq!['T'] + enc_of(a),
        ModeV::Main(a) => seq!['M'] + enc_of(a),
        ModeV::Prepare => seq!['P'],
    }
}

/// An optional field's encoding: `n` for absent, `s` plus the encoded value
/// for present.
pub open spec fn enc_opt_of(o: Option<Seq<char>>) -> Seq<char> {
    match o {
        None => seq!['n'],
        Some(s) => seq!['s'] + enc_of(s),
    }
}

/// The canonical string the cache key digests: the mode, the passthrough
/// arguments, the configuration paths and the inline override, each field
/// length-prefixed and the sections separated by `|` and counted, so the
/// encoding is unambiguous.
pub open spec fn cache_key_source_of(
    m: ModeV,
    args: Seq<Seq<char>>,
    config_paths: Seq<Seq<char>>,
    deps: Option<Seq<char>>,
) -> Seq<char> {
    seq!['|'] + (mode_tag_of(m) + (seq!['|'] + (dec_of(args.len()) + (seq!['['] + (enc_list_of(
        args,
    ) + (seq!['|'] + (dec_of(config_paths.len()) + (seq!['['] + (enc_list_of(config_paths) + (
    seq!['|'] + enc_opt_of(deps)))))))))))
}

/// The digest of the UTF-8 encoding of a character sequence under the MD5
/// function, named but not axiomatized: the library states only that the
/// digest depends on the text alone.
pub uninterp spec fn md5_of(s: Seq<char>) -> Seq<u8>;

/// Relies on the md-5 crate: `Md5` implements `digest::Digest`, its output
/// is 16 bytes (`OutputSize = U16`), and `Digest::digest` computes a value
/// that depends on the input bytes alone.
#[verifier::external_body]
fn md5_digest(s: &str) -> (r: Vec<u8>)
    ensures
        r@ == md5_of(s@),
        r@.len() == 16,
{
    <md5::Md5 as md5::Digest>::digest(s.as_bytes()).to_vec()
}

/// The lowercase hexadecimal MD5 digest of `s`.
pub fn md5_string(s: &str) -> (r: String)
    ensures
        r@ == hex_of(md5_of(s@)),
        r@.len() == 32,
{
    let bytes = md5_digest(s);
    to_hex(&bytes)
}

/// Appends the length-prefixed encoding of `s` to `out`.
fn append_enc(out: &mut String, s: &str)
    ensures
        final(out)@ == old(out)@ + enc_of(s@),
{
    let n = usize_to_dec(s.unicode_len());
    out.append(n.as_str());
    out.append(":");
    out.append(s);
    proof {
        reveal_strlit(":");
        assert(":"@ =~= seq![':']);
        assert(final(out)@ =~= old(out)@ + enc_of(s@));
    }
}

/// Appends the encoding of every element of `xs` to `out`, in order.
fn append_enc_list(out: &mut String, xs: &Vec<String>)
    ensures
        final(out)@ == old(out)@ + enc_list_of(xs.deep_view()),
{
    let mut i: usize = 0;
    while i < xs.len()
        invariant
            i <= xs@.len(),
            out@ == old(out)@ + enc_list_of(xs.deep_view().take(i as int)),
        decreases xs@.len() - i,
    {
        append_enc(out, xs[i].as_str());
        proof {
            assert(xs.deep_view().take(i as int).push(xs.deep_view()[i as int]) =~~= xs.deep_view()
                .take(i + 1 as int));
            lemma_enc_list_push(xs.deep_view().take(i as int), xs.deep_view()[i as int]);
            assert(out@ =~= old(out)@ + enc_list_of(xs.deep_view().take(i + 1 as int)));
        }
        i += 1;
    }
    proof {
        assert(xs.deep_view().take(xs.deep_view().len() as int) =~~= xs.deep_view());
    }
}

/// Appends the mode tag to `out`.
fn append_mode_tag(out: &mut String, e: &ExecOpts)
    ensures
        final(out)@ == old(out)@ + mode_tag_of(e@),
{
    proof {
        reveal_strlit("R");
        reveal_strlit("A");
        reveal_strlit("X");
        reveal_strlit("T");
        reveal_strlit("M");
        reveal_strlit("P");
    }
    match e {
        ExecOpts::Repl => {
            out.append("R");
            proof {
                assert(final(out)@ =~= old(out)@ + mode_tag_of(e@));
            }
        },
        ExecOpts::Alias(a) => {
            out.append("A");
            append_enc(out, a.as_str());
            proof {
                assert(final(out)@ =~= old(out)@ + mode_tag_of(e@));
            }
        },
        ExecOpts::Exec(a) => {
            out.append("X");
            append_enc(out, a.as_str());
            proof {
                assert(final(out)@ =~= old(out)@ + mode_tag_of(e@));
            }
        },
        ExecOpts::Tool(a) => {
            out.append("T");
            append_enc(out, a.as_str());
            proof {
                assert(final(out)@ =~= old(out)@ + mode_tag_of(e@));
            }
        },
        ExecOpts::Main(a) => {
            out.append("M");
            append_enc(out, a.as_str());
            proof {
                assert(final(out)@ =~= old(out)@ + mode_tag_of(e@));
            }
        },
        ExecOpts::Prepare => {
            out.append("P");
            proof {
                assert(final(out)@ =~= old(out)@ + mode_tag_of(e@));
            }
        },
    }
}

/// The canonical string the cache key is computed from, exactly
/// `cache_key_source_of` over the mode, the passthrough arguments, the
/// configuration paths and the inline override.
#[verifier::rlimit(50)]
pub fn cache_key_source(exec_opts: &ExecOpts, clj_opts: &CljOpts, config_paths: &Vec<String>) -> (r:
    String)
    ensures
        r@ == cache_key_source_of(
            exec_opts@,
            clj_opts.clojure_args.deep_view(),
            config_paths.deep_view(),
            clj_opts.deps.deep_view(),
        ),
{
    proof {
        reveal_strlit("|");
        reveal_strlit("[");
        reveal_strlit("n");
        reveal_strlit("s");
    }
    let mut out = String::new();
    out.append("|");
    append_mode_tag(&mut out, exec_opts);
    out.append("|");
    let n_args = usize_to_dec(clj_opts.clojure_args.len());
    out.append(n_args.as_str());
    out.append("[");
    append_enc_list(&mut out, &clj_opts.clojure_args);
    out.append("|");
    let n_paths = usize_to_dec(config_paths.len());
    out.append(n_paths.as_str());
    out.append("[");
    append_enc_list(&mut out, config_paths);
    out.append("|");
    match &clj_opts.deps {
        None => {
            out.append("n");
        },
        Some(d) => {
            out.append("s");
            append_enc(&mut out, d.as_str());
        },
    }
    proof {
        assert(out@ =~= cache_key_source_of(
            exec_opts@,
            clj_opts.clojure_args.deep_view(),
            config_paths.deep_view(),
            clj_opts.deps.deep_view(),
        ));
    }
    out
}

/// The cache key: the hexadecimal digest of the canonical string.  Two
/// invocations with identical mode, passthrough arguments, configuration
/// paths and inline override get the same key.
pub fn derive_cache_key(exec_opts: &ExecOpts, clj_opts: &CljOpts, config_paths: &Vec<String>) -> (r:
    String)
    ensures
        r@ == hex_of(
            md5_of(
                cache_key_source_of(
                    exec_opts@,
                    clj_opts.clojure_args.deep_view(),
                    config_paths.deep_view(),
                    clj_opts.deps.deep_view(),
                ),
            ),
        ),
        r@.len() == 32,
{
    let src = cache_key_source(exec_opts, clj_opts, config_paths);
    md5_string(src.as_str())
}

/// The six files one resolution result is split across, named by the cache
/// key.  Written only by the external resolver; read by the dispatcher;
/// never mutated in place — invalidation occurs by key change.
pub struct CacheArtifactSet {
    /// The resolved library list.
    pub libs_file: String,
    /// The computed classpath: one line holding a platform path-list.
    /// Mandatory for every mode.
    pub cp_file: String,
    /// Resolver-supplied runtime options, whitespace-separated; treated as
    /// empty when absent.
    pub jvm_file: String,
    /// Resolver-supplied main-invocation options, whitespace-separated;
    /// treated as empty when absent.
    pub main_file: String,
    /// The basis descriptor, opaque to the launcher.
    pub basis_file: String,
    /// The manifest descriptor, opaque to the launcher.
    pub manifest_file: String,
}

/// The deterministic artifact filename: the key plus a per-kind suffix,
/// joined under the cache directory.
pub open spec fn artifact_path_of(dir: Seq<char>, key: Seq<char>, suffix: Seq<char>) -> Seq<char> {
    dir + seq!['/'] + key + suffix
}

fn artifact_path(dir: &str, key: &str, suffix: &str) -> (r: String)
    ensures
        r@ == artifact_path_of(dir@, key@, suffix@),
{
    let mut out = String::from_str(dir);
    out.append("/");
    out.append(key);
    out.append(suffix);
    proof {
        reveal_strlit("/");
        assert("/"@ =~= seq!['/']);
        assert(out@ =~= artifact_path_of(dir@, key@, suffix@));
    }
    out
}

/// The six artifact paths for cache key `key` under `cache_dir`.
pub fn derive_artifact_paths(cache_dir: &str, key: &str) -> (r: CacheArtifactSet)
    ensures
        r.libs_file@ == artifact_path_of(cache_dir@, key@, ".libs"@),
        r.cp_file@ == artifact_path_of(cache_dir@, key@, ".cp"@),
        r.jvm_file@ == artifact_path_of(cache_dir@, key@, ".jvm"@),
        r.main_file@ == artifact_path_of(cache_dir@, key@, ".main"@),
        r.basis_file@ == artifact_path_of(cache_dir@, key@, ".basis"@),
        r.manifest_file@ == artifact_path_of(cache_dir@, key@, ".manifest"@),
{
    CacheArtifactSet {
        libs_file: artifact_path(cache_dir, key, ".libs"),
        cp_file: artifact_path(cache_dir, key, ".cp"),
        jvm_file: artifact_path(cache_dir, key, ".jvm"),
        main_file: artifact_path(cache_dir, key, ".main"),
        basis_file: artifact_path(cache_dir, key, ".basis"),
        manifest_file: artifact_path(cache_dir, key, ".manifest"),
    }
}

/// A decimal digit character, the only characters a length prefix holds.
pub open spec fn is_digit_char(c: char) -> bool {
    c == '0' || c == '1' || c == '2' || c == '3' || c == '4' || c == '5' || c == '6' || c == '7'
        || c == '8' || c == '9'
}

proof fn lemma_dec_of_digits(n: nat)
    ensures
        dec_of(n).len() >= 1,
        forall|i: int| 0 <= i < dec_of(n).len() ==> is_digit_char(#[trigger] dec_of(n)[i]),
    decreases n,
{
    if n < 10 {
    } else {
        lemma_dec_of_digits(n / 10);
    }
}

proof fn lemma_dec_digit_injective(a: nat, b: nat)
    requires
        a < 10,
        b < 10,
        dec_digit(a) == dec_digit(b),
    ensures
        a == b,
{
}

proof fn lemma_dec_of_injective(m: nat, n: nat)
    requires
        dec_of(m) == dec_of(n),
    ensures
        m == n,
    decreases m + n,
{
    lemma_dec_of_digits(m);
    lemma_dec_of_digits(n);
    if m < 10 && n < 10 {
        assert(dec_of(m)[0] == dec_digit(m));
        assert(dec_of(n)[0] == dec_digit(n));
        lemma_dec_digit_injective(m, n);
    } else if m < 10 {
        lemma_dec_of_digits(n / 10);
        assert(dec_of(n).len() >= 2);
        assert(dec_of(m).len() == 1);
    } else if n < 10 {
        lemma_dec_of_digits(m / 10);
        assert(dec_of(m).len() >= 2);
        assert(dec_of(n).len() == 1);
    } else {
        let lm = dec_of(m).len();
        assert(dec_of(m)[lm - 1] == dec_digit(m % 10));
        assert(dec_of(n)[lm - 1] == dec_digit(n % 10));
        lemma_dec_digit_injective(m % 10, n % 10);
        assert(dec_of(m).take(lm - 1) =~= dec_of(m / 10));
        assert(dec_of(n).take(lm - 1) =~= dec_of(n / 10));
        lemma_dec_of_injective(m / 10, n / 10);
        lemma_fundamental_div_mod(m as int, 10);
        lemma_fundamental_div_mod(n as int, 10);
    }
}

/// A decimal length prefix closed by any non-digit separator can be read
/// back unambiguously.
proof fn lemma_dec_sep_prefix(m: nat, n: nat, c: char, r1: Seq<char>, r2: Seq<char>)
    requires
        !is_digit_char(c),
        dec_of(m) + seq![c] + r1 == dec_of(n) + seq![c] + r2,
    ensures
        m == n,
        r1 == r2,
{
    lemma_dec_of_digits(m);
    lemma_dec_of_digits(n);
    let s = dec_of(m) + seq![c] + r1;
    let lm = dec_of(m).len() as int;
    let ln = dec_of(n).len() as int;
    if lm < ln {
        assert(s[lm] == c);
        assert(s[lm] == dec_of(n)[lm]);
        assert(is_digit_char(dec_of(n)[lm]));
    } else if ln < lm {
        assert(s[ln] == c);
        assert(s[ln] == dec_of(m)[ln]);
        assert(is_digit_char(dec_of(m)[ln]));
    }
    assert(lm == ln);
    assert(dec_of(m) =~= s.take(lm));
    assert(dec_of(n) =~= s.take(lm));
    lemma_dec_of_injective(m, n);
    assert(r1 =~= s.skip(lm + 1));
    assert(r2 =~= s.skip(lm + 1));
}

/// A length-prefixed string followed by anything can be read back
/// unambiguously: the encoding never runs into what follows it.
proof fn lemma_enc_prefix(a: Seq<char>, b: Seq<char>, r1: Seq<char>, r2: Seq<char>)
    requires
        enc_of(a) + r1 == enc_of(b) + r2,
    ensures
        a == b,
        r1 == r2,
{
    assert(enc_of(a) + r1 =~= dec_of(a.len()) + seq![':'] + (a + r1));
    assert(enc_of(b) + r2 =~= dec_of(b.len()) + seq![':'] + (b + r2));
    lemma_dec_sep_prefix(a.len(), b.len(), ':', a + r1, b + r2);
    assert(a =~= (a + r1).take(a.len() as int));
    assert(b =~= (b + r2).take(a.len() as int));
    assert(r1 =~= (a + r1).skip(a.len() as int));
    assert(r2 =~= (b + r2).skip(a.len() as int));
}

/// A counted run of length-prefixed strings followed by anything can be read
/// back unambiguously.
proof fn lemma_enc_list_prefix(xs: Seq<Seq<char>>, ys: Seq<Seq<char>>, r1: Seq<char>, r2: Seq<
    char,
>)
    requires
        xs.len() == ys.len(),
        enc_list_of(xs) + r1 == enc_list_of(ys) + r2,
    ensures
        xs == ys,
        r1 == r2,
    decreases xs.len(),
{
    if xs.len() == 0 {
        assert(r1 =~= enc_list_of(xs) + r1);
        assert(r2 =~= enc_list_of(ys) + r2);
        assert(xs =~~= ys);
    } else {
        assert(enc_list_of(xs) + r1 =~= enc_of(xs[0]) + (enc_list_of(xs.skip(1)) + r1));
        assert(enc_list_of(ys) + r2 =~= enc_of(ys[0]) + (enc_list_of(ys.skip(1)) + r2));
        lemma_enc_prefix(xs[0], ys[0], enc_list_of(xs.skip(1)) + r1, enc_list_of(ys.skip(1)) + r2);
        lemma_enc_list_prefix(xs.skip(1), ys.skip(1), r1, r2);
        assert forall|i: int| 0 <= i < xs.len() implies xs[i] == ys[i] by {
            if i > 0 {
                assert(xs.skip(1)[i - 1] == xs[i]);
                assert(ys.skip(1)[i - 1] == ys[i]);
            }
        }
        assert(xs =~~= ys);
    }
}

/// The variant letter a mode tag starts with.
spec fn tag_char(m: ModeV) -> char {
    match m {
        ModeV::Repl => 'R',
        ModeV::Alias(_) => 'A',
        ModeV::Exec(_) => 'X',
        ModeV::Tool(_) => 'T',
        ModeV::Main(_) => 'M',
        ModeV::Prepare => 'P',
    }
}

/// A mode tag followed by anything can be read back unambiguously.
proof fn lemma_mode_tag_prefix(m1: ModeV, m2: ModeV, r1: Seq<char>, r2: Seq<char>)
    requires
        mode_tag_of(m1) + r1 == mode_tag_of(m2) + r2,
    ensures
        m1 == m2,
        r1 == r2,
{
    let s = mode_tag_of(m1) + r1;
    assert(mode_tag_of(m1)[0] == tag_char(m1));
    assert(mode_tag_of(m2)[0] == tag_char(m2));
    assert(mode_tag_of(m1).len() >= 1);
    assert(mode_tag_of(m2).len() >= 1);
    assert(s[0] == tag_char(m1));
    assert(s[0] == tag_char(m2));
    assert(tag_char(m1) == tag_char(m2));
    match m1 {
        ModeV::Repl => {
            assert(m2 is Repl);
            assert(r1 =~= s.skip(1));
            assert(r2 =~= s.skip(1));
        },
        ModeV::Prepare => {
            assert(m2 is Prepare);
            assert(r1 =~= s.skip(1));
            assert(r2 =~= s.skip(1));
        },
        ModeV::Alias(a1) => {
            assert(m2 matches ModeV::Alias(_));
            let a2 = m2->Alias_0;
            assert(mode_tag_of(m1) + r1 =~= seq!['A'] + (enc_of(a1) + r1));
            assert(mode_tag_of(m2) + r2 =~= seq!['A'] + (enc_of(a2) + r2));
            assert(enc_of(a1) + r1 =~= (seq!['A'] + (enc_of(a1) + r1)).skip(1));
            assert(enc_of(a2) + r2 =~= (seq!['A'] + (enc_of(a2) + r2)).skip(1));
            lemma_enc_prefix(a1, a2, r1, r2);
        },
        ModeV::Exec(a1) => {
            assert(m2 matches ModeV::Exec(_));
            let a2 = m2->Exec_0;
            assert(mode_tag_of(m1) + r1 =~= seq!['X'] + (enc_of(a1) + r1));
            assert(mode_tag_of(m2) + r2 =~= seq!['X'] + (enc_of(a2) + r2));
            assert(enc_of(a1) + r1 =~= (seq!['X'] + (enc_of(a1) + r1)).skip(1));
            assert(enc_of(a2) + r2 =~= (seq!['X'] + (enc_of(a2) + r2)).skip(1));
            lemma_enc_prefix(a1, a2, r1, r2);
        },
        ModeV::Tool(a1) => {
            assert(m2 matches ModeV::Tool(_));
            let a2 = m2->Tool_0;
            assert(mode_tag_of(m1) + r1 =~= seq!['T'] + (enc_of(a1) + r1));
            assert(mode_tag_of(m2) + r2 =~= seq!['T'] + (enc_of(a2) + r2));
            assert(enc_of(a1) + r1 =~= (seq!['T'] + (enc_of(a1) + r1)).skip(1));
            assert(enc_of(a2) + r2 =~= (seq!['T'] + (enc_of(a2) + r2)).skip(1));
            lemma_enc_prefix(a1, a2, r1, r2);
        },
        ModeV::Main(a1) => {
            assert(m2 matches ModeV::Main(_));
            let a2 = m2->Main_0;
            assert(mode_tag_of(m1) + r1 =~= seq!['M'] + (enc_of(a1) + r1));
            assert(mode_tag_of(m2) + r2 =~= seq!['M'] + (enc_of(a2) + r2));
            assert(enc_of(a1) + r1 =~= (seq!['M'] + (enc_of(a1) + r1)).skip(1));
            assert(enc_of(a2) + r2 =~= (seq!['M'] + (enc_of(a2) + r2)).skip(1));
            lemma_enc_prefix(a1, a2, r1, r2);
        },
    }
}

/// The canonical string is injective: two invocations get the same string
/// only when they agree on the mode, every passthrough argument, every
/// configuration path, and the inline override.  A key collision can
/// One leading character can be peeled off an equality of sequences.
proof fn lemma_peel_char(c: char, x: Seq<char>, y: Seq<char>)
    requires
        seq![c] + x == seq![c] + y,
    ensures
        x == y,
{
    assert(x =~= (seq![c] + x).skip(1));
    assert(y =~= (seq![c] + y).skip(1));
}

/// therefore come only from the digest itself, never from the encoding.
pub proof fn lemma_cache_key_source_injective(
    m1: ModeV,
    args1: Seq<Seq<char>>,
    cp1: Seq<Seq<char>>,
    deps1: Option<Seq<char>>,
    m2: ModeV,
    args2: Seq<Seq<char>>,
    cp2: Seq<Seq<char>>,
    deps2: Option<Seq<char>>,
)
    requires
        cache_key_source_of(m1, args1, cp1, deps1) == cache_key_source_of(m2, args2, cp2, deps2),
    ensures
        m1 == m2,
        args1 == args2,
        cp1 == cp2,
        deps1 == deps2,
{
    // Peel the sections off both strings left to right; each separator or
    // length prefix fixes where the next field ends.
    let w1 = seq!['|'] + enc_opt_of(deps1);
    let w2 = seq!['|'] + enc_opt_of(deps2);
    let v1 = enc_list_of(cp1) + w1;
    let v2 = enc_list_of(cp2) + w2;
    let u1 = dec_of(cp1.len()) + (seq!['['] + v1);
    let u2 = dec_of(cp2.len()) + (seq!['['] + v2);
    let z1 = enc_list_of(args1) + (seq!['|'] + u1);
    let z2 = enc_list_of(args2) + (seq!['|'] + u2);
    let y1 = dec_of(args1.len()) + (seq!['['] + z1);
    let y2 = dec_of(args2.len()) + (seq!['['] + z2);
    let x1 = mode_tag_of(m1) + (seq!['|'] + y1);
    let x2 = mode_tag_of(m2) + (seq!['|'] + y2);
    lemma_peel_char('|', x1, x2);
    lemma_mode_tag_prefix(m1, m2, seq!['|'] + y1, seq!['|'] + y2);
    lemma_peel_char('|', y1, y2);
    assert(y1 =~= dec_of(args1.len()) + seq!['['] + z1);
    assert(y2 =~= dec_of(args2.len()) + seq!['['] + z2);
    lemma_dec_sep_prefix(args1.len(), args2.len(), '[', z1, z2);
    lemma_enc_list_prefix(args1, args2, seq!['|'] + u1, seq!['|'] + u2);
    lemma_peel_char('|', u1, u2);
    assert(u1 =~= dec_of(cp1.len()) + seq!['['] + v1);
    assert(u2 =~= dec_of(cp2.len()) + seq!['['] + v2);
    lemma_dec_sep_prefix(cp1.len(), cp2.len(), '[', v1, v2);
    lemma_enc_list_prefix(cp1, cp2, w1, w2);
    lemma_peel_char('|', enc_opt_of(deps1), enc_opt_of(deps2));
    let e1 = enc_opt_of(deps1);
    let e2 = enc_opt_of(deps2);
    match deps1 {
        None => {
            assert(e1[0] == 'n');
            if deps2 is Some {
                assert(e2[0] == 's');
            }
        },
        Some(d1) => {
            assert(e1[0] == 's');
            if deps2 is None {
                assert(e2[0] == 'n');
            }
            let d2 = deps2->Some_0;
            lemma_peel_char('s', enc_of(d1), enc_of(d2));
            assert(enc_of(d1) + Seq::<char>::empty() =~= enc_of(d1));
            assert(enc_of(d2) + Seq::<char>::empty() =~= enc_of(d2));
            lemma_enc_prefix(d1, d2, Seq::empty(), Seq::empty());
        },
    }
}

/// The cache key reads exactly the mode, the passthrough arguments, the
/// configuration paths and the inline override: any two option records that
/// agree on the passthrough arguments and the override — however their jvm
/// options, alias fragments or boolean flags differ — yield the same
/// canonical string, hence the same digest.
pub proof fn lemma_cache_key_ignores_volatile_fields(
    m: ModeV,
    o1: crate::opts::CljOptsV,
    o2: crate::opts::CljOptsV,
    config_paths: Seq<Seq<char>>,
)
    requires
        o1.clojure_args == o2.clojure_args,
        o1.deps == o2.deps,
    ensures
        cache_key_source_of(m, o1.clojure_args, config_paths, o1.deps) == cache_key_source_of(
            m,
            o2.clojure_args,
            config_paths,
            o2.deps,
        ),
{
}

} // verus!
