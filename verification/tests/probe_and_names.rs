//! The compiler probe parser, output filename mapping, hashing helpers, and
//! the git source types.

use buildcore::context::{filename_parts, Config, Context};
use buildcore::errors::CargoError;
use buildcore::git::{
    needs_update, GitReference, GitRemote, GitRevision, Location,
};
use buildcore::layout::Layout;
use buildcore::package::{
    short_hash, Package, PackageId, PackageSet, Profile, Resolve, Target,
};
use buildcore::source::SourceMap;

fn pid(name: &str) -> PackageId {
    PackageId {
        name: name.to_string(),
        version: "1.0.0".to_string(),
        source_id: "registry".to_string(),
    }
}

fn profile(env: &str) -> Profile {
    Profile {
        env: env.to_string(),
        compile: true,
        test: env == "test",
        doc: env == "doc",
        plugin: false,
    }
}

fn target(name: &str, lib: bool, bin: bool, dylib: bool, rlib: bool, prof: Profile) -> Target {
    Target {
        name: name.to_string(),
        stem: name.to_string(),
        src_path: "src/lib.rs".to_string(),
        lib,
        bin,
        dylib,
        rlib,
        profile: prof,
    }
}

fn ctx_with<'a>(
    resolve: &'a Resolve,
    sources: &'a SourceMap,
    pkgs: &'a PackageSet,
    probe_target: &str,
    probe_host: Option<&str>,
    triple: Option<String>,
) -> Context<'a> {
    Context::new(
        "compile",
        resolve,
        sources,
        pkgs,
        Config { target: triple },
        Layout::new("/t/root"),
        None,
        "rustc 1.0.0".to_string(),
        probe_target,
        probe_host,
    )
    .unwrap()
}

struct World {
    resolve: Resolve,
    sources: SourceMap,
    pkgs: PackageSet,
}

fn empty_world() -> World {
    World {
        resolve: Resolve { nodes: Vec::new() },
        sources: SourceMap { sources: Vec::new() },
        pkgs: PackageSet { packages: Vec::new() },
    }
}

#[test]
fn probe_output_parses_into_prefix_suffix_and_exe() {
    let ((prefix, suffix), exe) = filename_parts("lib-.so\n-\n").unwrap();
    assert_eq!(prefix, "lib");
    assert_eq!(suffix, ".so");
    assert_eq!(exe, "");
    let ((prefix, suffix), exe) = filename_parts("-.dll\n-.exe\n").unwrap();
    assert_eq!(prefix, "");
    assert_eq!(suffix, ".dll");
    assert_eq!(exe, ".exe");
}

#[test]
fn probe_output_with_unexpected_shape_is_an_error() {
    // A dylib line that does not split into exactly two parts.
    match filename_parts("libfoo.so\n-\n") {
        Err(CargoError::Internal { desc }) => {
            assert_eq!(desc, "compiler file-name probe output has changed");
        }
        _ => panic!("expected an internal error"),
    }
    // Too few lines.
    assert!(filename_parts("lib-.so").is_err());
    assert!(filename_parts("").is_err());
}

#[test]
fn bin_and_test_targets_name_one_executable() {
    let w = empty_world();
    let cx = ctx_with(&w.resolve, &w.sources, &w.pkgs, "lib-.so\n-.exe\n", None, None);
    let t = target("foo", false, true, false, false, profile("compile"));
    assert_eq!(cx.target_filenames(&t).unwrap(), vec!["foo.exe".to_string()]);
    let t = target("foo", true, false, true, true, profile("test"));
    assert_eq!(cx.target_filenames(&t).unwrap(), vec!["foo.exe".to_string()]);
}

#[test]
fn library_targets_name_dylib_and_rlib() {
    let w = empty_world();
    let cx = ctx_with(&w.resolve, &w.sources, &w.pkgs, "lib-.so\n-\n", None, None);
    let both = target("foo", true, false, true, true, profile("compile"));
    assert_eq!(
        cx.target_filenames(&both).unwrap(),
        vec!["libfoo.so".to_string(), "libfoo.rlib".to_string()],
    );
    let rlib_only = target("foo", true, false, false, true, profile("compile"));
    assert_eq!(cx.target_filenames(&rlib_only).unwrap(), vec!["libfoo.rlib".to_string()]);
    // Equal inputs give equal outputs.
    assert_eq!(
        cx.target_filenames(&both).unwrap(),
        cx.target_filenames(&both).unwrap(),
    );
}

#[test]
fn plugin_dylib_uses_the_host_pair() {
    let w = empty_world();
    let cx = ctx_with(
        &w.resolve,
        &w.sources,
        &w.pkgs,
        "cross-.so\n-\n",
        Some("host-.dylib\n-\n"),
        Some("some-triple".to_string()),
    );
    let mut plugin_prof = profile("compile");
    plugin_prof.plugin = true;
    let plugin = target("foo", true, false, true, false, plugin_prof);
    assert_eq!(cx.target_filenames(&plugin).unwrap(), vec!["hostfoo.dylib".to_string()]);
    let plain = target("foo", true, false, true, false, profile("compile"));
    assert_eq!(cx.target_filenames(&plain).unwrap(), vec!["crossfoo.so".to_string()]);
}

#[test]
fn without_cross_target_host_equals_target_dylib() {
    let w = empty_world();
    let cx = ctx_with(&w.resolve, &w.sources, &w.pkgs, "lib-.so\n-\n", None, None);
    assert_eq!(cx.host_dylib, cx.target_dylib);
}

#[test]
fn cross_compiling_without_a_host_probe_is_an_error() {
    let w = empty_world();
    let r = Context::new(
        "compile",
        &w.resolve,
        &w.sources,
        &w.pkgs,
        Config { target: Some("some-triple".to_string()) },
        Layout::new("/t/root"),
        None,
        "rustc 1.0.0".to_string(),
        "lib-.so\n-\n",
        None,
    );
    assert!(r.is_err());
}

#[test]
fn target_with_no_output_files_is_an_error() {
    let w = empty_world();
    let cx = ctx_with(&w.resolve, &w.sources, &w.pkgs, "lib-.so\n-\n", None, None);
    let t = target("foo", true, false, false, false, profile("compile"));
    match cx.target_filenames(&t) {
        Err(CargoError::Internal { desc }) => {
            assert_eq!(desc, "target produces no output files");
        }
        _ => panic!("expected an internal error"),
    }
}

#[test]
fn short_hash_is_stable_and_key_sensitive() {
    let a = short_hash(&pid("foo"));
    let b = short_hash(&pid("foo"));
    assert_eq!(a, b);
    assert_eq!(a.len(), 16);
    assert!(a.chars().all(|c| c.is_ascii_hexdigit() && !c.is_ascii_uppercase()));
    // Name, version and source all flow into the hash.
    assert_ne!(a, short_hash(&pid("bar")));
    let mut other_version = pid("foo");
    other_version.version = "2.0.0".to_string();
    assert_ne!(a, short_hash(&other_version));
    let mut other_source = pid("foo");
    other_source.source_id = "git".to_string();
    assert_ne!(a, short_hash(&other_source));
}

#[test]
fn layout_separates_current_and_previous_build() {
    let l = Layout::new("/t/root");
    assert_eq!(l.root, "/t/root");
    assert_eq!(l.deps, "/t/root/deps");
    assert_eq!(l.native, "/t/root/native");
    assert_eq!(l.fingerprint, "/t/root/fingerprint");
    assert_eq!(l.old_root, "/t/root.old");
    assert_eq!(l.old_deps, "/t/root.old/deps");
    assert_eq!(l.old_native, "/t/root.old/native");
    assert_eq!(l.old_fingerprint, "/t/root.old/fingerprint");
}

#[test]
fn git_reference_reads_master_and_others() {
    assert!(matches!(GitReference::for_str("master"), GitReference::Master));
    match GitReference::for_str("v1.2.3") {
        GitReference::Other(s) => assert_eq!(s, "v1.2.3"),
        _ => panic!("expected a named reference"),
    }
    assert_eq!(GitReference::Master.as_slice(), "master");
    assert_eq!(GitReference::for_str("dev").as_slice(), "dev");
}

#[test]
fn git_revision_comes_from_trimmed_command_output() {
    let rev = GitRevision::from_output(b"deadbeef123\n");
    assert_eq!(rev.as_slice(), "deadbeef123");
    // Invalid bytes are decoded leniently, not dropped.
    let rev = GitRevision::from_output(&[0xff, b'a']);
    assert_eq!(rev.as_slice(), "\u{FFFD}a");
}

#[test]
fn checkout_update_decision_compares_revisions() {
    let rev = GitRevision::new("abc".to_string());
    let head = GitRevision::new("abc".to_string());
    assert!(!needs_update(Some(&head), &rev));
    let stale = GitRevision::new("def".to_string());
    assert!(needs_update(Some(&stale), &rev));
    assert!(needs_update(None, &rev));
}

#[test]
fn git_types_encode_their_plain_forms() {
    let remote = GitRemote::new(&Location::Remote("https://example.test/repo".to_string()));
    assert_eq!(remote.to_encodable().location, "https://example.test/repo");
    let db = remote.db_at("/cache/db");
    assert_eq!(db.get_path(), "/cache/db");
    let enc = db.to_encodable();
    assert_eq!(enc.path, "/cache/db");
    let co = buildcore::git::GitCheckout::new(
        "/cache/co",
        db,
        GitRevision::new("deadbeef".to_string()),
    );
    assert_eq!(co.get_rev(), "deadbeef");
    assert_eq!(co.get_source(), "/cache/db");
    let enc = co.to_encodable();
    assert_eq!(enc.location, "/cache/co");
    assert_eq!(enc.revision, "deadbeef");
}

#[test]
fn relevance_follows_the_environment_tag() {
    let w = empty_world();
    let with_env = |env: &'static str| {
        Context::new(
            env,
            &w.resolve,
            &w.sources,
            &w.pkgs,
            Config { target: None },
            Layout::new("/t/root"),
            None,
            "rustc 1.0.0".to_string(),
            "lib-.so\n-\n",
            None,
        )
        .unwrap()
    };
    // Plain env: the profile's env must match.
    let cx = with_env("compile");
    let t_compile = target("x", true, false, false, true, profile("compile"));
    let t_other = target("x", true, false, false, true, profile("bench"));
    assert!(cx.is_relevant_target(&t_compile));
    assert!(!cx.is_relevant_target(&t_other));
    // A non-library target is never relevant.
    let t_bin = target("x", false, true, false, false, profile("compile"));
    assert!(!cx.is_relevant_target(&t_bin));
    // "test" and "doc" builds walk compile-producing library targets.
    let cx = with_env("test");
    assert!(cx.is_relevant_target(&t_compile));
    let mut no_compile = t_compile.clone();
    no_compile.profile.compile = false;
    assert!(!cx.is_relevant_target(&no_compile));
    // "doc-all" also walks doc targets.
    let cx = with_env("doc-all");
    let mut doc_t = t_compile.clone();
    doc_t.profile.compile = false;
    doc_t.profile.doc = true;
    assert!(cx.is_relevant_target(&doc_t));
}
