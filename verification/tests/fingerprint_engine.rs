//! The fingerprint engine across simulated builds: first and second builds,
//! touched inputs, compiler upgrades, doc targets, and build scripts.

use buildcore::context::{Config, Context, Kind};
use buildcore::errors::CargoError;
use buildcore::fingerprint::{calculate_target_fresh, prepare_build_cmd, prepare_init, prepare_target};
use buildcore::layout::Layout;
use buildcore::package::{Package, PackageId, PackageSet, Profile, Resolve, Target};
use buildcore::source::{Source, SourceMap};
use buildcore::work::{Fs, Work};
use buildcore::Freshness;

fn pid(name: &str) -> PackageId {
    PackageId {
        name: name.to_string(),
        version: "0.5.0".to_string(),
        source_id: "registry".to_string(),
    }
}

fn profile(env: &str) -> Profile {
    Profile {
        env: env.to_string(),
        compile: true,
        test: env == "test",
        doc: env == "doc",
        plugin: false,
    }
}

fn bin_target(name: &str, env: &str) -> Target {
    Target {
        name: name.to_string(),
        stem: name.to_string(),
        src_path: "src/main.rs".to_string(),
        lib: false,
        bin: true,
        dylib: false,
        rlib: false,
        profile: profile(env),
    }
}

fn lib_target(name: &str, env: &str) -> Target {
    Target {
        name: name.to_string(),
        stem: name.to_string(),
        src_path: "src/lib.rs".to_string(),
        lib: true,
        bin: false,
        dylib: false,
        rlib: true,
        profile: profile(env),
    }
}

fn foo_pkg(build: Vec<String>) -> Package {
    Package {
        id: pid("foo"),
        root: "/p/foo".to_string(),
        targets: vec![bin_target("foo", "compile")],
        build,
    }
}

struct World {
    resolve: Resolve,
    sources: SourceMap,
    pkgs: PackageSet,
}

fn world(fingerprint: &str) -> World {
    World {
        resolve: Resolve { nodes: vec![(pid("foo"), vec![])] },
        sources: SourceMap {
            sources: vec![Source {
                id: "registry".to_string(),
                fingerprints: vec![(pid("foo"), fingerprint.to_string())],
            }],
        },
        pkgs: PackageSet { packages: vec![foo_pkg(Vec::new())] },
    }
}

fn ctx<'a>(w: &'a World, version: &str) -> Context<'a> {
    Context::new(
        "compile",
        &w.resolve,
        &w.sources,
        &w.pkgs,
        Config { target: None },
        Layout::new("/t/root"),
        None,
        version.to_string(),
        "lib-.so\n-\n",
        None,
    )
    .unwrap()
}

/// The promote pairs of a preparation.
fn promote_pairs(prep: &(Freshness, Work, Work)) -> Vec<(String, String)> {
    match &prep.2 {
        Work::Promote { pairs } => pairs.clone(),
        _ => panic!("expected promote work"),
    }
}

/// The fingerprint file location and value of a preparation.
fn write_fp(prep: &(Freshness, Work, Work)) -> (String, String) {
    match &prep.1 {
        Work::WriteFingerprint { path, fingerprint } => (path.clone(), fingerprint.clone()),
        _ => panic!("expected write-fingerprint work"),
    }
}

/// A snapshot standing for the state after a successful first build whose
/// outputs were rotated into the `.old` mirror: the old fingerprint file
/// holds `fp`, the old dep-info lists `src/main.rs`, and both the input and
/// the build outputs exist.
fn after_first_build(prep: &(Freshness, Work, Work), input_mtime: u64) -> Fs {
    let (_, fp) = write_fp(prep);
    let pairs = promote_pairs(prep);
    let mut fs = Fs::new();
    // pairs[0] is the fingerprint file, pairs[1] the dep-info, the rest the
    // build outputs; the `.0` side of each pair is the old location.
    fs.add_file(pairs[0].0.clone(), 100, Some(fp));
    fs.add_file(pairs[1].0.clone(), 100, Some("foo: src/main.rs\n".to_string()));
    fs.add_file("/p/foo/src/main.rs".to_string(), input_mtime, None);
    for p in pairs.iter().skip(2) {
        fs.add_file(p.0.clone(), 100, None);
    }
    fs
}

#[test]
fn first_build_of_a_binary_is_dirty() {
    let w = world("rev1");
    let cx = ctx(&w, "rustc 1.0.0");
    let pkg = foo_pkg(Vec::new());
    let target = bin_target("foo", "compile");
    let fs = Fs::new();
    let prep = prepare_target(&cx, &pkg, &target, Kind::Target, &fs).unwrap();
    assert_eq!(prep.0, Freshness::Dirty);
    let (path, fp) = write_fp(&prep);
    // The fingerprint file lives in the per-package fingerprint directory and
    // holds 32 lowercase hex characters.
    assert!(path.starts_with("/t/root/fingerprint/foo-"));
    assert!(path.ends_with("/bin-foo"));
    assert_eq!(fp.len(), 32);
    assert!(fp.chars().all(|c| c.is_ascii_hexdigit() && !c.is_ascii_uppercase()));
    // The binary's output name carries the probed (empty) exe suffix.
    let pairs = promote_pairs(&prep);
    assert_eq!(pairs.len(), 3);
    assert_eq!(pairs[2].0, "/t/root.old/deps/foo");
    assert_eq!(pairs[2].1, "/t/root/deps/foo");
}

#[test]
fn second_build_with_nothing_changed_is_fresh() {
    let w = world("rev1");
    let cx = ctx(&w, "rustc 1.0.0");
    let pkg = foo_pkg(Vec::new());
    let target = bin_target("foo", "compile");
    let first = prepare_target(&cx, &pkg, &target, Kind::Target, &Fs::new()).unwrap();
    assert_eq!(first.0, Freshness::Dirty);
    let fs = after_first_build(&first, 50);
    let second = prepare_target(&cx, &pkg, &target, Kind::Target, &fs).unwrap();
    assert_eq!(second.0, Freshness::Fresh);
}

#[test]
fn fresh_promote_sources_all_exist() {
    let w = world("rev1");
    let cx = ctx(&w, "rustc 1.0.0");
    let pkg = foo_pkg(Vec::new());
    let target = bin_target("foo", "compile");
    let first = prepare_target(&cx, &pkg, &target, Kind::Target, &Fs::new()).unwrap();
    let fs = after_first_build(&first, 50);
    let second = prepare_target(&cx, &pkg, &target, Kind::Target, &fs).unwrap();
    assert_eq!(second.0, Freshness::Fresh);
    for (src, _dst) in promote_pairs(&second) {
        assert!(fs.lookup(&src).is_some(), "promote source missing: {}", src);
    }
}

#[test]
fn touching_an_input_makes_the_target_dirty() {
    let w = world("rev1");
    let cx = ctx(&w, "rustc 1.0.0");
    let pkg = foo_pkg(Vec::new());
    let target = bin_target("foo", "compile");
    let first = prepare_target(&cx, &pkg, &target, Kind::Target, &Fs::new()).unwrap();
    let pairs = promote_pairs(&first);
    // The same snapshot as after the first build, except that the input is
    // now newer than the dep-info file.
    let mut touched = Fs::new();
    let (_, fp) = write_fp(&first);
    touched.add_file(pairs[0].0.clone(), 100, Some(fp));
    touched.add_file(pairs[1].0.clone(), 100, Some("foo: src/main.rs\n".to_string()));
    touched.add_file("/p/foo/src/main.rs".to_string(), 200, None);
    assert_eq!(calculate_target_fresh(&pkg, &pairs[1].0, &touched).unwrap(), false);
    let second = prepare_target(&cx, &pkg, &target, Kind::Target, &touched).unwrap();
    assert_eq!(second.0, Freshness::Dirty);
}

#[test]
fn missing_input_makes_the_target_dirty() {
    let w = world("rev1");
    let cx = ctx(&w, "rustc 1.0.0");
    let pkg = foo_pkg(Vec::new());
    let target = bin_target("foo", "compile");
    let first = prepare_target(&cx, &pkg, &target, Kind::Target, &Fs::new()).unwrap();
    let pairs = promote_pairs(&first);
    let (_, fp) = write_fp(&first);
    let mut fs = Fs::new();
    fs.add_file(pairs[0].0.clone(), 100, Some(fp));
    fs.add_file(pairs[1].0.clone(), 100, Some("foo: src/main.rs\n".to_string()));
    // src/main.rs is gone.
    let second = prepare_target(&cx, &pkg, &target, Kind::Target, &fs).unwrap();
    assert_eq!(second.0, Freshness::Dirty);
}

#[test]
fn compiler_upgrade_invalidates_every_fingerprint() {
    let w = world("rev1");
    let cx1 = ctx(&w, "rustc 1.0.0");
    let pkg = foo_pkg(Vec::new());
    let target = bin_target("foo", "compile");
    let first = prepare_target(&cx1, &pkg, &target, Kind::Target, &Fs::new()).unwrap();
    let fs = after_first_build(&first, 50);
    // The same build under the upgraded compiler: sources unchanged, yet the
    // stored fingerprint no longer matches.
    let cx2 = ctx(&w, "rustc 1.1.0");
    let second = prepare_target(&cx2, &pkg, &target, Kind::Target, &fs).unwrap();
    assert_eq!(second.0, Freshness::Dirty);
    let (_, fp1) = write_fp(&first);
    let (_, fp2) = write_fp(&second);
    assert_ne!(fp1, fp2);
}

#[test]
fn malformed_dep_info_is_an_error() {
    let w = world("rev1");
    let cx = ctx(&w, "rustc 1.0.0");
    let pkg = foo_pkg(Vec::new());
    let target = bin_target("foo", "compile");
    let first = prepare_target(&cx, &pkg, &target, Kind::Target, &Fs::new()).unwrap();
    let pairs = promote_pairs(&first);
    let mut fs = Fs::new();
    fs.add_file(pairs[1].0.clone(), 100, Some("no separator here".to_string()));
    match prepare_target(&cx, &pkg, &target, Kind::Target, &fs) {
        Err(CargoError::Internal { desc }) => {
            assert_eq!(desc, "dep-info not in an understood format");
        }
        _ => panic!("expected an internal error"),
    }
}

#[test]
fn unreadable_dep_info_is_dirty_not_an_error() {
    let w = world("rev1");
    let cx = ctx(&w, "rustc 1.0.0");
    let pkg = foo_pkg(Vec::new());
    let target = bin_target("foo", "compile");
    let first = prepare_target(&cx, &pkg, &target, Kind::Target, &Fs::new()).unwrap();
    let pairs = promote_pairs(&first);
    let (_, fp) = write_fp(&first);
    let mut fs = Fs::new();
    fs.add_file(pairs[0].0.clone(), 100, Some(fp));
    fs.add_file(pairs[1].0.clone(), 100, None);
    let second = prepare_target(&cx, &pkg, &target, Kind::Target, &fs).unwrap();
    assert_eq!(second.0, Freshness::Dirty);
}

#[test]
fn test_target_source_does_not_invalidate_the_library() {
    // One package, a library target and a test target, each with its own
    // dep-info. Touching the test-only source leaves the library fresh.
    let lib = lib_target("foo", "compile");
    let tst = {
        let mut t = lib_target("foo", "test");
        t.src_path = "src/test.rs".to_string();
        t
    };
    let pkg = Package {
        id: pid("foo"),
        root: "/p/foo".to_string(),
        targets: vec![lib.clone(), tst.clone()],
        build: Vec::new(),
    };
    let w = World {
        resolve: Resolve { nodes: vec![(pid("foo"), vec![])] },
        sources: SourceMap {
            sources: vec![Source {
                id: "registry".to_string(),
                fingerprints: vec![(pid("foo"), "rev1".to_string())],
            }],
        },
        pkgs: PackageSet { packages: vec![pkg.clone()] },
    };
    let cx = ctx(&w, "rustc 1.0.0");
    let lib_first = prepare_target(&cx, &pkg, &lib, Kind::Target, &Fs::new()).unwrap();
    let tst_first = prepare_target(&cx, &pkg, &tst, Kind::Target, &Fs::new()).unwrap();
    let lib_pairs = promote_pairs(&lib_first);
    let tst_pairs = promote_pairs(&tst_first);
    // Distinct fingerprint and dep-info files per target.
    assert_ne!(lib_pairs[0].0, tst_pairs[0].0);
    assert_ne!(lib_pairs[1].0, tst_pairs[1].0);
    let (_, lib_fp) = write_fp(&lib_first);
    let (_, tst_fp) = write_fp(&tst_first);
    let mut fs = Fs::new();
    fs.add_file(lib_pairs[0].0.clone(), 100, Some(lib_fp));
    fs.add_file(lib_pairs[1].0.clone(), 100, Some("foo: src/lib.rs\n".to_string()));
    fs.add_file(tst_pairs[0].0.clone(), 100, Some(tst_fp));
    fs.add_file(tst_pairs[1].0.clone(), 100, Some("foo: src/test.rs\n".to_string()));
    fs.add_file("/p/foo/src/lib.rs".to_string(), 50, None);
    // The test-only source was touched after the build.
    fs.add_file("/p/foo/src/test.rs".to_string(), 200, None);
    for p in lib_pairs.iter().skip(2) {
        fs.add_file(p.0.clone(), 100, None);
    }
    let lib_second = prepare_target(&cx, &pkg, &lib, Kind::Target, &fs).unwrap();
    let tst_second = prepare_target(&cx, &pkg, &tst, Kind::Target, &fs).unwrap();
    assert_eq!(lib_second.0, Freshness::Fresh);
    assert_eq!(tst_second.0, Freshness::Dirty);
}

#[test]
fn doc_target_ignores_dep_info_but_tracks_the_source_fingerprint() {
    let doc = lib_target("foo", "doc");
    let pkg = Package {
        id: pid("foo"),
        root: "/p/foo".to_string(),
        targets: vec![doc.clone()],
        build: Vec::new(),
    };
    let w = world("rev1");
    let cx = ctx(&w, "rustc 1.0.0");
    let first = prepare_target(&cx, &pkg, &doc, Kind::Target, &Fs::new()).unwrap();
    assert_eq!(first.0, Freshness::Dirty);
    // Doc targets promote only their fingerprint file.
    let pairs = promote_pairs(&first);
    assert_eq!(pairs.len(), 1);
    let (_, fp) = write_fp(&first);
    let mut fs = Fs::new();
    fs.add_file(pairs[0].0.clone(), 100, Some(fp.clone()));
    // No dep-info anywhere, yet the doc target is fresh.
    let second = prepare_target(&cx, &pkg, &doc, Kind::Target, &fs).unwrap();
    assert_eq!(second.0, Freshness::Fresh);
    // A changed source fingerprint changes the doc fingerprint.
    let w2 = world("rev2");
    let cx2 = ctx(&w2, "rustc 1.0.0");
    let third = prepare_target(&cx2, &pkg, &doc, Kind::Target, &fs).unwrap();
    assert_eq!(third.0, Freshness::Dirty);
    let (_, fp3) = write_fp(&third);
    assert_ne!(fp, fp3);
}

#[test]
fn package_without_build_commands_is_trivially_fresh() {
    let w = world("rev1");
    let cx = ctx(&w, "rustc 1.0.0");
    let pkg = foo_pkg(Vec::new());
    let prep = prepare_build_cmd(&cx, &pkg, &Fs::new()).unwrap();
    assert_eq!(prep.0, Freshness::Fresh);
    assert!(matches!(prep.1, Work::Noop));
    assert!(matches!(prep.2, Work::Noop));
}

#[test]
fn build_command_fingerprint_follows_the_package() {
    let w = world("rev1");
    let cx = ctx(&w, "rustc 1.0.0");
    let pkg = foo_pkg(vec!["./configure".to_string()]);
    let first = prepare_build_cmd(&cx, &pkg, &Fs::new()).unwrap();
    assert_eq!(first.0, Freshness::Dirty);
    let (path, fp) = write_fp(&first);
    assert!(path.ends_with("/build"));
    let pairs = promote_pairs(&first);
    assert_eq!(pairs.len(), 2);
    assert!(pairs[1].0.starts_with("/t/root.old/native/foo-"));
    assert!(pairs[1].1.starts_with("/t/root/native/foo-"));
    // Second build: the stored fingerprint matches.
    let mut fs = Fs::new();
    fs.add_file(pairs[0].0.clone(), 100, Some(fp));
    let second = prepare_build_cmd(&cx, &pkg, &fs).unwrap();
    assert_eq!(second.0, Freshness::Fresh);
    // A changed package source fingerprint makes it dirty again.
    let w2 = world("rev2");
    let cx2 = ctx(&w2, "rustc 1.0.0");
    let third = prepare_build_cmd(&cx2, &pkg, &fs).unwrap();
    assert_eq!(third.0, Freshness::Dirty);
}

#[test]
fn missing_source_fingerprint_is_an_error() {
    let pkg = foo_pkg(vec!["./configure".to_string()]);
    let w = World {
        resolve: Resolve { nodes: vec![(pid("foo"), vec![])] },
        sources: SourceMap { sources: Vec::new() },
        pkgs: PackageSet { packages: vec![foo_pkg(Vec::new())] },
    };
    let cx = ctx(&w, "rustc 1.0.0");
    match prepare_build_cmd(&cx, &pkg, &Fs::new()) {
        Err(CargoError::Internal { desc }) => {
            assert!(desc.starts_with("BUG:"));
        }
        _ => panic!("expected an internal error"),
    }
}

#[test]
fn prepare_init_makes_the_fingerprint_directory_twice() {
    let w = world("rev1");
    let cx = ctx(&w, "rustc 1.0.0");
    let pkg = foo_pkg(Vec::new());
    let (w1, w2) = prepare_init(&cx, &pkg, Kind::Target);
    let p1 = match w1 {
        Work::Mkdir { path } => path,
        _ => panic!("expected mkdir work"),
    };
    let p2 = match w2 {
        Work::Mkdir { path } => path,
        _ => panic!("expected mkdir work"),
    };
    assert_eq!(p1, p2);
    assert!(p1.starts_with("/t/root/fingerprint/foo-"));
}

#[test]
fn context_prepare_emits_the_layout_directories() {
    let w = world("rev1");
    let mut cx = ctx(&w, "rustc 1.0.0");
    let pkg = foo_pkg(Vec::new());
    let works = cx.prepare(&pkg).unwrap();
    let paths: Vec<String> = works
        .iter()
        .map(|wk| match wk {
            Work::Mkdir { path } => path.clone(),
            _ => panic!("expected mkdir work"),
        })
        .collect();
    assert_eq!(
        paths,
        vec![
            "/t/root".to_string(),
            "/t/root/deps".to_string(),
            "/t/root/native".to_string(),
            "/t/root/fingerprint".to_string(),
        ],
    );
}
