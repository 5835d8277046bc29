//! The platform-requirement walk over resolved graphs: the lattice, diamond
//! and plugin-shaped graphs, and cycle safety.

use buildcore::context::{Config, Context};
use buildcore::layout::Layout;
use buildcore::package::{Package, PackageId, PackageSet, Profile, Resolve, Target};
use buildcore::requirements::PlatformRequirement;
use buildcore::source::SourceMap;

fn pid(name: &str) -> PackageId {
    PackageId {
        name: name.to_string(),
        version: "1.0.0".to_string(),
        source_id: "registry".to_string(),
    }
}

fn compile_profile() -> Profile {
    Profile {
        env: "compile".to_string(),
        compile: true,
        test: false,
        doc: false,
        plugin: false,
    }
}

fn plugin_profile() -> Profile {
    Profile {
        env: "compile".to_string(),
        compile: true,
        test: false,
        doc: false,
        plugin: true,
    }
}

fn lib_target(name: &str, profile: Profile) -> Target {
    Target {
        name: name.to_string(),
        stem: name.to_string(),
        src_path: "src/lib.rs".to_string(),
        lib: true,
        bin: false,
        dylib: false,
        rlib: true,
        profile,
    }
}

fn lib_pkg(name: &str, profile: Profile) -> Package {
    Package {
        id: pid(name),
        root: format!("/p/{}", name),
        targets: vec![lib_target(name, profile)],
        build: Vec::new(),
    }
}

fn probe() -> &'static str {
    "lib-.so\n-\n"
}

use PlatformRequirement::{Plugin, PluginAndTarget, Target as TargetReq};

#[test]
fn combine_is_the_lattice_join() {
    assert_eq!(TargetReq.combine(TargetReq), TargetReq);
    assert_eq!(Plugin.combine(Plugin), Plugin);
    assert_eq!(Plugin.combine(TargetReq), PluginAndTarget);
    assert_eq!(TargetReq.combine(Plugin), PluginAndTarget);
    assert_eq!(PluginAndTarget.combine(TargetReq), PluginAndTarget);
    assert_eq!(PluginAndTarget.combine(Plugin), PluginAndTarget);
    assert_eq!(TargetReq.combine(PluginAndTarget), PluginAndTarget);
    assert_eq!(Plugin.combine(PluginAndTarget), PluginAndTarget);
    assert_eq!(PluginAndTarget.combine(PluginAndTarget), PluginAndTarget);
}

#[test]
fn diamond_graph_is_all_target() {
    let pkgs = PackageSet {
        packages: vec![
            lib_pkg("a", compile_profile()),
            lib_pkg("b", compile_profile()),
            lib_pkg("c", compile_profile()),
            lib_pkg("d", compile_profile()),
        ],
    };
    let resolve = Resolve {
        nodes: vec![
            (pid("a"), vec![pid("b"), pid("c")]),
            (pid("b"), vec![pid("d")]),
            (pid("c"), vec![pid("d")]),
            (pid("d"), vec![]),
        ],
    };
    let sources = SourceMap { sources: Vec::new() };
    let mut cx = Context::new(
        "compile",
        &resolve,
        &sources,
        &pkgs,
        Config { target: None },
        Layout::new("/t/root"),
        None,
        "rustc 1.0.0".to_string(),
        probe(),
        None,
    )
    .unwrap();
    let root = lib_pkg("a", compile_profile());
    cx.prepare(&root).unwrap();
    assert_eq!(cx.requirements.entries.len(), 4);
    for name in ["a", "b", "c", "d"] {
        let p = lib_pkg(name, compile_profile());
        let t = lib_target(name, compile_profile());
        assert_eq!(cx.get_requirement(&p, &t), PlatformRequirement::Target);
    }
}

#[test]
fn plugin_subgraph_is_plugin_only() {
    let pkgs = PackageSet {
        packages: vec![
            lib_pkg("a", compile_profile()),
            lib_pkg("plugin_lib", plugin_profile()),
            lib_pkg("util_lib", compile_profile()),
        ],
    };
    let resolve = Resolve {
        nodes: vec![
            (pid("a"), vec![pid("plugin_lib")]),
            (pid("plugin_lib"), vec![pid("util_lib")]),
            (pid("util_lib"), vec![]),
        ],
    };
    let sources = SourceMap { sources: Vec::new() };
    let mut cx = Context::new(
        "compile",
        &resolve,
        &sources,
        &pkgs,
        Config { target: None },
        Layout::new("/t/root"),
        None,
        "rustc 1.0.0".to_string(),
        probe(),
        None,
    )
    .unwrap();
    let root = lib_pkg("a", compile_profile());
    cx.prepare(&root).unwrap();
    let get = |cx: &Context, name: &str, profile: Profile| {
        let p = lib_pkg(name, profile.clone());
        let t = lib_target(name, profile);
        cx.get_requirement(&p, &t)
    };
    assert_eq!(get(&cx, "a", compile_profile()), PlatformRequirement::Target);
    assert_eq!(get(&cx, "plugin_lib", plugin_profile()), PlatformRequirement::Plugin);
    assert_eq!(get(&cx, "util_lib", compile_profile()), PlatformRequirement::Plugin);
}

#[test]
fn plugin_and_target_paths_combine_to_both() {
    let pkgs = PackageSet {
        packages: vec![
            lib_pkg("a", compile_profile()),
            lib_pkg("plugin_lib", plugin_profile()),
            lib_pkg("util_lib", compile_profile()),
        ],
    };
    // a depends on util_lib directly too, so util_lib is reached both ways.
    let resolve = Resolve {
        nodes: vec![
            (pid("a"), vec![pid("plugin_lib"), pid("util_lib")]),
            (pid("plugin_lib"), vec![pid("util_lib")]),
            (pid("util_lib"), vec![]),
        ],
    };
    let sources = SourceMap { sources: Vec::new() };
    let mut cx = Context::new(
        "compile",
        &resolve,
        &sources,
        &pkgs,
        Config { target: None },
        Layout::new("/t/root"),
        None,
        "rustc 1.0.0".to_string(),
        probe(),
        None,
    )
    .unwrap();
    let root = lib_pkg("a", compile_profile());
    cx.prepare(&root).unwrap();
    let p = lib_pkg("util_lib", compile_profile());
    let t = lib_target("util_lib", compile_profile());
    assert_eq!(cx.get_requirement(&p, &t), PlatformRequirement::PluginAndTarget);
}

#[test]
fn cyclic_graph_terminates() {
    let pkgs = PackageSet {
        packages: vec![lib_pkg("a", compile_profile()), lib_pkg("b", compile_profile())],
    };
    let resolve = Resolve {
        nodes: vec![
            (pid("a"), vec![pid("b")]),
            (pid("b"), vec![pid("a")]),
        ],
    };
    let sources = SourceMap { sources: Vec::new() };
    let mut cx = Context::new(
        "compile",
        &resolve,
        &sources,
        &pkgs,
        Config { target: None },
        Layout::new("/t/root"),
        None,
        "rustc 1.0.0".to_string(),
        probe(),
        None,
    )
    .unwrap();
    let root = lib_pkg("a", compile_profile());
    cx.prepare(&root).unwrap();
    assert_eq!(cx.requirements.entries.len(), 2);
}

#[test]
fn unknown_package_is_reported_as_a_bug() {
    let pkgs = PackageSet { packages: vec![lib_pkg("a", compile_profile())] };
    // a depends on a package that is not in the set.
    let resolve = Resolve {
        nodes: vec![(pid("a"), vec![pid("ghost")])],
    };
    let sources = SourceMap { sources: Vec::new() };
    let mut cx = Context::new(
        "compile",
        &resolve,
        &sources,
        &pkgs,
        Config { target: None },
        Layout::new("/t/root"),
        None,
        "rustc 1.0.0".to_string(),
        probe(),
        None,
    )
    .unwrap();
    let root = lib_pkg("a", compile_profile());
    let err = cx.prepare(&root).unwrap_err();
    match err {
        buildcore::errors::CargoError::Internal { desc } => {
            assert!(desc.starts_with("BUG:"));
        }
        _ => panic!("expected an internal error"),
    }
}

#[test]
fn unrecorded_pair_defaults_to_target() {
    let pkgs = PackageSet { packages: vec![lib_pkg("a", compile_profile())] };
    let resolve = Resolve { nodes: vec![(pid("a"), vec![])] };
    let sources = SourceMap { sources: Vec::new() };
    let cx = Context::new(
        "compile",
        &resolve,
        &sources,
        &pkgs,
        Config { target: None },
        Layout::new("/t/root"),
        None,
        "rustc 1.0.0".to_string(),
        probe(),
        None,
    )
    .unwrap();
    let p = lib_pkg("never_walked", compile_profile());
    let t = lib_target("never_walked", compile_profile());
    assert_eq!(cx.get_requirement(&p, &t), PlatformRequirement::Target);
}

#[test]
fn dep_target_selection_respects_env() {
    // In env "compile", a dependency's doc-profile target is not selected.
    let mut doc_prof = compile_profile();
    doc_prof.env = "doc".to_string();
    doc_prof.compile = false;
    doc_prof.doc = true;
    let dep = Package {
        id: pid("dep"),
        root: "/p/dep".to_string(),
        targets: vec![lib_target("dep", doc_prof)],
        build: Vec::new(),
    };
    let pkgs = PackageSet { packages: vec![lib_pkg("a", compile_profile()), dep] };
    let resolve = Resolve {
        nodes: vec![(pid("a"), vec![pid("dep")]), (pid("dep"), vec![])],
    };
    let sources = SourceMap { sources: Vec::new() };
    let mut cx = Context::new(
        "compile",
        &resolve,
        &sources,
        &pkgs,
        Config { target: None },
        Layout::new("/t/root"),
        None,
        "rustc 1.0.0".to_string(),
        probe(),
        None,
    )
    .unwrap();
    let root = lib_pkg("a", compile_profile());
    cx.prepare(&root).unwrap();
    // Only `a` itself was recorded; the dep had no relevant target.
    assert_eq!(cx.requirements.entries.len(), 1);
}
