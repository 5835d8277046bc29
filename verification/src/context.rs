//! The compilation context: compiler probe results, layouts for the host and
//! the optional cross-target, and the platform-requirement walk over the
//! resolved dependency graph.

use vstd::prelude::*;
use vstd::set_lib::*;

use crate::errors::{internal, CargoError, CargoResult};
use crate::layout::{Layout, LayoutProxy};
use crate::package::{
    id_eq, spec_deps, spec_find_pkg, Package, PackageId, PackageSet, Resolve, Target,
};
use crate::requirements::{
    apply_log, apply_one, pair_key, PairKey, PlatformRequirement, RequirementsMap,
};
use crate::source::SourceMap;
use crate::strutil::{spec_split, spec_trim, split_on, str_eq, trim};
use crate::work::Work;

verus! {

/// Platform disposition of a build: compiled for the build host (plugins) or
/// for the ultimate runtime target.
#[derive(Clone, Copy, Debug, PartialEq, Eq, Structural)]
pub enum Kind {
    Plugin,
    Target,
}

/// Driver-wide configuration the context reads: the cross-compilation target
/// triple, if one was requested.
pub struct Config {
    pub target: Option<String>,
}

/// What the compiler's file-name probe output parses to: the dylib
/// `(prefix, suffix)` pair and the executable suffix.
pub open spec fn spec_filename_parts(out: Seq<char>) -> Option<((Seq<char>, Seq<char>), Seq<char>)> {
    let lines = spec_split(out, '\n');
    if lines.len() < 2 {
        None
    } else {
        let d = spec_split(spec_trim(lines[0]), '-');
        let e = spec_split(spec_trim(lines[1]), '-');
        if d.len() == 2 && e.len() >= 2 {
            Some(((d[0], d[1]), e[1]))
        } else {
            None
        }
    }
}

/// A target is walked as a dependency when it is a library relevant to the
/// build's environment tag.
pub open spec fn spec_is_relevant(env: Seq<char>, t: Target) -> bool {
    t.lib && if env == "doc"@ || env == "test"@ {
        t.profile.compile
    } else if env == "doc-all"@ {
        t.profile.compile || t.profile.doc
    } else {
        t.profile.env@ == env
    }
}

/// The first target of `ts` relevant to `env`.
pub open spec fn spec_first_relevant(ts: Seq<Target>, env: Seq<char>) -> Option<Target>
    decreases ts.len(),
{
    if ts.len() == 0 {
        None
    } else if spec_is_relevant(env, ts[0]) {
        Some(ts[0])
    } else {
        spec_first_relevant(ts.drop_first(), env)
    }
}

/// The dependency targets walked from the packages named by `ids`: for each,
/// the first relevant target of the package, the package skipped when none is
/// relevant. `None` when a package is missing from the set — a driver bug.
pub open spec fn spec_dep_list(pkgs: Seq<Package>, env: Seq<char>, ids: Seq<PackageId>) -> Option<
    Seq<(Package, Target)>,
>
    decreases ids.len(),
{
    if ids.len() == 0 {
        Some(Seq::empty())
    } else {
        match spec_find_pkg(pkgs, ids[0]) {
            None => None,
            Some(p) => match spec_dep_list(pkgs, env, ids.drop_first()) {
                None => None,
                Some(rest) => match spec_first_relevant(p.targets@, env) {
                    None => Some(rest),
                    Some(t) => Some(seq![(p, t)] + rest),
                },
            },
        }
    }
}

/// The dependency targets walked from `pkg`: an unknown package has none.
pub open spec fn spec_dep_targets(
    pkgs: Seq<Package>,
    nodes: Seq<(PackageId, Vec<PackageId>)>,
    env: Seq<char>,
    pkg: Package,
) -> Option<Seq<(Package, Target)>> {
    match spec_deps(nodes, pkg.id) {
        None => Some(Seq::empty()),
        Some(ids) => spec_dep_list(pkgs, env, ids),
    }
}

/// The pair keys of every target of one package.
pub open spec fn target_pair_keys(p: Package) -> Seq<PairKey> {
    p.targets@.map_values(|t: Target| pair_key(p.id, t.name@))
}

/// The pair keys of every `(package, target)` pair of the graph.
pub open spec fn graph_pairs_seq(pkgs: Seq<Package>) -> Seq<PairKey>
    decreases pkgs.len(),
{
    if pkgs.len() == 0 {
        Seq::empty()
    } else {
        target_pair_keys(pkgs[0]) + graph_pairs_seq(pkgs.drop_first())
    }
}

/// The set of pair keys of the graph.
pub open spec fn graph_pairs(pkgs: Seq<Package>) -> Set<PairKey> {
    graph_pairs_seq(pkgs).to_set()
}

/// The pair `(id, name)` names a target of a package of the set.
pub open spec fn pair_in_graph(pkgs: Seq<Package>, id: PackageId, name: Seq<char>) -> bool {
    graph_pairs(pkgs).contains(pair_key(id, name))
}

/// The pair keys of the current walk path.
pub open spec fn visiting_keys(v: Seq<(PackageId, String)>) -> Set<PairKey> {
    v.map_values(|e: (PackageId, String)| pair_key(e.0, e.1@)).to_set()
}

/// The pair `(id, name)` is on the current walk path.
pub open spec fn visiting_contains(v: Seq<(PackageId, String)>, id: PackageId, name: Seq<char>) -> bool {
    visiting_keys(v).contains(pair_key(id, name))
}

/// Every pair on the walk path names a target of the graph.
pub open spec fn walk_ok(pkgs: Seq<Package>, v: Seq<(PackageId, String)>) -> bool {
    visiting_keys(v).subset_of(graph_pairs(pkgs))
}

/// How many graph pairs the walk has not entered yet; the walk's termination
/// measure.
pub open spec fn walk_measure(pkgs: Seq<Package>, v: Seq<(PackageId, String)>) -> nat {
    graph_pairs(pkgs).difference(visiting_keys(v)).len()
}

/// The graph's pair-key set is finite.
pub proof fn lemma_graph_pairs_finite(pkgs: Seq<Package>)
    ensures
        graph_pairs(pkgs).finite(),
{
    broadcast use vstd::seq_lib::seq_to_set_is_finite;

}

/// Each target of each package of the set contributes its pair key.
pub proof fn lemma_graph_pairs_member(pkgs: Seq<Package>, i: int, j: int)
    requires
        0 <= i < pkgs.len(),
        0 <= j < pkgs[i].targets@.len(),
    ensures
        pair_in_graph(pkgs, pkgs[i].id, pkgs[i].targets@[j].name@),
    decreases i,
{
    if i == 0 {
        let tk = target_pair_keys(pkgs[0]);
        assert(graph_pairs_seq(pkgs)[j] == tk[j]);
        assert(graph_pairs_seq(pkgs).contains(pair_key(pkgs[0].id, pkgs[0].targets@[j].name@)));
    } else {
        lemma_graph_pairs_member(pkgs.drop_first(), i - 1, j);
        assert(pkgs.drop_first()[i - 1] == pkgs[i]);
        let k = pair_key(pkgs[i].id, pkgs[i].targets@[j].name@);
        let rest = graph_pairs_seq(pkgs.drop_first());
        let x = choose|x: int| 0 <= x < rest.len() && rest[x] == k;
        assert(graph_pairs_seq(pkgs)[target_pair_keys(pkgs[0]).len() + x] == k);
        assert(graph_pairs_seq(pkgs).contains(k));
    }
}

/// Pushing a pair onto the walk path inserts its key.
pub proof fn lemma_visiting_push(v: Seq<(PackageId, String)>, id: PackageId, name: String)
    ensures
        visiting_keys(v.push((id, name))) == visiting_keys(v).insert(pair_key(id, name@)),
{
    let f = |e: (PackageId, String)| pair_key(e.0, e.1@);
    let mapped = v.map_values(f);
    let k = pair_key(id, name@);
    assert(v.push((id, name)).map_values(f) =~= mapped + seq![k]);
    Seq::<PairKey>::lemma_to_set_insert_commutes(mapped, k);
    assert(visiting_keys(v.push((id, name))) =~= visiting_keys(v).insert(k));
}

/// A pair is on the walk path exactly when some element of the path carries
/// its key.
pub proof fn lemma_visiting_contains(v: Seq<(PackageId, String)>, id: PackageId, name: Seq<char>)
    ensures
        visiting_contains(v, id, name) <==> exists|i: int|
            0 <= i < v.len() && pair_key((#[trigger] v[i]).0, v[i].1@) == pair_key(id, name),
{
    let f = |e: (PackageId, String)| pair_key(e.0, e.1@);
    let mapped = v.map_values(f);
    assert forall|i: int| 0 <= i < v.len() implies mapped[i] == pair_key(v[i].0, v[i].1@) by {}
    if exists|i: int|
        0 <= i < v.len() && pair_key((#[trigger] v[i]).0, v[i].1@) == pair_key(id, name) {
        let i = choose|i: int|
            0 <= i < v.len() && pair_key((#[trigger] v[i]).0, v[i].1@) == pair_key(id, name);
        assert(mapped[i] == pair_key(id, name));
        assert(mapped.contains(pair_key(id, name)));
    }
    if visiting_contains(v, id, name) {
        assert(mapped.contains(pair_key(id, name)));
        let i = choose|i: int| 0 <= i < mapped.len() && mapped[i] == pair_key(id, name);
        assert(pair_key(v[i].0, v[i].1@) == pair_key(id, name));
    }
}

/// A found package is an element of the set.
pub proof fn lemma_find_pkg_member(pkgs: Seq<Package>, id: PackageId)
    ensures
        spec_find_pkg(pkgs, id) matches Some(p) ==> exists|i: int|
            0 <= i < pkgs.len() && #[trigger] pkgs[i] == p,
    decreases pkgs.len(),
{
    if pkgs.len() > 0 && !id_eq(pkgs[0].id, id) {
        lemma_find_pkg_member(pkgs.drop_first(), id);
        match spec_find_pkg(pkgs, id) {
            Some(p) => {
                let i = choose|i: int|
                    0 <= i < pkgs.drop_first().len() && #[trigger] pkgs.drop_first()[i] == p;
                assert(pkgs[i + 1] == p);
            },
            None => {},
        }
    }
}

/// A first relevant target is an element of the target list.
pub proof fn lemma_first_relevant_member(ts: Seq<Target>, env: Seq<char>)
    ensures
        spec_first_relevant(ts, env) matches Some(t) ==> exists|j: int|
            0 <= j < ts.len() && #[trigger] ts[j] == t,
    decreases ts.len(),
{
    if ts.len() > 0 && !spec_is_relevant(env, ts[0]) {
        lemma_first_relevant_member(ts.drop_first(), env);
        match spec_first_relevant(ts, env) {
            Some(t) => {
                let j = choose|j: int|
                    0 <= j < ts.drop_first().len() && #[trigger] ts.drop_first()[j] == t;
                assert(ts[j + 1] == t);
            },
            None => {},
        }
    }
}

/// Every pair a dependency list yields names a target of the graph.
pub proof fn lemma_dep_list_in_graph(pkgs: Seq<Package>, env: Seq<char>, ids: Seq<PackageId>)
    ensures
        spec_dep_list(pkgs, env, ids) matches Some(dts) ==> forall|k: int|
            0 <= k < dts.len() ==> pair_in_graph(
                pkgs,
                (#[trigger] dts[k]).0.id,
                dts[k].1.name@,
            ),
    decreases ids.len(),
{
    if ids.len() > 0 {
        lemma_dep_list_in_graph(pkgs, env, ids.drop_first());
        match spec_find_pkg(pkgs, ids[0]) {
            Some(p) => {
                match spec_dep_list(pkgs, env, ids.drop_first()) {
                    Some(rest) => {
                        match spec_first_relevant(p.targets@, env) {
                            Some(t) => {
                                lemma_find_pkg_member(pkgs, ids[0]);
                                lemma_first_relevant_member(p.targets@, env);
                                let i = choose|i: int|
                                    0 <= i < pkgs.len() && #[trigger] pkgs[i] == p;
                                let j = choose|j: int|
                                    0 <= j < p.targets@.len() && #[trigger] p.targets@[j] == t;
                                lemma_graph_pairs_member(pkgs, i, j);
                                let dts = spec_dep_list(pkgs, env, ids).unwrap();
                                assert forall|k: int| 0 <= k < dts.len() implies pair_in_graph(
                                    pkgs,
                                    (#[trigger] dts[k]).0.id,
                                    dts[k].1.name@,
                                ) by {
                                    if k > 0 {
                                        assert(dts[k] == rest[k - 1]);
                                    }
                                }
                            },
                            None => {},
                        }
                    },
                    None => {},
                }
            },
            None => {},
        }
    }
}

/// One log entry of the walk.
pub type LogEntry = (PairKey, PlatformRequirement);

/// The entries the requirement walk records, in order, entered at
/// `(pkg, target)` with requirement `req` while `visiting` is the current
/// path. `None` when the walk hits a package missing from the set.
pub open spec fn walk_log(
    pkgs: Seq<Package>,
    nodes: Seq<(PackageId, Vec<PackageId>)>,
    env: Seq<char>,
    pkg: Package,
    target: Target,
    req: PlatformRequirement,
    visiting: Seq<(PackageId, String)>,
) -> Option<Seq<LogEntry>>
    decreases walk_measure(pkgs, visiting), 0nat, 0nat,
    via walk_log_decreases
{
    if !pair_in_graph(pkgs, pkg.id, target.name@) || !walk_ok(pkgs, visiting) {
        None
    } else if visiting_contains(visiting, pkg.id, target.name@) {
        Some(Seq::empty())
    } else {
        let eff = if target.profile.plugin {
            PlatformRequirement::Plugin
        } else {
            req
        };
        match spec_dep_targets(pkgs, nodes, env, pkg) {
            None => None,
            Some(dts) => match walk_list(
                pkgs,
                nodes,
                env,
                dts,
                eff,
                visiting.push((pkg.id, target.name)),
            ) {
                None => None,
                Some(rest) => Some(seq![(pair_key(pkg.id, target.name@), eff)] + rest),
            },
        }
    }
}

/// The walk over a list of dependency targets, each from the same path.
pub open spec fn walk_list(
    pkgs: Seq<Package>,
    nodes: Seq<(PackageId, Vec<PackageId>)>,
    env: Seq<char>,
    dts: Seq<(Package, Target)>,
    req: PlatformRequirement,
    visiting: Seq<(PackageId, String)>,
) -> Option<Seq<LogEntry>>
    decreases walk_measure(pkgs, visiting), 1nat, dts.len(),
{
    if dts.len() == 0 {
        Some(Seq::empty())
    } else {
        match walk_log(pkgs, nodes, env, dts[0].0, dts[0].1, req, visiting) {
            None => None,
            Some(head) => match walk_list(pkgs, nodes, env, dts.drop_first(), req, visiting) {
                None => None,
                Some(rest) => Some(head + rest),
            },
        }
    }
}

#[via_fn]
proof fn walk_log_decreases(
    pkgs: Seq<Package>,
    nodes: Seq<(PackageId, Vec<PackageId>)>,
    env: Seq<char>,
    pkg: Package,
    target: Target,
    req: PlatformRequirement,
    visiting: Seq<(PackageId, String)>,
) {
    if pair_in_graph(pkgs, pkg.id, target.name@) && walk_ok(pkgs, visiting)
        && !visiting_contains(visiting, pkg.id, target.name@) {
        lemma_graph_pairs_finite(pkgs);
        lemma_visiting_push(visiting, pkg.id, target.name);
        graph_pairs(pkgs).lemma_set_insert_diff_decreases(
            visiting_keys(visiting),
            pair_key(pkg.id, target.name@),
        );
    }
}

/// The walk rooted at each compile-producing target of a package, each walk
/// starting from an empty path.
pub open spec fn walk_all(
    pkgs: Seq<Package>,
    nodes: Seq<(PackageId, Vec<PackageId>)>,
    env: Seq<char>,
    pkg: Package,
    ts: Seq<Target>,
) -> Option<Seq<LogEntry>>
    decreases ts.len(),
{
    if ts.len() == 0 {
        Some(Seq::empty())
    } else {
        let head = if ts[0].profile.compile {
            walk_log(pkgs, nodes, env, pkg, ts[0], PlatformRequirement::Target, Seq::empty())
        } else {
            Some(Seq::empty())
        };
        match head {
            None => None,
            Some(h) => match walk_all(pkgs, nodes, env, pkg, ts.drop_first()) {
                None => None,
                Some(rest) => Some(h + rest),
            },
        }
    }
}

/// The per-build compilation context.
pub struct Context<'a> {
    /// Whether the primary crate of the build is being compiled.
    pub primary: bool,
    /// The compiler's version string; a fingerprint input only.
    pub rustc_version: String,
    /// Driver configuration: the cross-target triple, if any.
    pub config: Config,
    /// The resolved dependency graph.
    pub resolve: &'a Resolve,
    /// The sources of the packages.
    pub sources: &'a SourceMap,
    /// The build's environment tag.
    pub env: &'a str,
    /// Layout of the host build directory.
    pub host: Layout,
    /// Layout of the cross-target build directory, when cross-compiling.
    pub target: Option<Layout>,
    /// Dylib filename (prefix, suffix) on the host.
    pub host_dylib: (String, String),
    /// The packages taking part in the build.
    pub package_set: &'a PackageSet,
    /// Dylib filename (prefix, suffix) on the target platform.
    pub target_dylib: (String, String),
    /// Executable filename suffix on the target platform.
    pub target_exe: String,
    /// The platform requirement recorded for each walked pair.
    pub requirements: RequirementsMap,
}

/// Both contexts agree on everything but the requirements map.
pub open spec fn same_but_requirements(a: Context, b: Context) -> bool {
    &&& a.primary == b.primary
    &&& a.rustc_version == b.rustc_version
    &&& a.config == b.config
    &&& a.resolve == b.resolve
    &&& a.sources == b.sources
    &&& a.env == b.env
    &&& a.host == b.host
    &&& a.target == b.target
    &&& a.host_dylib == b.host_dylib
    &&& a.package_set == b.package_set
    &&& a.target_dylib == b.target_dylib
    &&& a.target_exe == b.target_exe
}

/// Parses the compiler's two-line file-name probe output: the first line is
/// the dylib filename for a crate named `-`, split by that name into prefix
/// and suffix; the second is the binary filename, whose suffix follows the
/// name. Unexpected shapes are a probe failure, surfaced as a hard error.
pub fn filename_parts(output: &str) -> (r: CargoResult<((String, String), String)>)
    ensures
        match r {
            Ok(v) => spec_filename_parts(output@) == Some((((v.0).0@, (v.0).1@), v.1@)),
            Err(e) => spec_filename_parts(output@) is None && (e matches CargoError::Internal {
                desc,
            } && desc@ == "compiler file-name probe output has changed"@),
        },
{
    let lines = split_on(output, '\n');
    if lines.len() < 2 {
        return Err(internal("compiler file-name probe output has changed".to_owned()));
    }
    let l0 = trim(lines[0].as_str());
    let d = split_on(l0.as_str(), '-');
    let l1 = trim(lines[1].as_str());
    let e = split_on(l1.as_str(), '-');
    proof {
        assert(lines@.map_values(|p: String| p@)[0] == lines@[0]@);
        assert(lines@.map_values(|p: String| p@)[1] == lines@[1]@);
        assert(d@.map_values(|p: String| p@)[0] == d@[0]@);
    }
    if d.len() == 2 && e.len() >= 2 {
        proof {
            assert(d@.map_values(|p: String| p@)[1] == d@[1]@);
            assert(e@.map_values(|p: String| p@)[1] == e@[1]@);
        }
        Ok(((d[0].clone(), d[1].clone()), e[1].clone()))
    } else {
        Err(internal("compiler file-name probe output has changed".to_owned()))
    }
}

impl<'a> Context<'a> {
    /// Builds a context from the resolved graph, the layouts, and the raw
    /// compiler probe output: `probe_target` for the platform being built
    /// for, `probe_host` for the build host when cross-compiling. When not
    /// cross-compiling the host dylib pair equals the target pair by
    /// construction.
    pub fn new(
        env: &'a str,
        resolve: &'a Resolve,
        sources: &'a SourceMap,
        deps: &'a PackageSet,
        config: Config,
        host: Layout,
        target: Option<Layout>,
        rustc_version: String,
        probe_target: &str,
        probe_host: Option<&str>,
    ) -> (r: CargoResult<Context<'a>>)
        ensures
            match r {
                Ok(cx) => {
                    &&& spec_filename_parts(probe_target@) == Some(
                        ((cx.target_dylib.0@, cx.target_dylib.1@), cx.target_exe@),
                    )
                    &&& (config.target is None ==> cx.host_dylib.0@ == cx.target_dylib.0@
                        && cx.host_dylib.1@ == cx.target_dylib.1@)
                    &&& (match (config.target, probe_host) {
                        (Some(_), Some(ph)) => match spec_filename_parts(ph@) {
                            Some(hp) => cx.host_dylib.0@ == hp.0.0 && cx.host_dylib.1@ == hp.0.1,
                            None => false,
                        },
                        (Some(_), None) => false,
                        (None, _) => true,
                    })
                    &&& cx.env == env
                    &&& cx.resolve == resolve
                    &&& cx.sources == sources
                    &&& cx.package_set == deps
                    &&& cx.config == config
                    &&& cx.host == host
                    &&& cx.target == target
                    &&& cx.rustc_version == rustc_version
                    &&& cx.primary == false
                    &&& cx.requirements.wf()
                    &&& cx.requirements.view_map() == Map::<PairKey, PlatformRequirement>::empty()
                },
                Err(_) => spec_filename_parts(probe_target@) is None || (config.target is Some
                    && (probe_host is None || (probe_host matches Some(ph)
                    && spec_filename_parts(ph@) is None))),
            },
    {
        let parsed = filename_parts(probe_target);
        let (target_dylib, target_exe) = match parsed {
            Ok(v) => v,
            Err(e) => {
                return Err(e);
            },
        };
        let host_dylib: (String, String) = if config.target.is_none() {
            (target_dylib.0.clone(), target_dylib.1.clone())
        } else {
            match probe_host {
                Some(out) => {
                    match filename_parts(out) {
                        Ok(v) => v.0,
                        Err(e) => {
                            return Err(e);
                        },
                    }
                },
                None => {
                    return Err(
                        internal("cross-compiling needs a host compiler probe".to_owned()),
                    );
                },
            }
        };
        Ok(
            Context {
                rustc_version,
                env,
                host,
                target,
                primary: false,
                resolve,
                sources,
                package_set: deps,
                config,
                target_dylib,
                target_exe,
                host_dylib,
                requirements: RequirementsMap::new(),
            },
        )
    }

    /// Switches this context over to being the primary compilation unit.
    pub fn primary(&mut self)
        ensures
            final(self).primary == true,
            *final(self) == (Context { primary: true, ..*old(self) }),
    {
        self.primary = true;
    }

    /// The layout serving a platform disposition.
    pub open spec fn spec_layout(&self, kind: Kind) -> Layout {
        if kind == Kind::Plugin {
            self.host
        } else {
            match self.target {
                Some(t) => t,
                None => self.host,
            }
        }
    }

    /// Where outputs of the given disposition go in this build.
    pub open spec fn spec_proxy_root(&self, kind: Kind) -> Seq<char> {
        if self.primary {
            self.spec_layout(kind).root@
        } else {
            self.spec_layout(kind).deps@
        }
    }

    /// Where outputs of the given disposition went in the previous build.
    pub open spec fn spec_proxy_old_root(&self, kind: Kind) -> Seq<char> {
        if self.primary {
            self.spec_layout(kind).old_root@
        } else {
            self.spec_layout(kind).old_deps@
        }
    }

    /// The layout used for the given platform disposition: plugins build in
    /// the host layout, everything else in the target layout when one exists.
    pub fn layout<'b>(&'b self, kind: Kind) -> (r: LayoutProxy<'b>)
        ensures
            *r.layout == self.spec_layout(kind),
            r.primary == self.primary,
    {
        match kind {
            Kind::Plugin => LayoutProxy::new(&self.host, self.primary),
            Kind::Target => LayoutProxy::new(
                match &self.target {
                    Some(t) => t,
                    None => &self.host,
                },
                self.primary,
            ),
        }
    }

    /// The dylib filename pair for a platform disposition.
    pub open spec fn spec_dylib(&self, kind: Kind) -> (Seq<char>, Seq<char>) {
        if kind == Kind::Plugin {
            (self.host_dylib.0@, self.host_dylib.1@)
        } else {
            (self.target_dylib.0@, self.target_dylib.1@)
        }
    }

    /// The `(prefix, suffix)` pair for dynamic libraries of the given Kind.
    pub fn dylib(&self, kind: Kind) -> (r: (&str, &str))
        ensures
            r.0@ == self.spec_dylib(kind).0,
            r.1@ == self.spec_dylib(kind).1,
    {
        if kind == Kind::Plugin {
            (self.host_dylib.0.as_str(), self.host_dylib.1.as_str())
        } else {
            (self.target_dylib.0.as_str(), self.target_dylib.1.as_str())
        }
    }

    /// The filenames a target compiles to.
    pub open spec fn spec_target_filenames(&self, t: Target) -> Seq<Seq<char>> {
        if t.bin || t.profile.test {
            seq![t.stem@ + self.target_exe@]
        } else {
            (if t.dylib {
                let pair = self.spec_dylib(
                    if t.profile.plugin {
                        Kind::Plugin
                    } else {
                        Kind::Target
                    },
                );
                seq![pair.0 + t.stem@ + pair.1]
            } else {
                Seq::empty()
            }) + (if t.rlib {
                seq!["lib"@ + t.stem@ + ".rlib"@]
            } else {
                Seq::empty()
            })
        }
    }

    /// Output filenames are a pure function of the target and the probed
    /// platform facts: two contexts that agree on the dylib pairs and the
    /// executable suffix name every target's files alike.
    pub proof fn lemma_target_filenames_pure(cx1: Context, cx2: Context, t: Target)
        requires
            cx1.host_dylib.0@ == cx2.host_dylib.0@,
            cx1.host_dylib.1@ == cx2.host_dylib.1@,
            cx1.target_dylib.0@ == cx2.target_dylib.0@,
            cx1.target_dylib.1@ == cx2.target_dylib.1@,
            cx1.target_exe@ == cx2.target_exe@,
        ensures
            cx1.spec_target_filenames(t) == cx2.spec_target_filenames(t),
    {
    }

    /// The exact filenames `target` compiles to; a target that produces no
    /// file is a malformed configuration, surfaced as a hard error.
    pub fn target_filenames(&self, target: &Target) -> (r: CargoResult<Vec<String>>)
        ensures
            match r {
                Ok(v) => v@.map_values(|p: String| p@) == self.spec_target_filenames(*target)
                    && v@.len() > 0,
                Err(e) => self.spec_target_filenames(*target).len() == 0 && (e matches
                    CargoError::Internal { desc } && desc@
                    == "target produces no output files"@),
            },
    {
        let stem = target.file_stem();
        let mut ret: Vec<String> = Vec::new();
        if target.is_bin() || target.get_profile().is_test() {
            ret.push(crate::strutil::concat2(stem, self.target_exe.as_str()));
            proof {
                assert(ret@.map_values(|p: String| p@) =~= self.spec_target_filenames(*target));
            }
            return Ok(ret);
        }
        if target.is_dylib() {
            let kind = if target.get_profile().is_plugin() {
                Kind::Plugin
            } else {
                Kind::Target
            };
            let (prefix, suffix) = self.dylib(kind);
            ret.push(crate::strutil::concat3(prefix, stem, suffix));
        }
        if target.is_rlib() {
            ret.push(crate::strutil::concat3("lib", stem, ".rlib"));
        }
        proof {
            assert(ret@.map_values(|p: String| p@) =~= self.spec_target_filenames(*target));
        }
        if ret.len() == 0 {
            return Err(internal("target produces no output files".to_owned()));
        }
        Ok(ret)
    }

    /// Finds the package of the set with the given identity; its absence is a
    /// broken driver invariant.
    pub fn get_package(&self, id: &PackageId) -> (r: CargoResult<&'a Package>)
        ensures
            match r {
                Ok(p) => spec_find_pkg(self.package_set.packages@, *id) == Some(*p),
                Err(e) => spec_find_pkg(self.package_set.packages@, *id) is None && (e matches
                    CargoError::Internal { desc } && desc@
                    == "BUG: no package in the set has the given identity"@),
            },
    {
        match self.package_set.find(id) {
            Some(p) => Ok(p),
            None => Err(internal("BUG: no package in the set has the given identity".to_owned())),
        }
    }

    /// Whether a dependency's target takes part in this build.
    pub fn is_relevant_target(&self, target: &Target) -> (r: bool)
        ensures
            r == spec_is_relevant(self.env@, *target),
    {
        target.is_lib() && {
            if str_eq(self.env, "doc") || str_eq(self.env, "test") {
                target.get_profile().is_compile()
            } else if str_eq(self.env, "doc-all") {
                target.get_profile().is_compile() || target.get_profile().is_doc()
            } else {
                str_eq(target.get_profile().get_env(), self.env)
            }
        }
    }

    /// The first relevant target of a package, if any.
    fn first_relevant(&self, targets: &'a Vec<Target>) -> (r: Option<&'a Target>)
        ensures
            match r {
                Some(t) => spec_first_relevant(targets@, self.env@) == Some(*t),
                None => spec_first_relevant(targets@, self.env@) is None,
            },
    {
        let n = targets.len();
        let mut i: usize = 0;
        proof {
            assert(targets@.subrange(0, n as int) =~= targets@);
        }
        while i < n
            invariant
                0 <= i <= n,
                n == targets@.len(),
                spec_first_relevant(targets@.subrange(i as int, n as int), self.env@)
                    == spec_first_relevant(targets@, self.env@),
            decreases n - i,
        {
            let ghost pre = targets@.subrange(i as int, n as int);
            if self.is_relevant_target(&targets[i]) {
                proof {
                    assert(pre[0] == targets@[i as int]);
                }
                return Some(&targets[i]);
            }
            proof {
                assert(pre.drop_first() =~= targets@.subrange(i + 1, n as int));
            }
            i += 1;
        }
        proof {
            assert(targets@.subrange(n as int, n as int) =~= Seq::<Target>::empty());
        }
        None
    }

    /// For a package, every `(package, target)` pair registered as a
    /// dependency of it: per dependency package, its first relevant target.
    pub fn dep_targets(&self, pkg: &Package) -> (r: CargoResult<Vec<(&'a Package, &'a Target)>>)
        ensures
            match r {
                Ok(v) => spec_dep_targets(
                    self.package_set.packages@,
                    self.resolve.nodes@,
                    self.env@,
                    *pkg,
                ) == Some(v@.map_values(|pt: (&Package, &Target)| (*pt.0, *pt.1))),
                Err(e) => spec_dep_targets(
                    self.package_set.packages@,
                    self.resolve.nodes@,
                    self.env@,
                    *pkg,
                ) is None && e matches CargoError::Internal { .. },
            },
    {
        let ghost pkgs = self.package_set.packages@;
        let ghost env = self.env@;
        let deps: &Vec<PackageId> = match self.resolve.deps(&pkg.id) {
            None => {
                let r: Vec<(&'a Package, &'a Target)> = Vec::new();
                proof {
                    assert(r@.map_values(|pt: (&Package, &Target)| (*pt.0, *pt.1)) =~= Seq::<
                        (Package, Target),
                    >::empty());
                }
                return Ok(r);
            },
            Some(d) => d,
        };
        let mut out: Vec<(&'a Package, &'a Target)> = Vec::new();
        let n = deps.len();
        let mut i: usize = 0;
        proof {
            assert(deps@.subrange(0, n as int) =~= deps@);
            assert(out@.map_values(|pt: (&Package, &Target)| (*pt.0, *pt.1)) =~= Seq::<
                (Package, Target),
            >::empty());
        }
        while i < n
            invariant
                0 <= i <= n,
                n == deps@.len(),
                pkgs == self.package_set.packages@,
                env == self.env@,
                spec_deps(self.resolve.nodes@, pkg.id) == Some(deps@),
                ({
                    let acc = out@.map_values(|pt: (&Package, &Target)| (*pt.0, *pt.1));
                    match spec_dep_list(pkgs, env, deps@.subrange(i as int, n as int)) {
                        Some(tail) => spec_dep_list(pkgs, env, deps@) == Some(acc + tail),
                        None => spec_dep_list(pkgs, env, deps@) is None,
                    }
                }),
            decreases n - i,
        {
            let ghost pre = deps@.subrange(i as int, n as int);
            let ghost acc0 = out@.map_values(|pt: (&Package, &Target)| (*pt.0, *pt.1));
            let dp: &'a Package = match self.get_package(&deps[i]) {
                Ok(p) => p,
                Err(e) => {
                    proof {
                        assert(pre[0] == deps@[i as int]);
                    }
                    return Err(e);
                },
            };
            proof {
                assert(pre[0] == deps@[i as int]);
                assert(pre.drop_first() =~= deps@.subrange(i + 1, n as int));
            }
            match self.first_relevant(&dp.targets) {
                Some(t) => {
                    out.push((dp, t));
                    proof {
                        let acc1 = out@.map_values(|pt: (&Package, &Target)| (*pt.0, *pt.1));
                        assert(acc1 =~= acc0.push((*dp, *t)));
                        match spec_dep_list(pkgs, env, deps@.subrange(i + 1, n as int)) {
                            Some(tail) => {
                                assert(acc0 + (seq![(*dp, *t)] + tail) =~= acc1 + tail);
                            },
                            None => {},
                        }
                    }
                },
                None => {
                },
            }
            i += 1;
        }
        proof {
            assert(deps@.subrange(n as int, n as int) =~= Seq::<PackageId>::empty());
            let acc = out@.map_values(|pt: (&Package, &Target)| (*pt.0, *pt.1));
            assert(acc + Seq::<(Package, Target)>::empty() =~= acc);
        }
        Ok(out)
    }

    /// The requirement recorded for a pair; an unrecorded pair builds for the
    /// target platform.
    pub fn get_requirement(&self, pkg: &Package, target: &Target) -> (r: PlatformRequirement)
        requires
            self.requirements.wf(),
        ensures
            r == (if self.requirements.view_map().contains_key(
                pair_key(pkg.id, target.name@),
            ) {
                self.requirements.view_map()[pair_key(pkg.id, target.name@)]
            } else {
                PlatformRequirement::Target
            }),
    {
        match self.requirements.get(&pkg.id, target.get_name()) {
            Some(v) => v,
            None => PlatformRequirement::Target,
        }
    }

    /// Whether the pair is on the current walk path.
    fn visiting_has(visiting: &Vec<(PackageId, String)>, id: &PackageId, name: &str) -> (r: bool)
        ensures
            r == visiting_contains(visiting@, *id, name@),
    {
        let n = visiting.len();
        let mut i: usize = 0;
        while i < n
            invariant
                0 <= i <= n,
                n == visiting@.len(),
                forall|j: int|
                    0 <= j < i ==> pair_key((#[trigger] visiting@[j]).0, visiting@[j].1@)
                        != pair_key(*id, name@),
            decreases n - i,
        {
            let e = &visiting[i];
            if e.0.eq_id(id) && str_eq(e.1.as_str(), name) {
                proof {
                    lemma_visiting_contains(visiting@, *id, name@);
                }
                return true;
            }
            i += 1;
        }
        proof {
            lemma_visiting_contains(visiting@, *id, name@);
        }
        false
    }

    /// The depth-first requirement walk. Every pair it enters is recorded by
    /// lattice-combining; a pair already on the current path is not entered
    /// again, so the walk terminates on any resolved graph, cycles included.
    pub fn build_requirements(
        &mut self,
        pkg: &'a Package,
        target: &'a Target,
        req: PlatformRequirement,
        visiting: &mut Vec<(PackageId, String)>,
    ) -> (r: CargoResult<()>)
        requires
            old(self).requirements.wf(),
            pair_in_graph(old(self).package_set.packages@, pkg.id, target.name@),
            walk_ok(old(self).package_set.packages@, old(visiting)@),
        ensures
            final(self).requirements.wf(),
            same_but_requirements(*old(self), *final(self)),
            final(visiting)@ == old(visiting)@,
            ({
                let w = walk_log(
                    old(self).package_set.packages@,
                    old(self).resolve.nodes@,
                    old(self).env@,
                    *pkg,
                    *target,
                    req,
                    old(visiting)@,
                );
                match r {
                    Ok(_) => w matches Some(log) && final(self).requirements.view_map()
                        == apply_log(old(self).requirements.view_map(), log),
                    Err(e) => w is None && e matches CargoError::Internal { .. },
                }
            }),
        decreases walk_measure(old(self).package_set.packages@, old(visiting)@),
    {
        let ghost pkgs = self.package_set.packages@;
        let ghost nodes = self.resolve.nodes@;
        let ghost env = self.env@;
        let ghost vis0 = visiting@;
        if Self::visiting_has(visiting, &pkg.id, target.get_name()) {
            return Ok(());
        }
        visiting.push((pkg.id.clone(), target.name.clone()));
        proof {
            lemma_visiting_push(vis0, pkg.id, target.name);
        }
        let eff = if target.get_profile().is_plugin() {
            PlatformRequirement::Plugin
        } else {
            req
        };
        let ghost m0 = self.requirements.view_map();
        self.requirements.insert_or_combine(pkg.id.clone(), target.name.clone(), eff);
        let ghost m1 = self.requirements.view_map();
        let dts = match self.dep_targets(pkg) {
            Ok(v) => v,
            Err(e) => {
                let _popped = visiting.pop();
                proof {
                    assert(visiting@ =~= vis0);
                }
                return Err(e);
            },
        };
        let ghost dtsv = dts@.map_values(|pt: (&Package, &Target)| (*pt.0, *pt.1));
        let ghost vis1 = visiting@;
        let ghost entry: LogEntry = (pair_key(pkg.id, target.name@), eff);
        proof {
            assert(m1 == apply_log(m0, seq![entry])) by {
                reveal_with_fuel(apply_log, 2);
                assert(seq![entry].drop_last() =~= Seq::<LogEntry>::empty());
                assert(apply_log(m0, seq![entry]) == apply_one(m0, entry.0, entry.1));
            }
            lemma_dep_list_in_graph(pkgs, env, (match spec_deps(nodes, pkg.id) {
                Some(ids) => ids,
                None => Seq::empty(),
            }));
        }
        let n = dts.len();
        let mut i: usize = 0;
        let ghost mut done_log: Seq<LogEntry> = Seq::empty();
        proof {
            assert(dtsv.subrange(0, n as int) =~= dtsv);
            assert(apply_log(m1, Seq::empty()) == m1);
            lemma_graph_pairs_finite(pkgs);
            graph_pairs(pkgs).lemma_set_insert_diff_decreases(
                visiting_keys(vis0),
                pair_key(pkg.id, target.name@),
            );
        }
        while i < n
            invariant
                0 <= i <= n,
                n == dts@.len(),
                vis0 == old(visiting)@,
                pkgs == old(self).package_set.packages@,
                nodes == old(self).resolve.nodes@,
                env == old(self).env@,
                walk_measure(pkgs, vis1) < walk_measure(pkgs, vis0),
                spec_dep_targets(pkgs, nodes, env, *pkg) == Some(dtsv),
                pair_in_graph(pkgs, pkg.id, target.name@),
                walk_ok(pkgs, vis0),
                !visiting_contains(vis0, pkg.id, target.name@),
                eff == (if target.profile.plugin { PlatformRequirement::Plugin } else { req }),
                m0 == old(self).requirements.view_map(),
                entry == (pair_key(pkg.id, target.name@), eff),
                dts@.len() == dtsv.len(),
                dtsv == dts@.map_values(|pt: (&Package, &Target)| (*pt.0, *pt.1)),
                pkgs == self.package_set.packages@,
                nodes == self.resolve.nodes@,
                env == self.env@,
                same_but_requirements(*old(self), *self),
                self.requirements.wf(),
                visiting@ == vis1,
                vis1 == vis0.push((pkg.id, target.name)),
                walk_ok(pkgs, vis1),
                forall|k: int|
                    0 <= k < dtsv.len() ==> pair_in_graph(
                        pkgs,
                        (#[trigger] dtsv[k]).0.id,
                        dtsv[k].1.name@,
                    ),
                self.requirements.view_map() == apply_log(m1, done_log),
                m1 == apply_log(m0, seq![entry]),
                ({
                    match walk_list(pkgs, nodes, env, dtsv.subrange(i as int, n as int), eff, vis1) {
                        Some(tail) => walk_list(pkgs, nodes, env, dtsv, eff, vis1) == Some(
                            done_log + tail,
                        ),
                        None => walk_list(pkgs, nodes, env, dtsv, eff, vis1) is None,
                    }
                }),
            decreases n - i,
        {
            let ghost pre = dtsv.subrange(i as int, n as int);
            proof {
                assert(pre[0] == dtsv[i as int]);
                assert(pre.drop_first() =~= dtsv.subrange(i + 1, n as int));
                assert(dtsv[i as int] == (*dts@[i as int].0, *dts@[i as int].1));
            }
            let (dp, dt) = (dts[i].0, dts[i].1);
            let res = self.build_requirements(dp, dt, eff, visiting);
            match res {
                Ok(_) => {
                    proof {
                        let w = walk_log(pkgs, nodes, env, *dp, *dt, eff, vis1);
                        let log_i = w.unwrap();
                        crate::requirements::lemma_apply_log_concat(m1, done_log, log_i);
                        let done0 = done_log;
                        done_log = done_log + log_i;
                        match walk_list(pkgs, nodes, env, dtsv.subrange(i + 1, n as int), eff, vis1) {
                            Some(t2) => {
                                assert(done0 + (log_i + t2) =~= done_log + t2);
                            },
                            None => {},
                        }
                    }
                },
                Err(e) => {
                    proof {
                        assert(walk_log(pkgs, nodes, env, *dp, *dt, eff, vis1) is None);
                        assert(pre[0].0 == *dp && pre[0].1 == *dt);
                        assert(walk_list(pkgs, nodes, env, pre, eff, vis1) is None);
                        assert(walk_list(pkgs, nodes, env, dtsv, eff, vis1) is None);
                        assert(walk_log(pkgs, nodes, env, *pkg, *target, req, vis0) is None);
                    }
                    let _popped = visiting.pop();
                    proof {
                        assert(visiting@ =~= vis0);
                    }
                    return Err(e);
                },
            }
            i += 1;
        }
        let _popped = visiting.pop();
        proof {
            assert(visiting@ =~= vis0);
            assert(dtsv.subrange(n as int, n as int) =~= Seq::<(Package, Target)>::empty());
            let full = walk_list(pkgs, nodes, env, dtsv, eff, vis1);
            assert(done_log + Seq::<LogEntry>::empty() =~= done_log);
            assert(full == Some(done_log));
            let w = walk_log(pkgs, nodes, env, *pkg, *target, req, vis0);
            assert(w == Some(seq![entry] + done_log));
            crate::requirements::lemma_apply_log_concat(m0, seq![entry], done_log);
            assert(seq![entry] + done_log =~= (seq![entry] + done_log));
        }
        Ok(())
    }

    /// Prepares this context: emits the work that creates both layouts'
    /// directories, then walks the requirements of every compile-producing
    /// target of `pkg`.
    pub fn prepare(&mut self, pkg: &Package) -> (r: CargoResult<Vec<Work>>)
        requires
            old(self).requirements.wf(),
        ensures
            final(self).requirements.wf(),
            same_but_requirements(*old(self), *final(self)),
            ({
                let pkgs = old(self).package_set.packages@;
                let nodes = old(self).resolve.nodes@;
                let env = old(self).env@;
                match r {
                    Ok(works) => {
                        &&& spec_find_pkg(pkgs, pkg.id) matches Some(found)
                        &&& walk_all(pkgs, nodes, env, found, found.targets@) matches Some(log)
                            && final(self).requirements.view_map() == apply_log(
                            old(self).requirements.view_map(),
                            log,
                        )
                        &&& works@ == old(self).host.prepare_works() + (match old(self).target {
                            Some(t) => t.prepare_works(),
                            None => Seq::<Work>::empty(),
                        })
                    },
                    Err(_) => spec_find_pkg(pkgs, pkg.id) is None || (spec_find_pkg(
                        pkgs,
                        pkg.id,
                    ) matches Some(found) && walk_all(pkgs, nodes, env, found, found.targets@)
                        is None),
                }
            }),
    {
        let ghost pkgs = self.package_set.packages@;
        let ghost nodes = self.resolve.nodes@;
        let ghost env = self.env@;
        let mut works = self.host.prepare();
        match &self.target {
            Some(t) => {
                let mut tw = t.prepare();
                works.append(&mut tw);
            },
            None => {
                proof {
                    assert(works@ + Seq::<Work>::empty() =~= works@);
                }
            },
        }
        let found: &'a Package = match self.get_package(&pkg.id) {
            Ok(p) => p,
            Err(e) => {
                return Err(e);
            },
        };
        proof {
            lemma_find_pkg_member(pkgs, pkg.id);
        }
        let ghost m0 = self.requirements.view_map();
        let n = found.targets.len();
        let mut i: usize = 0;
        let ghost mut done_log: Seq<LogEntry> = Seq::empty();
        proof {
            assert(found.targets@.subrange(0, n as int) =~= found.targets@);
            assert(apply_log(m0, Seq::empty()) == m0);
        }
        while i < n
            invariant
                0 <= i <= n,
                n == found.targets@.len(),
                pkgs == self.package_set.packages@,
                nodes == self.resolve.nodes@,
                env == self.env@,
                same_but_requirements(*old(self), *self),
                self.requirements.wf(),
                spec_find_pkg(pkgs, pkg.id) == Some(*found),
                exists|x: int| 0 <= x < pkgs.len() && #[trigger] pkgs[x] == *found,
                self.requirements.view_map() == apply_log(m0, done_log),
                ({
                    match walk_all(pkgs, nodes, env, *found, found.targets@.subrange(i as int, n as int)) {
                        Some(tail) => walk_all(pkgs, nodes, env, *found, found.targets@) == Some(
                            done_log + tail,
                        ),
                        None => walk_all(pkgs, nodes, env, *found, found.targets@) is None,
                    }
                }),
            decreases n - i,
        {
            let ghost pre = found.targets@.subrange(i as int, n as int);
            proof {
                assert(pre[0] == found.targets@[i as int]);
                assert(pre.drop_first() =~= found.targets@.subrange(i + 1, n as int));
            }
            let t = &found.targets[i];
            if t.get_profile().is_compile() {
                proof {
                    let x = choose|x: int| 0 <= x < pkgs.len() && #[trigger] pkgs[x] == *found;
                    lemma_graph_pairs_member(pkgs, x, i as int);
                    assert(visiting_keys(Seq::<(PackageId, String)>::empty()) =~= Set::<
                        PairKey,
                    >::empty()) by {
                        assert(Seq::<(PackageId, String)>::empty().map_values(
                            |e: (PackageId, String)| pair_key(e.0, e.1@),
                        ) =~= Seq::<PairKey>::empty());
                        assert(Seq::<PairKey>::empty().to_set() =~= Set::<PairKey>::empty());
                    }
                }
                let mut visiting: Vec<(PackageId, String)> = Vec::new();
                let res = self.build_requirements(found, t, PlatformRequirement::Target, &mut visiting);
                match res {
                    Ok(_) => {
                        proof {
                            let w = walk_log(pkgs, nodes, env, *found, *t, PlatformRequirement::Target, Seq::empty());
                            let log_i = w.unwrap();
                            crate::requirements::lemma_apply_log_concat(m0, done_log, log_i);
                            done_log = done_log + log_i;
                        }
                    },
                    Err(e) => {
                        return Err(e);
                    },
                }
            } else {
                proof {
                    assert(done_log + Seq::<LogEntry>::empty() =~= done_log);
                }
            }
            i += 1;
        }
        proof {
            assert(found.targets@.subrange(n as int, n as int) =~= Seq::<Target>::empty());
            assert(done_log + Seq::<LogEntry>::empty() =~= done_log);
        }
        Ok(works)
    }
}

} // verus!
