//! On-disk arrangement of a build directory: the current build's roots and
//! the parallel view of the previous build's equivalents.

use vstd::prelude::*;

use crate::package::{Package, PackageId, short_hash, spec_short_hash};
use crate::strutil::{concat2, concat3, join, spec_join};
use crate::work::Work;

verus! {

/// Directory name a package owns inside the `fingerprint/` and `native/`
/// roots: `<name>-<16 hex chars of the identity hash>`.
pub open spec fn spec_pkg_dirname(id: PackageId) -> Seq<char> {
    id.name@ + "-"@ + spec_short_hash(id)
}

/// Builds a package's directory name.
pub fn pkg_dirname(pkg: &Package) -> (r: String)
    ensures
        r@ == spec_pkg_dirname(pkg.id),
{
    let h = short_hash(&pkg.id);
    concat3(pkg.get_name(), "-", h.as_str())
}

/// The paths of one build directory and of the previous build's mirror.
pub struct Layout {
    pub root: String,
    pub deps: String,
    pub native: String,
    pub fingerprint: String,
    pub old_root: String,
    pub old_deps: String,
    pub old_native: String,
    pub old_fingerprint: String,
}

/// All eight paths of `l` are derived from the single build root `root`.
pub open spec fn is_layout_of(l: Layout, root: Seq<char>) -> bool {
    &&& l.root@ == root
    &&& l.deps@ == spec_join(root, "deps"@)
    &&& l.native@ == spec_join(root, "native"@)
    &&& l.fingerprint@ == spec_join(root, "fingerprint"@)
    &&& l.old_root@ == root + ".old"@
    &&& l.old_deps@ == spec_join(root + ".old"@, "deps"@)
    &&& l.old_native@ == spec_join(root + ".old"@, "native"@)
    &&& l.old_fingerprint@ == spec_join(root + ".old"@, "fingerprint"@)
}

/// The new and old build roots are distinct paths.
pub proof fn lemma_layout_roots_distinct(l: Layout, root: Seq<char>)
    requires
        is_layout_of(l, root),
    ensures
        l.root@ != l.old_root@,
{
    reveal_strlit(".old");
    assert(l.old_root@.len() == l.root@.len() + 4);
}

impl Clone for Layout {
    fn clone(&self) -> (r: Self)
        ensures
            r == *self,
    {
        Layout {
            root: self.root.clone(),
            deps: self.deps.clone(),
            native: self.native.clone(),
            fingerprint: self.fingerprint.clone(),
            old_root: self.old_root.clone(),
            old_deps: self.old_deps.clone(),
            old_native: self.old_native.clone(),
            old_fingerprint: self.old_fingerprint.clone(),
        }
    }
}

impl Layout {
    /// Derives the whole layout from one build root.
    pub fn new(root: &str) -> (r: Layout)
        ensures
            is_layout_of(r, root@),
    {
        let old_root = concat2(root, ".old");
        Layout {
            root: root.to_owned(),
            deps: join(root, "deps"),
            native: join(root, "native"),
            fingerprint: join(root, "fingerprint"),
            old_deps: join(old_root.as_str(), "deps"),
            old_native: join(old_root.as_str(), "native"),
            old_fingerprint: join(old_root.as_str(), "fingerprint"),
            old_root,
        }
    }

    /// The work `prepare` emits: creating this build's four directories.
    pub open spec fn prepare_works(&self) -> Seq<Work> {
        seq![
            Work::Mkdir { path: self.root },
            Work::Mkdir { path: self.deps },
            Work::Mkdir { path: self.native },
            Work::Mkdir { path: self.fingerprint },
        ]
    }

    /// The work that creates this build's directories. It never names a path
    /// of the previous build's mirror.
    pub fn prepare(&self) -> (r: Vec<Work>)
        ensures
            r@ == self.prepare_works(),
    {
        let mut works: Vec<Work> = Vec::new();
        works.push(Work::Mkdir { path: self.root.clone() });
        works.push(Work::Mkdir { path: self.deps.clone() });
        works.push(Work::Mkdir { path: self.native.clone() });
        works.push(Work::Mkdir { path: self.fingerprint.clone() });
        proof {
            assert(works@ =~= seq![
                Work::Mkdir { path: self.root },
                Work::Mkdir { path: self.deps },
                Work::Mkdir { path: self.native },
                Work::Mkdir { path: self.fingerprint },
            ]);
        }
        works
    }
}

/// A view of a [`Layout`] for one platform disposition, carrying whether the
/// build's primary crate is being compiled: the primary crate's outputs land
/// in the root, everything else in `deps/`.
pub struct LayoutProxy<'a> {
    pub layout: &'a Layout,
    pub primary: bool,
}

impl<'a> LayoutProxy<'a> {
    pub fn new(layout: &'a Layout, primary: bool) -> (r: LayoutProxy<'a>)
        ensures
            r.layout == layout,
            r.primary == primary,
    {
        LayoutProxy { layout, primary }
    }

    /// Where this build's outputs go.
    pub fn root(&self) -> (r: &'a String)
        ensures
            self.primary ==> r == &self.layout.root,
            !self.primary ==> r == &self.layout.deps,
    {
        if self.primary {
            &self.layout.root
        } else {
            &self.layout.deps
        }
    }

    /// Where the previous build's outputs went.
    pub fn old_root(&self) -> (r: &'a String)
        ensures
            self.primary ==> r == &self.layout.old_root,
            !self.primary ==> r == &self.layout.old_deps,
    {
        if self.primary {
            &self.layout.old_root
        } else {
            &self.layout.old_deps
        }
    }

    /// The package's build-script output directory in this build.
    pub fn native(&self, pkg: &Package) -> (r: String)
        ensures
            r@ == spec_join(self.layout.native@, spec_pkg_dirname(pkg.id)),
    {
        let d = pkg_dirname(pkg);
        join(self.layout.native.as_str(), d.as_str())
    }

    /// The package's build-script output directory in the previous build.
    pub fn old_native(&self, pkg: &Package) -> (r: String)
        ensures
            r@ == spec_join(self.layout.old_native@, spec_pkg_dirname(pkg.id)),
    {
        let d = pkg_dirname(pkg);
        join(self.layout.old_native.as_str(), d.as_str())
    }

    /// The underlying layout.
    pub fn proxy(&self) -> (r: &'a Layout)
        ensures
            r == self.layout,
    {
        self.layout
    }
}

} // verus!
