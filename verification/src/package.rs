//! The resolved-graph view the core works on: package identities, build
//! targets and their profiles, the package set, and the resolver's
//! direct-dependency table.

use vstd::prelude::*;
use vstd::string::*;
use vstd::utf8::encode_utf8;

use crate::hash::{len_prefixed, append_frame, append_byte, sip128_of, sip13_hash128, spec_hex16, to_hex};

verus! {

/// Identity of a package: name, version, and the source it came from.
pub struct PackageId {
    pub name: String,
    pub version: String,
    pub source_id: String,
}

/// Two package identities name the same package.
pub open spec fn id_eq(a: PackageId, b: PackageId) -> bool {
    a.name@ == b.name@ && a.version@ == b.version@ && a.source_id@ == b.source_id@
}

impl Clone for PackageId {
    fn clone(&self) -> (r: Self)
        ensures
            r == *self,
    {
        PackageId { name: self.name.clone(), version: self.version.clone(), source_id: self.source_id.clone() }
    }
}

/// The bytes a package identity contributes to a hash input.
pub open spec fn spec_id_bytes(id: PackageId) -> Seq<u8> {
    len_prefixed(encode_utf8(id.name@)) + len_prefixed(encode_utf8(id.version@)) + len_prefixed(
        encode_utf8(id.source_id@),
    )
}

/// First 16 hex characters of the identity's 128-bit content hash; names the
/// per-package fingerprint and build-script directories.
pub open spec fn spec_short_hash(id: PackageId) -> Seq<char> {
    spec_hex16(sip128_of(spec_id_bytes(id)).0)
}

impl PackageId {
    /// True exactly when the two identities agree on all three components.
    pub fn eq_id(&self, other: &PackageId) -> (r: bool)
        ensures
            r == id_eq(*self, *other),
    {
        self.name == other.name && self.version == other.version && self.source_id
            == other.source_id
    }

    /// The hash-input encoding of this identity.
    pub fn id_bytes(&self) -> (r: Vec<u8>)
        ensures
            r@ == spec_id_bytes(*self),
    {
        let mut out: Vec<u8> = Vec::new();
        append_frame(&mut out, self.name.as_str().as_bytes());
        append_frame(&mut out, self.version.as_str().as_bytes());
        append_frame(&mut out, self.source_id.as_str().as_bytes());
        proof {
            assert(out@ =~= spec_id_bytes(*self));
        }
        out
    }
}

/// A short stable hash of a package identity, used in directory names.
pub fn short_hash(id: &PackageId) -> (r: String)
    ensures
        r@ == spec_short_hash(*id),
{
    let bytes = id.id_bytes();
    let h = sip13_hash128(bytes.as_slice());
    to_hex(h.0)
}

/// Build flavor of a target.
pub struct Profile {
    /// Environment tag, such as `"compile"`, `"test"` or `"doc"`.
    pub env: String,
    /// The profile produces a compilation.
    pub compile: bool,
    /// The target is built as a test.
    pub test: bool,
    /// The target is built as documentation.
    pub doc: bool,
    /// The target is a compiler plugin, built for the host.
    pub plugin: bool,
}

impl Clone for Profile {
    fn clone(&self) -> (r: Self)
        ensures
            r == *self,
    {
        Profile {
            env: self.env.clone(),
            compile: self.compile,
            test: self.test,
            doc: self.doc,
            plugin: self.plugin,
        }
    }
}

impl Profile {
    pub fn is_compile(&self) -> (r: bool)
        ensures
            r == self.compile,
    {
        self.compile
    }

    pub fn is_test(&self) -> (r: bool)
        ensures
            r == self.test,
    {
        self.test
    }

    pub fn is_doc(&self) -> (r: bool)
        ensures
            r == self.doc,
    {
        self.doc
    }

    pub fn is_plugin(&self) -> (r: bool)
        ensures
            r == self.plugin,
    {
        self.plugin
    }

    pub fn get_env(&self) -> (r: &str)
        ensures
            r@ == self.env@,
    {
        self.env.as_str()
    }
}

/// One byte standing for a boolean in a hash input.
pub open spec fn bool_byte(b: bool) -> u8 {
    if b {
        1
    } else {
        0
    }
}

/// A compilation unit inside a package.
pub struct Target {
    /// The target's name.
    pub name: String,
    /// Stem used to derive output filenames.
    pub stem: String,
    /// Path of the target's root source file, relative to the package root.
    pub src_path: String,
    /// The target is a library.
    pub lib: bool,
    /// The target is a binary.
    pub bin: bool,
    /// The library is built as a dynamic library.
    pub dylib: bool,
    /// The library is built as an rlib archive.
    pub rlib: bool,
    /// The target's profile.
    pub profile: Profile,
}

impl Clone for Target {
    fn clone(&self) -> (r: Self)
        ensures
            r == *self,
    {
        Target {
            name: self.name.clone(),
            stem: self.stem.clone(),
            src_path: self.src_path.clone(),
            lib: self.lib,
            bin: self.bin,
            dylib: self.dylib,
            rlib: self.rlib,
            profile: self.profile.clone(),
        }
    }
}

/// The bytes a target contributes to a hash input: every field, each string
/// length-prefixed, each flag one byte.
pub open spec fn spec_target_bytes(t: Target) -> Seq<u8> {
    len_prefixed(encode_utf8(t.name@)) + len_prefixed(encode_utf8(t.stem@)) + len_prefixed(
        encode_utf8(t.src_path@),
    ) + seq![bool_byte(t.lib), bool_byte(t.bin), bool_byte(t.dylib), bool_byte(t.rlib)]
        + len_prefixed(encode_utf8(t.profile.env@)) + seq![
        bool_byte(t.profile.compile),
        bool_byte(t.profile.test),
        bool_byte(t.profile.doc),
        bool_byte(t.profile.plugin),
    ]
}

impl Target {
    pub fn get_name(&self) -> (r: &str)
        ensures
            r@ == self.name@,
    {
        self.name.as_str()
    }

    pub fn file_stem(&self) -> (r: &str)
        ensures
            r@ == self.stem@,
    {
        self.stem.as_str()
    }

    pub fn get_profile(&self) -> (r: &Profile)
        ensures
            r == &self.profile,
    {
        &self.profile
    }

    pub fn is_lib(&self) -> (r: bool)
        ensures
            r == self.lib,
    {
        self.lib
    }

    pub fn is_bin(&self) -> (r: bool)
        ensures
            r == self.bin,
    {
        self.bin
    }

    pub fn is_dylib(&self) -> (r: bool)
        ensures
            r == self.dylib,
    {
        self.dylib
    }

    pub fn is_rlib(&self) -> (r: bool)
        ensures
            r == self.rlib,
    {
        self.rlib
    }

    /// The hash-input encoding of this target.
    #[verifier::rlimit(80)]
    pub fn target_bytes(&self) -> (r: Vec<u8>)
        ensures
            r@ == spec_target_bytes(*self),
    {
        let mut out: Vec<u8> = Vec::new();
        append_frame(&mut out, self.name.as_str().as_bytes());
        append_frame(&mut out, self.stem.as_str().as_bytes());
        append_frame(&mut out, self.src_path.as_str().as_bytes());
        append_byte(&mut out, if self.lib { 1 } else { 0 });
        append_byte(&mut out, if self.bin { 1 } else { 0 });
        append_byte(&mut out, if self.dylib { 1 } else { 0 });
        append_byte(&mut out, if self.rlib { 1 } else { 0 });
        append_frame(&mut out, self.profile.env.as_str().as_bytes());
        append_byte(&mut out, if self.profile.compile { 1 } else { 0 });
        append_byte(&mut out, if self.profile.test { 1 } else { 0 });
        append_byte(&mut out, if self.profile.doc { 1 } else { 0 });
        append_byte(&mut out, if self.profile.plugin { 1 } else { 0 });
        proof {
            assert(out@ =~= spec_target_bytes(*self));
        }
        out
    }
}

/// A package: identity, root directory, declared targets, and declared
/// build-script command lines.
pub struct Package {
    pub id: PackageId,
    pub root: String,
    pub targets: Vec<Target>,
    pub build: Vec<String>,
}

impl Clone for Package {
    fn clone(&self) -> (r: Self)
        ensures
            r.id == self.id,
            r.root == self.root,
            r.targets@ == self.targets@,
            r.build@ == self.build@,
    {
        let mut targets: Vec<Target> = Vec::new();
        let mut i: usize = 0;
        while i < self.targets.len()
            invariant
                0 <= i <= self.targets@.len(),
                targets@ =~= self.targets@.subrange(0, i as int),
            decreases self.targets@.len() - i,
        {
            targets.push(self.targets[i].clone());
            i += 1;
        }
        let mut build: Vec<String> = Vec::new();
        let mut j: usize = 0;
        while j < self.build.len()
            invariant
                0 <= j <= self.build@.len(),
                build@ =~= self.build@.subrange(0, j as int),
            decreases self.build@.len() - j,
        {
            build.push(self.build[j].clone());
            j += 1;
        }
        proof {
            assert(targets@ =~= self.targets@);
            assert(build@ =~= self.build@);
        }
        Package { id: self.id.clone(), root: self.root.clone(), targets, build }
    }
}

impl Package {
    pub fn get_package_id(&self) -> (r: &PackageId)
        ensures
            r == &self.id,
    {
        &self.id
    }

    pub fn get_name(&self) -> (r: &str)
        ensures
            r@ == self.id.name@,
    {
        self.id.name.as_str()
    }

    pub fn get_root(&self) -> (r: &String)
        ensures
            r == &self.root,
    {
        &self.root
    }

    pub fn get_targets(&self) -> (r: &Vec<Target>)
        ensures
            r == &self.targets,
    {
        &self.targets
    }

    /// The package's declared build-script command lines.
    pub fn get_build(&self) -> (r: &Vec<String>)
        ensures
            r == &self.build,
    {
        &self.build
    }
}

/// The set of packages taking part in the build.
pub struct PackageSet {
    pub packages: Vec<Package>,
}

/// First package in `pkgs` whose identity matches `id`.
pub open spec fn spec_find_pkg(pkgs: Seq<Package>, id: PackageId) -> Option<Package>
    decreases pkgs.len(),
{
    if pkgs.len() == 0 {
        None
    } else if id_eq(pkgs[0].id, id) {
        Some(pkgs[0])
    } else {
        spec_find_pkg(pkgs.drop_first(), id)
    }
}

impl PackageSet {
    /// Finds the package with the given identity, if the set holds one.
    pub fn find(&self, id: &PackageId) -> (r: Option<&Package>)
        ensures
            match r {
                Some(p) => spec_find_pkg(self.packages@, *id) == Some(*p),
                None => spec_find_pkg(self.packages@, *id) is None,
            },
    {
        let n = self.packages.len();
        let mut i: usize = 0;
        proof {
            assert(self.packages@.subrange(0, n as int) =~= self.packages@);
        }
        while i < n
            invariant
                0 <= i <= n,
                n == self.packages@.len(),
                spec_find_pkg(self.packages@.subrange(i as int, n as int), *id) == spec_find_pkg(
                    self.packages@,
                    *id,
                ),
        decreases n - i,
        {
            let ghost pre = self.packages@.subrange(i as int, n as int);
            if self.packages[i].id.eq_id(id) {
                proof {
                    assert(pre[0] == self.packages@[i as int]);
                }
                return Some(&self.packages[i]);
            }
            proof {
                assert(pre.drop_first() =~= self.packages@.subrange(i + 1, n as int));
            }
            i += 1;
        }
        proof {
            assert(self.packages@.subrange(n as int, n as int) =~= Seq::<Package>::empty());
        }
        None
    }
}

/// The resolved dependency graph: each package's direct dependencies.
pub struct Resolve {
    pub nodes: Vec<(PackageId, Vec<PackageId>)>,
}

/// Direct dependencies recorded for `id`, if the graph knows the package.
pub open spec fn spec_deps(nodes: Seq<(PackageId, Vec<PackageId>)>, id: PackageId) -> Option<
    Seq<PackageId>,
>
    decreases nodes.len(),
{
    if nodes.len() == 0 {
        None
    } else if id_eq(nodes[0].0, id) {
        Some(nodes[0].1@)
    } else {
        spec_deps(nodes.drop_first(), id)
    }
}

impl Resolve {
    /// The direct dependencies of `id`; `None` when the package is unknown.
    pub fn deps(&self, id: &PackageId) -> (r: Option<&Vec<PackageId>>)
        ensures
            match r {
                Some(v) => spec_deps(self.nodes@, *id) == Some(v@),
                None => spec_deps(self.nodes@, *id) is None,
            },
    {
        let n = self.nodes.len();
        let mut i: usize = 0;
        proof {
            assert(self.nodes@.subrange(0, n as int) =~= self.nodes@);
        }
        while i < n
            invariant
                0 <= i <= n,
                n == self.nodes@.len(),
                spec_deps(self.nodes@.subrange(i as int, n as int), *id) == spec_deps(
                    self.nodes@,
                    *id,
                ),
        decreases n - i,
        {
            let ghost pre = self.nodes@.subrange(i as int, n as int);
            if self.nodes[i].0.eq_id(id) {
                proof {
                    assert(pre[0] == self.nodes@[i as int]);
                }
                return Some(&self.nodes[i].1);
            }
            proof {
                assert(pre.drop_first() =~= self.nodes@.subrange(i + 1, n as int));
            }
            i += 1;
        }
        proof {
            assert(self.nodes@.subrange(n as int, n as int) =~= Seq::<(PackageId, Vec<PackageId>)>::empty());
        }
        None
    }
}

} // verus!
