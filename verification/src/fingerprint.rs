//! The fingerprint engine: decides, per target and per build script, whether
//! prior outputs are still fresh, and produces the deferred work that writes
//! the new fingerprint and promotes the previous build's files.
//!
//! Freshness is tracked per target, not per package, so a test-only change
//! does not rebuild the library; the compiler's dep-info output names the
//! inputs of each target.

use vstd::prelude::*;
use vstd::string::*;
use vstd::utf8::encode_utf8;

use crate::context::{Context, Kind};
use crate::errors::{internal, CargoError, CargoResult};
use crate::hash::{
    append_frame, hash_hex, len_prefixed, lemma_frame_injective, sip128_of, sip13_hash128,
    spec_hex32,
};
use crate::layout::spec_pkg_dirname;
use crate::package::{spec_target_bytes, Package, Target};
use crate::source::{spec_find_source, spec_fp_lookup, Source};
use crate::strutil::{
    fields, find_sep, first_line, join, lemma_spec_find_sep, spec_fields, spec_find_sep,
    spec_first_line, spec_join,
};
use crate::work::{spec_fs_lookup, FileEntry, Fs, Work};
use crate::Freshness;

verus! {

/// A tuple result of the `prepare_*` functions of this module: whether the
/// target is currently fresh, the work that writes its new fingerprint, and
/// the work that promotes the previous build's files. Both units are always
/// produced — a fresh target may still be rebuilt when something upstream
/// changes.
pub type Preparation = (Freshness, Work, Work);

/// The fingerprint file name of a target: `<flavor><lib|bin>-<name>`.
pub open spec fn spec_filename(t: Target) -> Seq<char> {
    (if t.profile.test {
        "test-"@
    } else if t.profile.doc {
        "doc-"@
    } else {
        ""@
    }) + (if t.lib {
        "lib"@
    } else {
        "bin"@
    }) + "-"@ + t.name@
}

/// The fingerprint file name of a target.
pub fn filename(target: &Target) -> (r: String)
    ensures
        r@ == spec_filename(*target),
{
    let kind = if target.is_lib() {
        "lib"
    } else {
        "bin"
    };
    let flavor = if target.get_profile().is_test() {
        "test-"
    } else if target.get_profile().is_doc() {
        "doc-"
    } else {
        ""
    };
    let mut s = flavor.to_owned();
    s.append(kind);
    s.append("-");
    s.append(target.get_name());
    s
}

/// The (previous, current) fingerprint directories of a package.
pub open spec fn spec_dirs<'a>(cx: Context<'a>, pkg: Package, kind: Kind) -> (Seq<char>, Seq<char>) {
    let l = cx.spec_layout(kind);
    (
        spec_join(l.old_fingerprint@, spec_pkg_dirname(pkg.id)),
        spec_join(l.fingerprint@, spec_pkg_dirname(pkg.id)),
    )
}

/// The (previous, current) fingerprint directories of a package.
pub fn dirs<'a>(cx: &Context<'a>, pkg: &Package, kind: Kind) -> (r: (String, String))
    ensures
        r.0@ == spec_dirs(*cx, *pkg, kind).0,
        r.1@ == spec_dirs(*cx, *pkg, kind).1,
{
    let dirname = crate::layout::pkg_dirname(pkg);
    let layout = cx.layout(kind);
    let layout = layout.proxy();
    (
        join(layout.old_fingerprint.as_str(), dirname.as_str()),
        join(layout.fingerprint.as_str(), dirname.as_str()),
    )
}

/// The (previous, current) dep-info file locations of a target.
pub open spec fn spec_dep_info_loc<'a>(cx: Context<'a>, pkg: Package, target: Target, kind: Kind) -> (
    Seq<char>,
    Seq<char>,
) {
    let d = spec_dirs(cx, pkg, kind);
    (
        spec_join(d.0, "dep-"@ + spec_filename(target)),
        spec_join(d.1, "dep-"@ + spec_filename(target)),
    )
}

/// The (previous, current) locations of the dep-info file of a target.
pub fn dep_info_loc<'a>(cx: &Context<'a>, pkg: &Package, target: &Target, kind: Kind) -> (r: (
    String,
    String,
))
    ensures
        r.0@ == spec_dep_info_loc(*cx, *pkg, *target, kind).0,
        r.1@ == spec_dep_info_loc(*cx, *pkg, *target, kind).1,
{
    let (old, new) = dirs(cx, pkg, kind);
    let fname = filename(target);
    let mut dep = "dep-".to_owned();
    dep.append(fname.as_str());
    (join(old.as_str(), dep.as_str()), join(new.as_str(), dep.as_str()))
}

/// The stored fingerprint at `loc` matches `fp`: the file is present,
/// readable, and holds exactly the new fingerprint. Anything else is stale.
pub open spec fn spec_is_fresh(files: Seq<(String, FileEntry)>, loc: Seq<char>, fp: Seq<char>) -> bool {
    match spec_fs_lookup(files, loc) {
        Some(e) => match e.contents {
            Some(c) => c@ == fp,
            None => false,
        },
        None => false,
    }
}

/// Compares the stored fingerprint with the newly computed one; a missing or
/// unreadable file is stale.
pub fn is_fresh(fs: &Fs, loc: &str, new_fingerprint: &str) -> (r: bool)
    ensures
        r == spec_is_fresh(fs.files@, loc@, new_fingerprint@),
{
    let entry = match fs.lookup(loc) {
        Some(e) => e,
        None => {
            return false;
        },
    };
    match &entry.contents {
        Some(c) => crate::strutil::str_eq(c.as_str(), new_fingerprint),
        None => false,
    }
}

/// The bytes hashed for a fingerprint: the compiler version, length-prefixed,
/// then the data being fingerprinted.
pub open spec fn spec_fingerprint_input(version: Seq<char>, data: Seq<u8>) -> Seq<u8> {
    len_prefixed(encode_utf8(version)) + data
}

/// The fingerprint of `data` under a compiler version: lowercase hex of the
/// 128-bit content hash of the framed input.
pub open spec fn spec_mk_fingerprint(version: Seq<char>, data: Seq<u8>) -> Seq<char> {
    spec_hex32(sip128_of(spec_fingerprint_input(version, data)))
}

/// Folds the context's compiler version into `data` and hashes, so that a
/// compiler upgrade changes every fingerprint.
pub fn mk_fingerprint<'a>(cx: &Context<'a>, data: &[u8]) -> (r: String)
    ensures
        r@ == spec_mk_fingerprint(cx.rustc_version@, data@),
{
    let mut input: Vec<u8> = Vec::new();
    append_frame(&mut input, cx.rustc_version.as_str().as_bytes());
    input.extend_from_slice(data);
    proof {
        assert(input@ =~= spec_fingerprint_input(cx.rustc_version@, data@));
    }
    let h = sip13_hash128(input.as_slice());
    hash_hex(h)
}

/// Equal versions and data fingerprint equally: the fingerprint is a pure
/// function of its inputs.
pub proof fn lemma_fingerprint_deterministic(
    v1: Seq<char>,
    d1: Seq<u8>,
    v2: Seq<char>,
    d2: Seq<u8>,
)
    requires
        v1 == v2,
        d1 == d2,
    ensures
        spec_mk_fingerprint(v1, d1) == spec_mk_fingerprint(v2, d2),
{
}

/// Two different compiler versions hash different inputs, whatever the data:
/// the framing of the fingerprint input is injective.
pub proof fn lemma_fingerprint_input_version(v1: Seq<char>, v2: Seq<char>, data: Seq<u8>)
    requires
        encode_utf8(v1).len() < 0x1_0000_0000_0000_0000,
        encode_utf8(v2).len() < 0x1_0000_0000_0000_0000,
        v1 != v2,
    ensures
        spec_fingerprint_input(v1, data) != spec_fingerprint_input(v2, data),
{
    if spec_fingerprint_input(v1, data) == spec_fingerprint_input(v2, data) {
        lemma_frame_injective(encode_utf8(v1), data, encode_utf8(v2), data);
        vstd::utf8::encode_utf8_decode_utf8(v1);
        vstd::utf8::encode_utf8_decode_utf8(v2);
    }
}

/// The paths the dep-info file at `path` lists as inputs of its target,
/// relative to the package root; empty when the file is absent, unreadable or
/// has no separator.
pub open spec fn spec_dep_inputs_of(files: Seq<(String, FileEntry)>, path: Seq<char>) -> Seq<
    Seq<char>,
> {
    match spec_fs_lookup(files, path) {
        Some(e) => match e.contents {
            Some(c) => {
                let line = spec_first_line(c@);
                match spec_find_sep(line) {
                    Some(pos) => spec_fields(line.subrange(pos + 2, line.len() as int)),
                    None => Seq::empty(),
                }
            },
            None => Seq::empty(),
        },
        None => Seq::empty(),
    }
}

/// Every listed input exists under the package root and is no newer than the
/// dep-info file itself.
pub open spec fn spec_inputs_fresh(
    files: Seq<(String, FileEntry)>,
    root: Seq<char>,
    inputs: Seq<Seq<char>>,
    ref_mtime: u64,
) -> bool {
    forall|i: int|
        0 <= i < inputs.len() ==> match spec_fs_lookup(files, spec_join(root, #[trigger] inputs[i])) {
            Some(e) => e.mtime <= ref_mtime,
            None => false,
        }
}

/// A present, readable, non-empty dep-info file whose first line has no
/// `": "` separator: an external tool wrote a broken file.
pub open spec fn spec_dep_info_malformed(files: Seq<(String, FileEntry)>, path: Seq<char>) -> bool {
    match spec_fs_lookup(files, path) {
        Some(e) => match e.contents {
            Some(c) => c@.len() > 0 && spec_find_sep(spec_first_line(c@)) is None,
            None => false,
        },
        None => false,
    }
}

/// The dep-info file shows the target's files fresh: the file is present,
/// readable and non-empty, parses, and every input it lists is present and no
/// newer than it.
pub open spec fn spec_files_fresh(
    files: Seq<(String, FileEntry)>,
    root: Seq<char>,
    path: Seq<char>,
) -> bool {
    match spec_fs_lookup(files, path) {
        Some(e) => match e.contents {
            Some(c) => c@.len() > 0 && spec_find_sep(spec_first_line(c@)) is Some
                && spec_inputs_fresh(files, root, spec_dep_inputs_of(files, path), e.mtime),
            None => false,
        },
        None => false,
    }
}

/// Decides from the previous build's dep-info file whether a target's input
/// files are unchanged. Any uncertainty — a missing, unreadable or empty file,
/// a missing input, a newer input — resolves to stale; only a present file
/// that does not parse is an error.
pub fn calculate_target_fresh(pkg: &Package, dep_info: &str, fs: &Fs) -> (r: CargoResult<bool>)
    ensures
        match r {
            Ok(b) => !spec_dep_info_malformed(fs.files@, dep_info@) && b == spec_files_fresh(
                fs.files@,
                pkg.root@,
                dep_info@,
            ),
            Err(e) => spec_dep_info_malformed(fs.files@, dep_info@) && (e matches
                CargoError::Internal { desc } && desc@
                == "dep-info not in an understood format"@),
        },
{
    let entry = match fs.lookup(dep_info) {
        Some(e) => e,
        None => {
            return Ok(false);
        },
    };
    let contents = match &entry.contents {
        Some(c) => c,
        None => {
            return Ok(false);
        },
    };
    if contents.unicode_len() == 0 {
        return Ok(false);
    }
    let line = first_line(contents.as_str());
    let mtime = entry.mtime;
    let pos = match find_sep(line.as_str()) {
        Some(p) => p,
        None => {
            return Err(internal("dep-info not in an understood format".to_owned()));
        },
    };
    proof {
        lemma_spec_find_sep(line@);
    }
    let llen = line.unicode_len();
    let rest = line.as_str().substring_char(pos + 2, llen);
    let inputs = fields(rest);
    let ghost ev = *entry;
    let ghost inputsv = spec_dep_inputs_of(fs.files@, dep_info@);
    proof {
        assert(inputs@.map_values(|p: String| p@) == inputsv);
    }
    let n = inputs.len();
    let mut i: usize = 0;
    while i < n
        invariant
            0 <= i <= n,
            n == inputs@.len(),
            inputs@.map_values(|p: String| p@) == inputsv,
            spec_fs_lookup(fs.files@, dep_info@) == Some(ev),
            ev.contents matches Some(c) && c@.len() > 0 && spec_find_sep(spec_first_line(c@))
                is Some,
            mtime == ev.mtime,
            inputsv == spec_dep_inputs_of(fs.files@, dep_info@),
            forall|j: int|
                0 <= j < i ==> match spec_fs_lookup(
                    fs.files@,
                    spec_join(pkg.root@, #[trigger] inputsv[j]),
                ) {
                    Some(e) => e.mtime <= mtime,
                    None => false,
                },
        decreases n - i,
    {
        let path = join(pkg.get_root().as_str(), inputs[i].as_str());
        proof {
            assert(inputsv[i as int] == inputs@[i as int]@);
        }
        match fs.lookup(path.as_str()) {
            Some(e) => {
                if e.mtime > mtime {
                    proof {
                        assert(!spec_inputs_fresh(fs.files@, pkg.root@, inputsv, ev.mtime));
                    }
                    return Ok(false);
                }
            },
            None => {
                proof {
                    assert(!spec_inputs_fresh(fs.files@, pkg.root@, inputsv, ev.mtime));
                }
                return Ok(false);
            },
        }
        i += 1;
    }
    Ok(true)
}

/// The source fingerprint recorded for a package, if its source is known and
/// has one.
pub open spec fn spec_pkg_fingerprint(sources: Seq<Source>, pkg: Package) -> Option<Seq<char>> {
    match spec_find_source(sources, pkg.id.source_id@) {
        None => None,
        Some(src) => spec_fp_lookup(src.fingerprints@, pkg.id),
    }
}

/// Asks the package's source for its fingerprint; a source missing from the
/// map is a broken driver invariant.
pub fn calculate_pkg_fingerprint<'a>(cx: &Context<'a>, pkg: &Package) -> (r: CargoResult<String>)
    ensures
        match r {
            Ok(s) => spec_pkg_fingerprint(cx.sources.sources@, *pkg) == Some(s@),
            Err(e) => spec_pkg_fingerprint(cx.sources.sources@, *pkg) is None && e matches
                CargoError::Internal { .. },
        },
{
    let source = match cx.sources.get(pkg.id.source_id.as_str()) {
        Some(s) => s,
        None => {
            return Err(internal("BUG: missing package source".to_owned()));
        },
    };
    source.fingerprint(pkg)
}

/// The fingerprint input of a build script: the package's whole source
/// fingerprint. Scoping it to the build commands' own files is left open; a
/// coarser fingerprint only rebuilds too much, never too little.
fn calculate_build_cmd_fingerprint<'a>(cx: &Context<'a>, pkg: &Package) -> (r: CargoResult<String>)
    ensures
        match r {
            Ok(s) => spec_pkg_fingerprint(cx.sources.sources@, *pkg) == Some(s@),
            Err(e) => spec_pkg_fingerprint(cx.sources.sources@, *pkg) is None && e matches
                CargoError::Internal { .. },
        },
{
    calculate_pkg_fingerprint(cx, pkg)
}

/// Assembles a `Preparation` from the freshness decision, the location and
/// value of the new fingerprint, and the rename pairs of the promote step.
pub fn prepare(is_fresh: bool, loc: String, fingerprint: String, to_copy: Vec<(String, String)>) -> (r:
    Preparation)
    ensures
        r.0 == (if is_fresh {
            Freshness::Fresh
        } else {
            Freshness::Dirty
        }),
        r.1 == (Work::WriteFingerprint { path: loc, fingerprint }),
        r.2 == (Work::Promote { pairs: to_copy }),
{
    (
        if is_fresh {
            Freshness::Fresh
        } else {
            Freshness::Dirty
        },
        Work::WriteFingerprint { path: loc, fingerprint },
        Work::Promote { pairs: to_copy },
    )
}

/// The data a target's fingerprint hashes: the target itself and, for a doc
/// target, additionally the package's source fingerprint, which subsumes the
/// dep-info check that doc targets lack.
pub open spec fn spec_doc_data(t: Target, pkg_fp: Seq<char>) -> Seq<u8> {
    spec_target_bytes(t) + len_prefixed(encode_utf8(pkg_fp))
}

/// The fingerprint data of a target, when it is defined.
pub open spec fn spec_target_fp_data<'a>(cx: Context<'a>, pkg: Package, target: Target) -> Option<
    Seq<u8>,
> {
    if !target.profile.doc {
        Some(spec_target_bytes(target))
    } else {
        match spec_pkg_fingerprint(cx.sources.sources@, pkg) {
            Some(s) => Some(spec_doc_data(target, s)),
            None => None,
        }
    }
}

/// The freshness decision for a target: the stored fingerprint matches the
/// computed one, and — except for doc targets — the dep-info file shows every
/// input unchanged.
pub open spec fn spec_target_freshness<'a>(
    cx: Context<'a>,
    pkg: Package,
    target: Target,
    kind: Kind,
    files: Seq<(String, FileEntry)>,
) -> bool {
    let d = spec_dirs(cx, pkg, kind);
    let old_fp = spec_join(d.0, spec_filename(target));
    let old_di = spec_dep_info_loc(cx, pkg, target, kind).0;
    match spec_target_fp_data(cx, pkg, target) {
        Some(data) => spec_is_fresh(files, old_fp, spec_mk_fingerprint(cx.rustc_version@, data))
            && (target.profile.doc || spec_files_fresh(files, pkg.root@, old_di)),
        None => false,
    }
}

/// The rename pairs promoting a target's previous files: its fingerprint
/// file, and — except for doc targets — its dep-info file and every output
/// artifact.
pub open spec fn spec_promote_pairs<'a>(
    cx: Context<'a>,
    pkg: Package,
    target: Target,
    kind: Kind,
) -> Seq<(Seq<char>, Seq<char>)> {
    let d = spec_dirs(cx, pkg, kind);
    let old_fp = spec_join(d.0, spec_filename(target));
    let new_fp = spec_join(d.1, spec_filename(target));
    let di = spec_dep_info_loc(cx, pkg, target, kind);
    let base = seq![(old_fp, new_fp)];
    if target.profile.doc {
        base
    } else {
        base + seq![di] + cx.spec_target_filenames(target).map_values(
            |n: Seq<char>|
                (
                    spec_join(cx.spec_proxy_old_root(kind), n),
                    spec_join(cx.spec_proxy_root(kind), n),
                ),
        )
    }
}

/// Calculates a target's fingerprint, decides its freshness against the
/// previous build, and produces the work that writes the fingerprint and the
/// work that promotes the previous build's files.
pub fn prepare_target<'a>(
    cx: &Context<'a>,
    pkg: &Package,
    target: &Target,
    kind: Kind,
    fs: &Fs,
) -> (r: CargoResult<Preparation>)
    ensures
        ({
            let files = fs.files@;
            let d = spec_dirs(*cx, *pkg, kind);
            let new_fp = spec_join(d.1, spec_filename(*target));
            let old_di = spec_dep_info_loc(*cx, *pkg, *target, kind).0;
            let doc = target.profile.doc;
            match r {
                Ok(prep) => {
                    &&& spec_target_fp_data(*cx, *pkg, *target) matches Some(data) && ({
                        let fp = spec_mk_fingerprint(cx.rustc_version@, data);
                        &&& (prep.0 == Freshness::Fresh <==> spec_target_freshness(
                            *cx,
                            *pkg,
                            *target,
                            kind,
                            files,
                        ))
                        &&& prep.1 matches Work::WriteFingerprint { path, fingerprint }
                            && path@ == new_fp && fingerprint@ == fp
                        &&& prep.2 matches Work::Promote { pairs } && pairs@.map_values(
                            |p: (String, String)| (p.0@, p.1@),
                        ) == spec_promote_pairs(*cx, *pkg, *target, kind)
                    })
                    &&& !doc ==> !spec_dep_info_malformed(files, old_di)
                        && cx.spec_target_filenames(*target).len() > 0
                },
                Err(e) => {
                    &&& e matches CargoError::Internal { .. }
                    &&& (if doc {
                        spec_pkg_fingerprint(cx.sources.sources@, *pkg) is None
                    } else {
                        spec_dep_info_malformed(files, old_di) || cx.spec_target_filenames(
                            *target,
                        ).len() == 0
                    })
                },
            }
        }),
{
    let (old_dir, new_dir) = dirs(cx, pkg, kind);
    let fname = filename(target);
    let old_loc = join(old_dir.as_str(), fname.as_str());
    let new_loc = join(new_dir.as_str(), fname.as_str());
    let doc = target.get_profile().is_doc();

    // First bit of the freshness calculation: does the previous dep-info file
    // show the target's files fresh?
    let (old_dep_info, new_dep_info) = dep_info_loc(cx, pkg, target, kind);
    let are_files_fresh = if doc {
        true
    } else {
        match calculate_target_fresh(pkg, old_dep_info.as_str(), fs) {
            Ok(b) => b,
            Err(e) => {
                return Err(e);
            },
        }
    };

    // Second bit: do the compiler and the target still match the stored
    // fingerprint?
    let rustc_fingerprint = if doc {
        let pkg_fp = match calculate_pkg_fingerprint(cx, pkg) {
            Ok(s) => s,
            Err(e) => {
                return Err(e);
            },
        };
        let mut data = target.target_bytes();
        append_frame(&mut data, pkg_fp.as_str().as_bytes());
        proof {
            assert(data@ =~= spec_doc_data(*target, pkg_fp@));
        }
        mk_fingerprint(cx, data.as_slice())
    } else {
        let data = target.target_bytes();
        mk_fingerprint(cx, data.as_slice())
    };
    let fresh_rustc = is_fresh(fs, old_loc.as_str(), rustc_fingerprint.as_str());

    let layout = cx.layout(kind);
    let mut pairs: Vec<(String, String)> = Vec::new();
    pairs.push((old_loc, new_loc.clone()));
    if !doc {
        pairs.push((old_dep_info, new_dep_info));
        let names = match cx.target_filenames(target) {
            Ok(v) => v,
            Err(e) => {
                return Err(e);
            },
        };
        let old_root = layout.old_root();
        let root = layout.root();
        let m = names.len();
        let mut j: usize = 0;
        let ghost mapped = cx.spec_target_filenames(*target).map_values(
            |n: Seq<char>|
                (
                    spec_join(cx.spec_proxy_old_root(kind), n),
                    spec_join(cx.spec_proxy_root(kind), n),
                ),
        );
        proof {
            assert(spec_promote_pairs(*cx, *pkg, *target, kind) == spec_promote_pairs(
                *cx,
                *pkg,
                *target,
                kind,
            ).subrange(0, 2) + mapped) by {
                assert(spec_promote_pairs(*cx, *pkg, *target, kind).subrange(0, 2) + mapped
                    =~= spec_promote_pairs(*cx, *pkg, *target, kind));
            }
            assert(pairs@.map_values(|p: (String, String)| (p.0@, p.1@)) =~= spec_promote_pairs(
                *cx,
                *pkg,
                *target,
                kind,
            ).subrange(0, 2) + mapped.subrange(0, 0));
        }
        while j < m
            invariant
                0 <= j <= m,
                m == names@.len(),
                !target.profile.doc,
                spec_promote_pairs(*cx, *pkg, *target, kind) == spec_promote_pairs(
                    *cx,
                    *pkg,
                    *target,
                    kind,
                ).subrange(0, 2) + mapped,
                names@.map_values(|p: String| p@) == cx.spec_target_filenames(*target),
                mapped == cx.spec_target_filenames(*target).map_values(
                    |n: Seq<char>|
                        (
                            spec_join(cx.spec_proxy_old_root(kind), n),
                            spec_join(cx.spec_proxy_root(kind), n),
                        ),
                ),
                *old_root == (if cx.primary {
                    cx.spec_layout(kind).old_root
                } else {
                    cx.spec_layout(kind).old_deps
                }),
                *root == (if cx.primary {
                    cx.spec_layout(kind).root
                } else {
                    cx.spec_layout(kind).deps
                }),
                pairs@.map_values(|p: (String, String)| (p.0@, p.1@)) == spec_promote_pairs(
                    *cx,
                    *pkg,
                    *target,
                    kind,
                ).subrange(0, 2) + mapped.subrange(0, j as int),
            decreases m - j,
        {
            let name = &names[j];
            let p_old = join(old_root.as_str(), name.as_str());
            let p_new = join(root.as_str(), name.as_str());
            let ghost prev = pairs@;
            pairs.push((p_old, p_new));
            proof {
                let f = |p: (String, String)| (p.0@, p.1@);
                assert(names@.map_values(|p: String| p@)[j as int] == names@[j as int]@);
                assert(cx.spec_target_filenames(*target)[j as int] == names@[j as int]@);
                assert(mapped[j as int] == (
                    spec_join(cx.spec_proxy_old_root(kind), names@[j as int]@),
                    spec_join(cx.spec_proxy_root(kind), names@[j as int]@),
                ));
                assert(p_old@ == spec_join(cx.spec_proxy_old_root(kind), names@[j as int]@));
                assert(p_new@ == spec_join(cx.spec_proxy_root(kind), names@[j as int]@));
                assert(f((p_old, p_new)) == mapped[j as int]);
                assert(pairs@ == prev.push((p_old, p_new)));
                assert(pairs@.map_values(f) =~= prev.map_values(f).push(f((p_old, p_new))));
                assert(mapped.subrange(0, j + 1) =~= mapped.subrange(0, j as int).push(
                    mapped[j as int],
                ));
                assert(pairs@.map_values(f) =~= spec_promote_pairs(
                    *cx,
                    *pkg,
                    *target,
                    kind,
                ).subrange(0, 2) + mapped.subrange(0, j + 1));
            }
            j += 1;
        }
        proof {
            assert(mapped.subrange(0, mapped.len() as int) =~= mapped);
            assert(spec_promote_pairs(*cx, *pkg, *target, kind).subrange(0, 2) + mapped
                =~= spec_promote_pairs(*cx, *pkg, *target, kind));
        }
    } else {
        proof {
            assert(pairs@.map_values(|p: (String, String)| (p.0@, p.1@)) =~= spec_promote_pairs(
                *cx,
                *pkg,
                *target,
                kind,
            ));
        }
    }

    Ok(prepare(fresh_rustc && are_files_fresh, new_loc, rustc_fingerprint, pairs))
}

/// The freshness decision for a package's build script.
pub open spec fn spec_build_cmd_freshness<'a>(
    cx: Context<'a>,
    pkg: Package,
    files: Seq<(String, FileEntry)>,
) -> bool {
    match spec_pkg_fingerprint(cx.sources.sources@, pkg) {
        Some(s) => {
            let old_loc = spec_join(spec_dirs(cx, pkg, Kind::Target).0, "build"@);
            spec_is_fresh(
                files,
                old_loc,
                spec_mk_fingerprint(cx.rustc_version@, len_prefixed(encode_utf8(s))),
            )
        },
        None => false,
    }
}

/// Prepares the work for a package's build script. A package without build
/// commands is trivially fresh, with nothing to write and nothing to promote.
/// Build commands have no dep-info, so the whole package's source fingerprint
/// stands in for their inputs.
pub fn prepare_build_cmd<'a>(cx: &Context<'a>, pkg: &Package, fs: &Fs) -> (r: CargoResult<
    Preparation,
>)
    ensures
        pkg.build@.len() == 0 ==> r == Ok::<Preparation, CargoError>(
            (Freshness::Fresh, Work::Noop, Work::Noop),
        ),
        ({
            let d = spec_dirs(*cx, *pkg, Kind::Target);
            let old_loc = spec_join(d.0, "build"@);
            let new_loc = spec_join(d.1, "build"@);
            pkg.build@.len() > 0 ==> match r {
                Ok(prep) => {
                    &&& spec_pkg_fingerprint(cx.sources.sources@, *pkg) matches Some(s) && ({
                        let fp = spec_mk_fingerprint(
                            cx.rustc_version@,
                            len_prefixed(encode_utf8(s)),
                        );
                        &&& (prep.0 == Freshness::Fresh <==> spec_build_cmd_freshness(
                            *cx,
                            *pkg,
                            fs.files@,
                        ))
                        &&& prep.1 matches Work::WriteFingerprint { path, fingerprint }
                            && path@ == new_loc && fingerprint@ == fp
                        &&& prep.2 matches Work::Promote { pairs } && pairs@.map_values(
                            |p: (String, String)| (p.0@, p.1@),
                        ) == seq![
                            (old_loc, new_loc),
                            (
                                spec_join(
                                    cx.spec_layout(Kind::Target).old_native@,
                                    spec_pkg_dirname(pkg.id),
                                ),
                                spec_join(
                                    cx.spec_layout(Kind::Target).native@,
                                    spec_pkg_dirname(pkg.id),
                                ),
                            ),
                        ]
                    })
                },
                Err(e) => spec_pkg_fingerprint(cx.sources.sources@, *pkg) is None && e matches
                    CargoError::Internal { .. },
            }
        }),
{
    // The build script of a cross-compiled package may belong on the host;
    // the target disposition is kept here as the layout it historically used.
    let kind = Kind::Target;

    if pkg.get_build().len() == 0 {
        return Ok((Freshness::Fresh, Work::Noop, Work::Noop));
    }
    let (old, new) = dirs(cx, pkg, kind);
    let old_loc = join(old.as_str(), "build");
    let new_loc = join(new.as_str(), "build");

    let pkg_fp = match calculate_build_cmd_fingerprint(cx, pkg) {
        Ok(s) => s,
        Err(e) => {
            return Err(e);
        },
    };
    let mut data: Vec<u8> = Vec::new();
    append_frame(&mut data, pkg_fp.as_str().as_bytes());
    proof {
        assert(data@ =~= len_prefixed(encode_utf8(pkg_fp@)));
    }
    let new_fingerprint = mk_fingerprint(cx, data.as_slice());

    let fresh = is_fresh(fs, old_loc.as_str(), new_fingerprint.as_str());
    let layout = cx.layout(kind);
    let mut pairs: Vec<(String, String)> = Vec::new();
    pairs.push((old_loc, new_loc.clone()));
    pairs.push((layout.old_native(pkg), layout.native(pkg)));
    proof {
        let d = spec_dirs(*cx, *pkg, Kind::Target);
        assert(pairs@.map_values(|p: (String, String)| (p.0@, p.1@)) =~= seq![
            (spec_join(d.0, "build"@), spec_join(d.1, "build"@)),
            (
                spec_join(cx.spec_layout(Kind::Target).old_native@, spec_pkg_dirname(pkg.id)),
                spec_join(cx.spec_layout(Kind::Target).native@, spec_pkg_dirname(pkg.id)),
            ),
        ]);
    }
    Ok(prepare(fresh, new_loc, new_fingerprint, pairs))
}

/// Two identical, idempotent units of work that create the package's new
/// fingerprint directory, one scheduled before and one after the package's
/// jobs.
pub fn prepare_init<'a>(cx: &Context<'a>, pkg: &Package, kind: Kind) -> (r: (Work, Work))
    ensures
        r.0 matches Work::Mkdir { path } && path@ == spec_dirs(*cx, *pkg, kind).1,
        r.1 matches Work::Mkdir { path } && path@ == spec_dirs(*cx, *pkg, kind).1,
{
    let (_, new1) = dirs(cx, pkg, kind);
    let new2 = new1.clone();
    (Work::Mkdir { path: new1 }, Work::Mkdir { path: new2 })
}

/// A fresh target's fingerprint and dep-info promote sources exist: freshness
/// was decided by reading them, so a `Fresh` verdict proves the previous
/// build's fingerprint file, dep-info file and every recorded input present
/// in the snapshot. (The previous build's output artifacts are promoted too,
/// but freshness does not inspect them: deleting an artifact while keeping
/// the fingerprint files makes the promote step fail at the scheduler.)
pub proof fn lemma_fresh_promote_sources(
    files: Seq<(String, FileEntry)>,
    root: Seq<char>,
    old_fp: Seq<char>,
    fp: Seq<char>,
    old_di: Seq<char>,
)
    requires
        spec_is_fresh(files, old_fp, fp),
        spec_files_fresh(files, root, old_di),
    ensures
        spec_fs_lookup(files, old_fp) is Some,
        spec_fs_lookup(files, old_di) is Some,
        forall|i: int|
            0 <= i < spec_dep_inputs_of(files, old_di).len() ==> spec_fs_lookup(
                files,
                spec_join(root, #[trigger] spec_dep_inputs_of(files, old_di)[i]),
            ) is Some,
{
}

/// Doc subsumption, first half: a doc target's freshness is decided by its
/// fingerprint alone, never by dep-info.
pub proof fn lemma_doc_freshness_ignores_files<'a>(
    cx: Context<'a>,
    pkg: Package,
    target: Target,
    kind: Kind,
    files: Seq<(String, FileEntry)>,
)
    requires
        target.profile.doc,
    ensures
        spec_target_freshness(cx, pkg, target, kind, files) == (match spec_target_fp_data(
            cx,
            pkg,
            target,
        ) {
            Some(data) => spec_is_fresh(
                files,
                spec_join(spec_dirs(cx, pkg, kind).0, spec_filename(target)),
                spec_mk_fingerprint(cx.rustc_version@, data),
            ),
            None => false,
        }),
{
}

/// Doc subsumption, second half: a doc target's fingerprint input covers the
/// package's source fingerprint — two different source fingerprints give two
/// different hash inputs.
pub proof fn lemma_doc_data_covers_source(t: Target, s1: Seq<char>, s2: Seq<char>)
    requires
        encode_utf8(s1).len() < 0x1_0000_0000_0000_0000,
        encode_utf8(s2).len() < 0x1_0000_0000_0000_0000,
        s1 != s2,
    ensures
        spec_doc_data(t, s1) != spec_doc_data(t, s2),
{
    if spec_doc_data(t, s1) == spec_doc_data(t, s2) {
        let tb = spec_target_bytes(t);
        assert(len_prefixed(encode_utf8(s1)) =~= spec_doc_data(t, s1).subrange(
            tb.len() as int,
            spec_doc_data(t, s1).len() as int,
        ));
        assert(len_prefixed(encode_utf8(s2)) =~= spec_doc_data(t, s2).subrange(
            tb.len() as int,
            spec_doc_data(t, s2).len() as int,
        ));
        assert(len_prefixed(encode_utf8(s1)) + Seq::<u8>::empty() =~= len_prefixed(
            encode_utf8(s1),
        ));
        assert(len_prefixed(encode_utf8(s2)) + Seq::<u8>::empty() =~= len_prefixed(
            encode_utf8(s2),
        ));
        lemma_frame_injective(encode_utf8(s1), Seq::empty(), encode_utf8(s2), Seq::empty());
        vstd::utf8::encode_utf8_decode_utf8(s1);
        vstd::utf8::encode_utf8_decode_utf8(s2);
    }
}

/// A second build with nothing changed is fresh: when the stored fingerprint
/// file holds exactly the fingerprint this build computes and the dep-info
/// check passes, the target is `Fresh`.
pub proof fn lemma_unchanged_build_is_fresh<'a>(
    cx: Context<'a>,
    pkg: Package,
    target: Target,
    kind: Kind,
    files: Seq<(String, FileEntry)>,
    data: Seq<u8>,
)
    requires
        spec_target_fp_data(cx, pkg, target) == Some(data),
        spec_is_fresh(
            files,
            spec_join(spec_dirs(cx, pkg, kind).0, spec_filename(target)),
            spec_mk_fingerprint(cx.rustc_version@, data),
        ),
        target.profile.doc || spec_files_fresh(
            files,
            pkg.root@,
            spec_dep_info_loc(cx, pkg, target, kind).0,
        ),
    ensures
        spec_target_freshness(cx, pkg, target, kind, files),
{
}

/// Per-target granularity: adding or touching a file that is not the
/// target's own fingerprint file, dep-info file, or one of its recorded
/// inputs leaves the target's freshness unchanged. In particular a change to
/// another target's source does not invalidate this one.
pub proof fn lemma_freshness_frame<'a>(
    cx: Context<'a>,
    pkg: Package,
    target: Target,
    kind: Kind,
    files: Seq<(String, FileEntry)>,
    q: String,
    e: FileEntry,
)
    requires
        q@ != spec_join(spec_dirs(cx, pkg, kind).0, spec_filename(target)),
        q@ != spec_dep_info_loc(cx, pkg, target, kind).0,
        forall|i: int|
            0 <= i < spec_dep_inputs_of(
                files,
                spec_dep_info_loc(cx, pkg, target, kind).0,
            ).len() ==> q@ != spec_join(
                pkg.root@,
                #[trigger] spec_dep_inputs_of(files, spec_dep_info_loc(cx, pkg, target, kind).0)[i],
            ),
    ensures
        spec_target_freshness(cx, pkg, target, kind, files.push((q, e)))
            == spec_target_freshness(cx, pkg, target, kind, files),
{
    let old_fp = spec_join(spec_dirs(cx, pkg, kind).0, spec_filename(target));
    let old_di = spec_dep_info_loc(cx, pkg, target, kind).0;
    let files2 = files.push((q, e));
    crate::work::lemma_fs_lookup_push(files, q, e, old_fp);
    crate::work::lemma_fs_lookup_push(files, q, e, old_di);
    assert(spec_dep_inputs_of(files2, old_di) == spec_dep_inputs_of(files, old_di));
    let inputs = spec_dep_inputs_of(files, old_di);
    match spec_fs_lookup(files, old_di) {
        Some(entry) => {
            assert forall|i: int| 0 <= i < inputs.len() implies spec_fs_lookup(
                files2,
                spec_join(pkg.root@, #[trigger] inputs[i]),
            ) == spec_fs_lookup(files, spec_join(pkg.root@, inputs[i])) by {
                crate::work::lemma_fs_lookup_push(files, q, e, spec_join(pkg.root@, inputs[i]));
            }
            assert(spec_inputs_fresh(files2, pkg.root@, inputs, entry.mtime)
                == spec_inputs_fresh(files, pkg.root@, inputs, entry.mtime));
        },
        None => {},
    }
}

/// Fingerprint files of two same-named targets of one package never collide:
/// the test flavor prefixes the name.
pub proof fn lemma_filename_flavor_distinct(t1: Target, t2: Target)
    requires
        t1.name@ == t2.name@,
        t1.lib == t2.lib,
        t1.profile.test,
        !t2.profile.test,
        !t2.profile.doc,
    ensures
        spec_filename(t1) != spec_filename(t2),
{
    reveal_strlit("test-");
    reveal_strlit("");
    reveal_strlit("lib");
    reveal_strlit("bin");
    reveal_strlit("-");
    assert(spec_filename(t1).len() == spec_filename(t2).len() + 5);
}

} // verus!
