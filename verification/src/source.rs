//! Sources of packages, seen through the only contract the core needs: each
//! source can state a fingerprint for each of its packages, an opaque string
//! of which only equality matters. The driver computes those strings
//! (a registry source hashes its tarball, a path source its files, a git
//! source pins its revision) and hands them in as plain values.

use vstd::prelude::*;

use crate::errors::{internal, CargoError, CargoResult};
use crate::package::{id_eq, Package, PackageId};
use crate::strutil::str_eq;

verus! {

/// One source of packages: its identifier and the source fingerprint of each
/// package it produced.
pub struct Source {
    pub id: String,
    pub fingerprints: Vec<(PackageId, String)>,
}

/// The fingerprint recorded for `id`, if any.
pub open spec fn spec_fp_lookup(fps: Seq<(PackageId, String)>, id: PackageId) -> Option<Seq<char>>
    decreases fps.len(),
{
    if fps.len() == 0 {
        None
    } else if id_eq(fps[0].0, id) {
        Some(fps[0].1@)
    } else {
        spec_fp_lookup(fps.drop_first(), id)
    }
}

impl Source {
    /// The source fingerprint of `pkg`: an opaque string with equality
    /// semantics only. Errs when this source has no record of the package.
    pub fn fingerprint(&self, pkg: &Package) -> (r: CargoResult<String>)
        ensures
            match r {
                Ok(s) => spec_fp_lookup(self.fingerprints@, pkg.id) == Some(s@),
                Err(e) => spec_fp_lookup(self.fingerprints@, pkg.id) is None && (e matches
                    CargoError::Internal { desc } && desc@
                    == "source has no fingerprint for the package"@),
            },
    {
        let n = self.fingerprints.len();
        let mut i: usize = 0;
        proof {
            assert(self.fingerprints@.subrange(0, n as int) =~= self.fingerprints@);
        }
        while i < n
            invariant
                0 <= i <= n,
                n == self.fingerprints@.len(),
                spec_fp_lookup(self.fingerprints@.subrange(i as int, n as int), pkg.id)
                    == spec_fp_lookup(self.fingerprints@, pkg.id),
            decreases n - i,
        {
            let ghost pre = self.fingerprints@.subrange(i as int, n as int);
            if self.fingerprints[i].0.eq_id(&pkg.id) {
                proof {
                    assert(pre[0] == self.fingerprints@[i as int]);
                }
                return Ok(self.fingerprints[i].1.clone());
            }
            proof {
                assert(pre.drop_first() =~= self.fingerprints@.subrange(i + 1, n as int));
            }
            i += 1;
        }
        proof {
            assert(self.fingerprints@.subrange(n as int, n as int) =~= Seq::<
                (PackageId, String),
            >::empty());
        }
        Err(internal("source has no fingerprint for the package".to_owned()))
    }
}

/// The sources taking part in the build, found by source identifier.
pub struct SourceMap {
    pub sources: Vec<Source>,
}

/// The source registered under `sid`, if any.
pub open spec fn spec_find_source(sources: Seq<Source>, sid: Seq<char>) -> Option<Source>
    decreases sources.len(),
{
    if sources.len() == 0 {
        None
    } else if sources[0].id@ == sid {
        Some(sources[0])
    } else {
        spec_find_source(sources.drop_first(), sid)
    }
}

impl SourceMap {
    /// Finds the source registered under `sid`.
    pub fn get(&self, sid: &str) -> (r: Option<&Source>)
        ensures
            match r {
                Some(s) => spec_find_source(self.sources@, sid@) == Some(*s),
                None => spec_find_source(self.sources@, sid@) is None,
            },
    {
        let n = self.sources.len();
        let mut i: usize = 0;
        proof {
            assert(self.sources@.subrange(0, n as int) =~= self.sources@);
        }
        while i < n
            invariant
                0 <= i <= n,
                n == self.sources@.len(),
                spec_find_source(self.sources@.subrange(i as int, n as int), sid@)
                    == spec_find_source(self.sources@, sid@),
            decreases n - i,
        {
            let ghost pre = self.sources@.subrange(i as int, n as int);
            if str_eq(self.sources[i].id.as_str(), sid) {
                proof {
                    assert(pre[0] == self.sources@[i as int]);
                }
                return Some(&self.sources[i]);
            }
            proof {
                assert(pre.drop_first() =~= self.sources@.subrange(i + 1, n as int));
            }
            i += 1;
        }
        proof {
            assert(self.sources@.subrange(n as int, n as int) =~= Seq::<Source>::empty());
        }
        None
    }
}

} // verus!
