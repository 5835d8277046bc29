//! Platform requirements: the three-point lattice recording, for each
//! `(package, target-name)` pair, whether the pair must be built for the
//! target platform, for the build host (plugins), or both, together with the
//! map the requirement walk fills in.

use vstd::prelude::*;

use crate::package::{PackageId, id_eq};

verus! {

/// The reachability class of a `(package, target-name)` pair in the
/// requirements graph.
#[derive(Clone, Copy, Debug, PartialEq, Eq, Structural)]
pub enum PlatformRequirement {
    /// Reached only on paths built for the ultimate runtime target.
    Target,
    /// Reached only on paths serving a compiler plugin, run on the host.
    Plugin,
    /// Reached both ways.
    PluginAndTarget,
}

/// The lattice join: equal elements stay, unequal ones combine to
/// `PluginAndTarget`, which is absorbing.
pub open spec fn spec_combine(a: PlatformRequirement, b: PlatformRequirement) -> PlatformRequirement {
    match (a, b) {
        (PlatformRequirement::Target, PlatformRequirement::Target) => PlatformRequirement::Target,
        (PlatformRequirement::Plugin, PlatformRequirement::Plugin) => PlatformRequirement::Plugin,
        _ => PlatformRequirement::PluginAndTarget,
    }
}

/// The lattice order induced by `spec_combine`.
pub open spec fn req_le(a: PlatformRequirement, b: PlatformRequirement) -> bool {
    spec_combine(a, b) == b
}

impl PlatformRequirement {
    /// Combines two requirements for the same pair.
    pub fn combine(self, other: PlatformRequirement) -> (r: PlatformRequirement)
        ensures
            r == spec_combine(self, other),
    {
        match (self, other) {
            (PlatformRequirement::Target, PlatformRequirement::Target) => PlatformRequirement::Target,
            (PlatformRequirement::Plugin, PlatformRequirement::Plugin) => PlatformRequirement::Plugin,
            _ => PlatformRequirement::PluginAndTarget,
        }
    }
}

/// `spec_combine` is commutative.
pub proof fn lemma_combine_commutative(a: PlatformRequirement, b: PlatformRequirement)
    ensures
        spec_combine(a, b) == spec_combine(b, a),
{
}

/// `spec_combine` is associative.
pub proof fn lemma_combine_associative(
    a: PlatformRequirement,
    b: PlatformRequirement,
    c: PlatformRequirement,
)
    ensures
        spec_combine(spec_combine(a, b), c) == spec_combine(a, spec_combine(b, c)),
{
}

/// `spec_combine` is idempotent.
pub proof fn lemma_combine_idempotent(a: PlatformRequirement)
    ensures
        spec_combine(a, a) == a,
{
}

/// `spec_combine` is the least upper bound for `req_le`.
pub proof fn lemma_combine_is_join(a: PlatformRequirement, b: PlatformRequirement)
    ensures
        req_le(a, spec_combine(a, b)),
        req_le(b, spec_combine(a, b)),
        forall|c: PlatformRequirement|
            req_le(a, c) && req_le(b, c) ==> req_le(spec_combine(a, b), c),
{
}

/// The key under which a pair is recorded: the package identity's view and
/// the target name's view.
pub type PairKey = ((Seq<char>, Seq<char>, Seq<char>), Seq<char>);

/// The view key of a package identity.
pub open spec fn id_key(id: PackageId) -> (Seq<char>, Seq<char>, Seq<char>) {
    (id.name@, id.version@, id.source_id@)
}

/// The view key of a `(package, target-name)` pair.
pub open spec fn pair_key(id: PackageId, name: Seq<char>) -> PairKey {
    (id_key(id), name)
}

/// One recorded requirement.
pub struct ReqEntry {
    pub pkg: PackageId,
    pub name: String,
    pub req: PlatformRequirement,
}

/// The key of a recorded requirement.
pub open spec fn entry_key(e: ReqEntry) -> PairKey {
    pair_key(e.pkg, e.name@)
}

/// No two entries share a key.
pub open spec fn entries_wf(s: Seq<ReqEntry>) -> bool {
    forall|i: int, j: int|
        0 <= i < j < s.len() ==> #[trigger] entry_key(s[i]) != #[trigger] entry_key(s[j])
}

/// The map an entry list denotes.
pub open spec fn as_map(s: Seq<ReqEntry>) -> Map<PairKey, PlatformRequirement>
    decreases s.len(),
{
    if s.len() == 0 {
        Map::empty()
    } else {
        as_map(s.drop_last()).insert(entry_key(s.last()), s.last().req)
    }
}

/// A key is in the map exactly when some entry carries it.
pub proof fn lemma_as_map_contains(s: Seq<ReqEntry>, k: PairKey)
    ensures
        as_map(s).contains_key(k) <==> exists|i: int| 0 <= i < s.len() && entry_key(#[trigger] s[i]) == k,
    decreases s.len(),
{
    if s.len() > 0 {
        lemma_as_map_contains(s.drop_last(), k);
        if entry_key(s.last()) == k {
            assert(entry_key(s[s.len() - 1]) == k);
        } else {
            assert forall|i: int| 0 <= i < s.len() && entry_key(#[trigger] s[i]) == k implies
                as_map(s).contains_key(k) by {
                assert(s.drop_last()[i] == s[i]);
            }
        }
    }
}

/// With distinct keys, the map's value at an entry's key is that entry's
/// requirement.
pub proof fn lemma_as_map_value(s: Seq<ReqEntry>, i: int)
    requires
        entries_wf(s),
        0 <= i < s.len(),
    ensures
        as_map(s).contains_key(entry_key(s[i])),
        as_map(s)[entry_key(s[i])] == s[i].req,
    decreases s.len(),
{
    lemma_as_map_contains(s, entry_key(s[i]));
    if i < s.len() - 1 {
        assert(entries_wf(s.drop_last())) by {
            assert forall|x: int, y: int| 0 <= x < y < s.len() - 1 implies #[trigger] entry_key(
                s.drop_last()[x],
            ) != #[trigger] entry_key(s.drop_last()[y]) by {
                assert(s.drop_last()[x] == s[x]);
                assert(s.drop_last()[y] == s[y]);
            }
        }
        assert(s.drop_last()[i] == s[i]);
        lemma_as_map_value(s.drop_last(), i);
        assert(entry_key(s[i]) != entry_key(s[s.len() - 1]));
    }
}

/// One walk entry applied to the map: combine with the present value, or
/// record the new one.
pub open spec fn apply_one(
    m: Map<PairKey, PlatformRequirement>,
    k: PairKey,
    req: PlatformRequirement,
) -> Map<PairKey, PlatformRequirement> {
    if m.contains_key(k) {
        m.insert(k, spec_combine(m[k], req))
    } else {
        m.insert(k, req)
    }
}

/// A whole walk log applied in order.
pub open spec fn apply_log(
    m: Map<PairKey, PlatformRequirement>,
    log: Seq<(PairKey, PlatformRequirement)>,
) -> Map<PairKey, PlatformRequirement>
    decreases log.len(),
{
    if log.len() == 0 {
        m
    } else {
        apply_one(apply_log(m, log.drop_last()), log.last().0, log.last().1)
    }
}

/// Applying a concatenated log applies its parts in order.
pub proof fn lemma_apply_log_concat(
    m: Map<PairKey, PlatformRequirement>,
    a: Seq<(PairKey, PlatformRequirement)>,
    b: Seq<(PairKey, PlatformRequirement)>,
)
    ensures
        apply_log(m, a + b) == apply_log(apply_log(m, a), b),
    decreases b.len(),
{
    if b.len() == 0 {
        assert(a + b =~= a);
    } else {
        lemma_apply_log_concat(m, a, b.drop_last());
        assert((a + b).drop_last() =~= a + b.drop_last());
        assert((a + b).last() == b.last());
    }
}

/// The join of a non-empty sequence of requirements.
pub open spec fn join_seq(rs: Seq<PlatformRequirement>) -> PlatformRequirement
    recommends
        rs.len() > 0,
    decreases rs.len(),
{
    if rs.len() <= 1 {
        rs[0]
    } else {
        spec_combine(join_seq(rs.drop_last()), rs.last())
    }
}

/// The requirement a log records for a key.
pub open spec fn log_reqs_for(
    log: Seq<(PairKey, PlatformRequirement)>,
    k: PairKey,
) -> Seq<PlatformRequirement> {
    log.filter(|e: (PairKey, PlatformRequirement)| e.0 == k).map_values(
        |e: (PairKey, PlatformRequirement)| e.1,
    )
}

/// The requirement lattice law: a key stands in the map built from a walk log
/// exactly when the log entered it, and then with the lattice join of every
/// requirement the log entered it with.
pub proof fn lemma_apply_log_join(log: Seq<(PairKey, PlatformRequirement)>, k: PairKey)
    ensures
        apply_log(Map::empty(), log).contains_key(k) <==> log_reqs_for(log, k).len() > 0,
        apply_log(Map::empty(), log).contains_key(k) ==> apply_log(Map::empty(), log)[k]
            == join_seq(log_reqs_for(log, k)),
    decreases log.len(),
{
    let pred = |e: (PairKey, PlatformRequirement)| e.0 == k;
    let proj = |e: (PairKey, PlatformRequirement)| e.1;
    if log.len() == 0 {
        assert(log.filter(pred) =~= Seq::<(PairKey, PlatformRequirement)>::empty());
    } else {
        let prior = log.drop_last();
        lemma_apply_log_join(prior, k);
        Seq::filter_distributes_over_add(prior, seq![log.last()], pred);
        assert(prior + seq![log.last()] =~= log);
        reveal_with_fuel(Seq::filter, 2);
        assert(seq![log.last()].drop_last() =~= Seq::<(PairKey, PlatformRequirement)>::empty());
        if log.last().0 == k {
            assert(log.filter(pred) =~= prior.filter(pred).push(log.last()));
            assert(log_reqs_for(log, k) =~= log_reqs_for(prior, k).push(log.last().1));
            if log_reqs_for(prior, k).len() > 0 {
                assert(log_reqs_for(log, k).drop_last() =~= log_reqs_for(prior, k));
            } else {
                assert(log_reqs_for(log, k).len() == 1);
            }
        } else {
            assert(log.filter(pred) =~= prior.filter(pred));
            assert(log_reqs_for(log, k) =~= log_reqs_for(prior, k));
        }
    }
}

/// Every requirement a log entered a key with lies below the recorded join.
pub proof fn lemma_join_upper_bound(rs: Seq<PlatformRequirement>, i: int)
    requires
        0 <= i < rs.len(),
    ensures
        req_le(rs[i], join_seq(rs)),
    decreases rs.len(),
{
    if rs.len() > 1 && i < rs.len() - 1 {
        lemma_join_upper_bound(rs.drop_last(), i);
    }
}

/// A pair entered on a `Plugin` path and on a `Target` path is recorded as
/// `PluginAndTarget`.
pub proof fn lemma_plugin_and_target(rs: Seq<PlatformRequirement>, i: int, j: int)
    requires
        0 <= i < rs.len(),
        0 <= j < rs.len(),
        rs[i] == PlatformRequirement::Plugin,
        rs[j] == PlatformRequirement::Target,
    ensures
        join_seq(rs) == PlatformRequirement::PluginAndTarget,
{
    lemma_join_upper_bound(rs, i);
    lemma_join_upper_bound(rs, j);
}

/// Dropping a log's last entry drops at most the last recorded requirement
/// for a key.
proof fn lemma_log_reqs_step(log: Seq<(PairKey, PlatformRequirement)>, k: PairKey)
    requires
        log.len() > 0,
    ensures
        log.last().0 == k ==> log_reqs_for(log, k) == log_reqs_for(log.drop_last(), k).push(
            log.last().1,
        ),
        log.last().0 != k ==> log_reqs_for(log, k) == log_reqs_for(log.drop_last(), k),
{
    let pred = |e: (PairKey, PlatformRequirement)| e.0 == k;
    let prior = log.drop_last();
    Seq::filter_distributes_over_add(prior, seq![log.last()], pred);
    assert(prior + seq![log.last()] =~= log);
    reveal_with_fuel(Seq::filter, 2);
    assert(seq![log.last()].drop_last() =~= Seq::<(PairKey, PlatformRequirement)>::empty());
    if log.last().0 == k {
        assert(log.filter(pred) =~= prior.filter(pred).push(log.last()));
        assert(log_reqs_for(log, k) =~= log_reqs_for(prior, k).push(log.last().1));
    } else {
        assert(log.filter(pred) =~= prior.filter(pred));
        assert(log_reqs_for(log, k) =~= log_reqs_for(prior, k));
    }
}

/// Every requirement a log enters a key with stands among that key's recorded
/// requirements.
pub proof fn lemma_log_reqs_contains(log: Seq<(PairKey, PlatformRequirement)>, k: PairKey, i: int)
    requires
        0 <= i < log.len(),
        log[i].0 == k,
    ensures
        exists|x: int|
            0 <= x < log_reqs_for(log, k).len() && log_reqs_for(log, k)[x] == log[i].1,
    decreases log.len(),
{
    lemma_log_reqs_step(log, k);
    if i == log.len() - 1 {
        let rs = log_reqs_for(log, k);
        assert(rs[rs.len() - 1] == log[i].1);
    } else {
        assert(log.drop_last()[i] == log[i]);
        lemma_log_reqs_contains(log.drop_last(), k, i);
        let x = choose|x: int|
            0 <= x < log_reqs_for(log.drop_last(), k).len() && log_reqs_for(log.drop_last(), k)[x]
                == log[i].1;
        assert(log_reqs_for(log, k)[x] == log[i].1);
    }
}

/// A pair a walk entered both on a `Plugin` path and on a `Target` path is
/// recorded as `PluginAndTarget`.
pub proof fn lemma_both_paths_record_both(
    log: Seq<(PairKey, PlatformRequirement)>,
    k: PairKey,
    i: int,
    j: int,
)
    requires
        0 <= i < log.len(),
        0 <= j < log.len(),
        log[i] == (k, PlatformRequirement::Plugin),
        log[j] == (k, PlatformRequirement::Target),
    ensures
        apply_log(Map::empty(), log).contains_key(k),
        apply_log(Map::empty(), log)[k] == PlatformRequirement::PluginAndTarget,
{
    lemma_apply_log_join(log, k);
    let rs = log_reqs_for(log, k);
    lemma_log_reqs_contains(log, k, i);
    lemma_log_reqs_contains(log, k, j);
    let xi = choose|x: int| 0 <= x < rs.len() && rs[x] == log[i].1;
    let xj = choose|x: int| 0 <= x < rs.len() && rs[x] == log[j].1;
    lemma_plugin_and_target(rs, xi, xj);
}

/// The requirements recorded so far, keyed by `(package, target-name)`.
pub struct RequirementsMap {
    pub entries: Vec<ReqEntry>,
}

impl RequirementsMap {
    /// The map the entries denote.
    pub open spec fn view_map(&self) -> Map<PairKey, PlatformRequirement> {
        as_map(self.entries@)
    }

    /// No two entries share a key.
    pub open spec fn wf(&self) -> bool {
        entries_wf(self.entries@)
    }

    /// An empty map.
    pub fn new() -> (r: RequirementsMap)
        ensures
            r.wf(),
            r.view_map() == Map::<PairKey, PlatformRequirement>::empty(),
            r.entries@.len() == 0,
    {
        RequirementsMap { entries: Vec::new() }
    }

    /// The number of recorded pairs.
    pub fn len(&self) -> (r: usize)
        requires
            self.wf(),
        ensures
            r == self.entries@.len(),
            r == self.view_map().dom().len(),
    {
        proof {
            lemma_wf_len(self.entries@);
        }
        self.entries.len()
    }

    /// The requirement recorded for a pair, if any.
    pub fn get(&self, id: &PackageId, name: &str) -> (r: Option<PlatformRequirement>)
        requires
            self.wf(),
        ensures
            match r {
                Some(v) => self.view_map().contains_key(pair_key(*id, name@))
                    && self.view_map()[pair_key(*id, name@)] == v,
                None => !self.view_map().contains_key(pair_key(*id, name@)),
            },
    {
        let ghost k = pair_key(*id, name@);
        let n = self.entries.len();
        let mut i: usize = 0;
        while i < n
            invariant
                0 <= i <= n,
                n == self.entries@.len(),
                entries_wf(self.entries@),
                k == pair_key(*id, name@),
                forall|j: int| 0 <= j < i ==> entry_key(#[trigger] self.entries@[j]) != k,
            decreases n - i,
        {
            let e = &self.entries[i];
            if e.pkg.eq_id(id) && crate::strutil::str_eq(e.name.as_str(), name) {
                proof {
                    assert(entry_key(self.entries@[i as int]) == k);
                    lemma_as_map_value(self.entries@, i as int);
                }
                return Some(e.req);
            }
            i += 1;
        }
        proof {
            lemma_as_map_contains(self.entries@, k);
        }
        None
    }

    /// Records `req` for the pair, combining with any present value.
    pub fn insert_or_combine(&mut self, id: PackageId, name: String, req: PlatformRequirement)
        requires
            old(self).wf(),
        ensures
            final(self).wf(),
            final(self).view_map() == apply_one(old(self).view_map(), pair_key(id, name@), req),
    {
        let ghost k = pair_key(id, name@);
        let ghost s0 = self.entries@;
        let n = self.entries.len();
        let mut i: usize = 0;
        while i < n
            invariant
                0 <= i <= n,
                n == self.entries@.len(),
                self.entries@ == s0,
                s0 == old(self).entries@,
                entries_wf(s0),
                k == pair_key(id, name@),
                forall|j: int| 0 <= j < i ==> entry_key(#[trigger] self.entries@[j]) != k,
            decreases n - i,
        {
            let hit = {
                let e = &self.entries[i];
                e.pkg.eq_id(&id) && crate::strutil::str_eq(e.name.as_str(), name.as_str())
            };
            if hit {
                proof {
                    assert(entry_key(s0[i as int]) == k);
                    lemma_as_map_value(s0, i as int);
                }
                let e = self.entries.remove(i);
                let combined = e.req.combine(req);
                self.entries.push(ReqEntry { pkg: e.pkg, name: e.name, req: combined });
                proof {
                    lemma_update_entry(s0, i as int, self.entries@, req);
                }
                return ;
            }
            i += 1;
        }
        proof {
            lemma_as_map_contains(s0, k);
        }
        self.entries.push(ReqEntry { pkg: id, name, req });
        proof {
            assert(self.entries@.drop_last() =~= s0);
            assert(entries_wf(self.entries@)) by {
                assert forall|x: int, y: int|
                    0 <= x < y < self.entries@.len() implies #[trigger] entry_key(
                    self.entries@[x],
                ) != #[trigger] entry_key(self.entries@[y]) by {
                    if y < self.entries@.len() - 1 {
                        assert(self.entries@[x] == s0[x]);
                        assert(self.entries@[y] == s0[y]);
                    } else {
                        assert(self.entries@[x] == s0[x]);
                        assert(entry_key(self.entries@[y]) == k);
                    }
                }
            }
        }
    }
}

/// With distinct keys, the map has exactly one key per entry.
proof fn lemma_wf_len(s: Seq<ReqEntry>)
    requires
        entries_wf(s),
    ensures
        as_map(s).dom().len() == s.len(),
        as_map(s).dom().finite(),
    decreases s.len(),
{
    if s.len() > 0 {
        assert(entries_wf(s.drop_last())) by {
            assert forall|x: int, y: int| 0 <= x < y < s.len() - 1 implies #[trigger] entry_key(
                s.drop_last()[x],
            ) != #[trigger] entry_key(s.drop_last()[y]) by {
                assert(s.drop_last()[x] == s[x]);
                assert(s.drop_last()[y] == s[y]);
            }
        }
        lemma_wf_len(s.drop_last());
        lemma_as_map_contains(s.drop_last(), entry_key(s.last()));
        assert(forall|i: int|
            0 <= i < s.len() - 1 ==> entry_key(#[trigger] s.drop_last()[i]) == entry_key(s[i]));
        assert(!as_map(s.drop_last()).contains_key(entry_key(s.last()))) by {
            assert forall|i: int| 0 <= i < s.len() - 1 implies entry_key(#[trigger] s.drop_last()[i])
                != entry_key(s.last()) by {
                assert(s.drop_last()[i] == s[i]);
                assert(entry_key(s[i]) != entry_key(s[s.len() - 1]));
            }
        }
    }
}

/// Replacing the unique entry holding a key by a combined entry at the end
/// denotes `apply_one` of the original map.
proof fn lemma_update_entry(
    s0: Seq<ReqEntry>,
    i: int,
    s1: Seq<ReqEntry>,
    req: PlatformRequirement,
)
    requires
        entries_wf(s0),
        0 <= i < s0.len(),
        s1 == s0.remove(i).push(
            ReqEntry {
                pkg: s0[i].pkg,
                name: s0[i].name,
                req: spec_combine(s0[i].req, req),
            },
        ),
    ensures
        entries_wf(s1),
        as_map(s1) == apply_one(as_map(s0), entry_key(s0[i]), req),
{
    let k = entry_key(s0[i]);
    let rem = s0.remove(i);
    let newe = ReqEntry { pkg: s0[i].pkg, name: s0[i].name, req: spec_combine(s0[i].req, req) };
    assert(entry_key(newe) == k);
    // removal keeps keys distinct and drops exactly the one key
    assert(entries_wf(rem)) by {
        assert forall|x: int, y: int| 0 <= x < y < rem.len() implies #[trigger] entry_key(rem[x])
            != #[trigger] entry_key(rem[y]) by {
            let x0 = if x < i {
                x
            } else {
                x + 1
            };
            let y0 = if y < i {
                y
            } else {
                y + 1
            };
            assert(rem[x] == s0[x0]);
            assert(rem[y] == s0[y0]);
        }
    }
    assert(forall|x: int| 0 <= x < rem.len() ==> entry_key(#[trigger] rem[x]) != k) by {
        assert forall|x: int| 0 <= x < rem.len() implies entry_key(#[trigger] rem[x]) != k by {
            let x0 = if x < i {
                x
            } else {
                x + 1
            };
            assert(rem[x] == s0[x0]);
            assert(entry_key(s0[x0]) != entry_key(s0[i]));
        }
    }
    assert(entries_wf(s1)) by {
        assert forall|x: int, y: int| 0 <= x < y < s1.len() implies #[trigger] entry_key(s1[x])
            != #[trigger] entry_key(s1[y]) by {
            if y < s1.len() - 1 {
                assert(s1[x] == rem[x]);
                assert(s1[y] == rem[y]);
            } else {
                assert(s1[x] == rem[x]);
                assert(entry_key(s1[y]) == k);
            }
        }
    }
    lemma_as_map_value(s0, i);
    // both sides agree pointwise
    let lhs = as_map(s1);
    let rhs = apply_one(as_map(s0), k, req);
    assert(s1.drop_last() =~= rem);
    assert(lhs == as_map(rem).insert(k, spec_combine(s0[i].req, req)));
    assert forall|k2: PairKey| lhs.contains_key(k2) <==> rhs.contains_key(k2) by {
        lemma_as_map_contains(rem, k2);
        lemma_as_map_contains(s0, k2);
        if k2 != k {
            if exists|x: int| 0 <= x < rem.len() && entry_key(#[trigger] rem[x]) == k2 {
                let x = choose|x: int| 0 <= x < rem.len() && entry_key(#[trigger] rem[x]) == k2;
                let x0 = if x < i {
                    x
                } else {
                    x + 1
                };
                assert(rem[x] == s0[x0]);
            }
            if exists|x: int| 0 <= x < s0.len() && entry_key(#[trigger] s0[x]) == k2 {
                let x0 = choose|x: int| 0 <= x < s0.len() && entry_key(#[trigger] s0[x]) == k2;
                let x = if x0 < i {
                    x0
                } else {
                    x0 - 1
                };
                assert(x0 != i);
                assert(rem[x] == s0[x0]);
            }
        }
    }
    assert forall|k2: PairKey| lhs.contains_key(k2) implies lhs[k2] == rhs[k2] by {
        if k2 != k {
            lemma_as_map_contains(rem, k2);
            let x = choose|x: int| 0 <= x < rem.len() && entry_key(#[trigger] rem[x]) == k2;
            lemma_as_map_value(rem, x);
            let x0 = if x < i {
                x
            } else {
                x + 1
            };
            assert(rem[x] == s0[x0]);
            lemma_as_map_value(s0, x0);
        }
    }
    assert(lhs =~= rhs);
}

} // verus!
