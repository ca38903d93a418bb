//! Packages that every dependent of a package also depends on.
use std::collections::HashMap;
use std::collections::HashSet;
use std::sync::Arc;
use vstd::prelude::*;

use crate::pkg_ids::PkgId;

verus! {

broadcast use vstd::seq_lib::group_seq_properties;

/// A dependency map as mathematical sets: package to the packages it pulls in.
pub open spec fn deps_view(map: HashMap<PkgId, HashSet<PkgId>>) -> Map<PkgId, Set<PkgId>> {
    map@.map_values(|s: HashSet<PkgId>| s@)
}

/// Some dependency set of `deps` contains `bin`.
pub open spec fn is_needed(deps: Map<PkgId, Set<PkgId>>, bin: PkgId) -> bool {
    exists|k: PkgId| deps.contains_key(k) && #[trigger] deps[k].contains(bin)
}

/// The packages other than `bin` found in every dependency set that contains
/// `bin`.
pub open spec fn common_codeps(deps: Map<PkgId, Set<PkgId>>, bin: PkgId) -> Set<PkgId> {
    Set::new(
        |x: PkgId|
            x != bin && forall|k: PkgId|
                deps.contains_key(k) && #[trigger] deps[k].contains(bin) ==> deps[k].contains(x),
    )
}

/// `None` when nothing depends on `bin`, else the packages that everything
/// depending on `bin` also depends on.
pub open spec fn dominators(deps: Map<PkgId, Set<PkgId>>, bin: PkgId) -> Option<Set<PkgId>> {
    if is_needed(deps, bin) {
        Some(common_codeps(deps, bin))
    } else {
        None
    }
}

/// Every package that some dependency set contains.
pub open spec fn needed_packages(deps: Map<PkgId, Set<PkgId>>) -> Set<PkgId> {
    Set::new(|x: PkgId| is_needed(deps, x))
}

/// The dominators of `bin` leave `bin` out, and each of them is a dependency
/// of everything that depends on `bin`.
pub proof fn law_dominators_are_shared(deps: Map<PkgId, Set<PkgId>>, bin: PkgId, k: PkgId)
    requires
        deps.contains_key(k),
        deps[k].contains(bin),
    ensures
        dominators(deps, bin) matches Some(s) && !s.contains(bin) && s.subset_of(deps[k]),
{
}

/// Every package that something depends on has dominators.
pub proof fn law_needed_packages_have_dominators(deps: Map<PkgId, Set<PkgId>>, bin: PkgId)
    requires
        needed_packages(deps).contains(bin),
    ensures
        dominators(deps, bin) is Some,
{
}

/// Some set of `sets` contains `bin`.
spec fn seq_needed(sets: Seq<HashSet<PkgId>>, bin: PkgId) -> bool {
    exists|j: int| 0 <= j < sets.len() && #[trigger] sets[j]@.contains(bin)
}

/// The packages other than `bin` in every set of `sets` that contains `bin`.
spec fn seq_common(sets: Seq<HashSet<PkgId>>, bin: PkgId) -> Set<PkgId> {
    Set::new(
        |x: PkgId|
            x != bin && forall|j: int|
                0 <= j < sets.len() && #[trigger] sets[j]@.contains(bin) ==> sets[j]@.contains(x),
    )
}

/// Extending the walk by a set that contains `bin`.
proof fn lemma_common_push(before: Seq<HashSet<PkgId>>, d: HashSet<PkgId>, bin: PkgId)
    requires
        d@.contains(bin),
    ensures
        seq_needed(before.push(d), bin),
        seq_needed(before, bin) ==> seq_common(before.push(d), bin) == seq_common(
            before,
            bin,
        ).intersect(d@),
        !seq_needed(before, bin) ==> seq_common(before.push(d), bin) == d@.remove(bin),
{
    let after = before.push(d);
    assert(after[before.len() as int] == d);
    assert forall|x: PkgId| #[trigger] seq_common(after, bin).contains(x) implies x != bin
        && d@.contains(x) && seq_common(before, bin).contains(x) by {
        assert forall|j: int| 0 <= j < before.len() && #[trigger] before[j]@.contains(bin) implies before[j]@.contains(x) by {
            assert(after[j] == before[j]);
        }
    }
    assert forall|x: PkgId|
        x != bin && d@.contains(x) && #[trigger] seq_common(before, bin).contains(x) implies seq_common(
        after,
        bin,
    ).contains(x) by {
        assert forall|j: int| 0 <= j < after.len() && #[trigger] after[j]@.contains(bin) implies after[j]@.contains(x) by {
            if j < before.len() {
                assert(after[j] == before[j]);
            }
        }
    }
    if seq_needed(before, bin) {
        assert(seq_common(after, bin) =~= seq_common(before, bin).intersect(d@));
    } else {
        assert forall|x: PkgId| x != bin && d@.contains(x) implies #[trigger] seq_common(before, bin).contains(x) by {
            assert forall|j: int| 0 <= j < before.len() && #[trigger] before[j]@.contains(bin) implies before[j]@.contains(x) by {
            }
        }
        assert(seq_common(after, bin) =~= d@.remove(bin));
    }
}

/// Walking all the values of a map in some order decides the same as the
/// map itself.
proof fn lemma_walk_covers_map(
    sets: Seq<HashSet<PkgId>>,
    map: Map<PkgId, HashSet<PkgId>>,
    bin: PkgId,
)
    requires
        sets.to_set() == map.values(),
    ensures
        seq_needed(sets, bin) == is_needed(map.map_values(|s: HashSet<PkgId>| s@), bin),
        seq_common(sets, bin) == common_codeps(map.map_values(|s: HashSet<PkgId>| s@), bin),
{
    let deps = map.map_values(|s: HashSet<PkgId>| s@);
    assert forall|k: PkgId| #[trigger] map.contains_key(k) implies exists|j: int|
        0 <= j < sets.len() && #[trigger] sets[j] == map[k] by {
        assert(map.values().contains(map[k]));
        assert(sets.to_set().contains(map[k]));
    }
    assert forall|j: int| #![trigger sets[j]] 0 <= j < sets.len() implies exists|k: PkgId|
        map.contains_key(k) && #[trigger] map[k] == sets[j] by {
        assert(sets.to_set().contains(sets[j]));
        assert(map.values().contains(sets[j]));
    }
    if seq_needed(sets, bin) {
        let j = choose|j: int| 0 <= j < sets.len() && #[trigger] sets[j]@.contains(bin);
        let k = choose|k: PkgId| map.contains_key(k) && #[trigger] map[k] == sets[j];
        assert(deps.contains_key(k) && deps[k].contains(bin));
    }
    if is_needed(deps, bin) {
        let k = choose|k: PkgId| deps.contains_key(k) && #[trigger] deps[k].contains(bin);
        let j = choose|j: int| 0 <= j < sets.len() && sets[j] == map[k];
        assert(sets[j]@.contains(bin));
    }
    assert forall|x: PkgId| seq_common(sets, bin).contains(x) implies common_codeps(
        deps,
        bin,
    ).contains(x) by {
        assert forall|k: PkgId| deps.contains_key(k) && #[trigger] deps[k].contains(bin) implies deps[k].contains(x) by {
            let j = choose|j: int| 0 <= j < sets.len() && sets[j] == map[k];
            assert(sets[j]@.contains(bin));
        }
    }
    assert forall|x: PkgId| common_codeps(deps, bin).contains(x) implies seq_common(
        sets,
        bin,
    ).contains(x) by {
        assert forall|j: int| 0 <= j < sets.len() && #[trigger] sets[j]@.contains(bin) implies sets[j]@.contains(x) by {
            let k = choose|k: PkgId| map.contains_key(k) && #[trigger] map[k] == sets[j];
            assert(deps.contains_key(k) && deps[k].contains(bin));
        }
    }
    assert(seq_common(sets, bin) =~= common_codeps(deps, bin));
}

/// `set` without `bin`.
fn without(set: &HashSet<PkgId>, bin: PkgId) -> (r: HashSet<PkgId>)
    ensures
        r@ == set@.remove(bin),
{
    let mut r: HashSet<PkgId> = HashSet::new();
    for x in it: set.iter()
        invariant
            it.seq().unref().to_set() == set@,
            r@ == it.seq().unref().take(it.index()).to_set().remove(bin),
            it.index() == it.seq().len() ==> r@ == set@.remove(bin),
    {
        let ghost before = it.seq().unref().take(it.index());
        assert(it.seq().unref().take(it.index() + 1) =~= before.push(*x));
        assert(before.push(*x).to_set() =~= before.to_set().insert(*x));
        if *x != bin {
            r.insert(*x);
        }
        assert(r@ =~= before.push(*x).to_set().remove(bin));
        assert(it.index() + 1 == it.seq().len() ==> it.seq().unref().take(it.index() + 1)
            =~= it.seq().unref());
    }
    r
}

/// The packages that everything depending on `bin` also depends on, or
/// `None` when nothing in `map` depends on `bin`.
pub fn find_dominators(bin: PkgId, map: Arc<HashMap<PkgId, HashSet<PkgId>>>) -> (r: Option<
    HashSet<PkgId>,
>)
    ensures
        match r {
            None => dominators(deps_view(*map), bin) is None,
            Some(s) => dominators(deps_view(*map), bin) == Some(s@),
        },
{
    let mut found: Option<HashSet<PkgId>> = None;
    let m: &HashMap<PkgId, HashSet<PkgId>> = &*map;
    for deps in it: m.values()
        invariant
            it.seq().unref().to_set() == m@.values(),
            found is None <==> !seq_needed(it.seq().unref().take(it.index()), bin),
            found matches Some(f) ==> f@ == seq_common(it.seq().unref().take(it.index()), bin),
            it.index() == it.seq().len() ==> match found {
                None => dominators(deps_view(*m), bin) is None,
                Some(f) => dominators(deps_view(*m), bin) == Some(f@),
            },
    {
        let ghost before = it.seq().unref().take(it.index());
        let ghost after = it.seq().unref().take(it.index() + 1);
        assert(after =~= before.push(*deps));
        if !deps.contains(&bin) {
            assert(seq_needed(after, bin) == seq_needed(before, bin));
            assert(seq_common(after, bin) =~= seq_common(before, bin));
        } else {
            proof {
                lemma_common_push(before, *deps, bin);
            }
            match found {
                Some(so_far) => {
                    let next = intersect(&so_far, deps);
                    found = Some(next);
                },
                None => {
                    let initial = without(deps, bin);
                    found = Some(initial);
                },
            }
        }
        proof {
            assert(it.index() + 1 == it.seq().len() ==> after =~= it.seq().unref());
            lemma_walk_covers_map(it.seq().unref(), m@, bin);
        }
    }
    found
}

/// Every package that some dependency set of `map` contains.
pub fn all_bins(map: &HashMap<PkgId, HashSet<PkgId>>) -> (r: HashSet<PkgId>)
    ensures
        r@ == needed_packages(deps_view(*map)),
{
    let mut r: HashSet<PkgId> = HashSet::new();
    for bins in it: map.values()
        invariant
            it.seq().unref().to_set() == map@.values(),
            forall|x: PkgId|
                #[trigger] r@.contains(x) <==> seq_needed(it.seq().unref().take(it.index()), x),
            it.index() == it.seq().len() ==> r@ == needed_packages(deps_view(*map)),
    {
        let ghost done = it.seq().unref().take(it.index());
        let ghost upto = it.seq().unref().take(it.index() + 1);
        assert(upto =~= done.push(*bins));
        for bin in inner: bins.iter()
            invariant
                inner.seq().unref().to_set() == bins@,
                forall|x: PkgId|
                    #[trigger] r@.contains(x) <==> seq_needed(done, x) || inner.seq().unref().take(
                        inner.index(),
                    ).contains(x),
                inner.index() == inner.seq().len() ==> forall|x: PkgId|
                    #[trigger] r@.contains(x) <==> seq_needed(done, x) || bins@.contains(x),
        {
            r.insert(*bin);
            let ghost seen = inner.seq().unref().take(inner.index());
            assert(inner.seq().unref().take(inner.index() + 1) =~= seen.push(*bin));
            assert(inner.index() + 1 == inner.seq().len() ==> inner.seq().unref().take(
                inner.index() + 1,
            ) =~= inner.seq().unref());
        }
        proof {
            assert forall|x: PkgId| #[trigger] r@.contains(x) <==> seq_needed(upto, x) by {
                assert(upto[done.len() as int] == *bins);
                if seq_needed(done, x) {
                    let j = choose|j: int| 0 <= j < done.len() && #[trigger] done[j]@.contains(x);
                    assert(upto[j] == done[j]);
                }
                if seq_needed(upto, x) && !bins@.contains(x) {
                    let j = choose|j: int| 0 <= j < upto.len() && #[trigger] upto[j]@.contains(x);
                    assert(done[j] == upto[j]);
                }
            }
            assert(it.index() + 1 == it.seq().len() ==> upto =~= it.seq().unref());
            assert forall|x: PkgId| it.index() + 1 == it.seq().len() implies seq_needed(upto, x)
                == #[trigger] is_needed(deps_view(*map), x) by {
                lemma_walk_covers_map(it.seq().unref(), map@, x);
            }
            assert(it.index() + 1 == it.seq().len() ==> r@ =~= needed_packages(deps_view(*map)));
        }
    }
    r
}

/// The report line for `bin`: its name and the names of its dominators, given
/// only when it has fewer than ten dominators.  The names come in the order in
/// which the set hands its members out.
pub fn dominator_report(names: &HashMap<PkgId, String>, bin: PkgId, deps: &HashSet<PkgId>) -> (r:
    Option<(String, Vec<String>)>)
    requires
        names@.contains_key(bin),
        forall|id: PkgId| #[trigger] deps@.contains(id) ==> names@.contains_key(id),
    ensures
        r is Some <==> deps@.len() < 10,
        r matches Some(line) ==> {
            &&& line.0@ == names@[bin]@
            &&& exists|ids: Seq<PkgId>|
                {
                    &&& ids.no_duplicates()
                    &&& ids.to_set() == deps@
                    &&& line.1@.len() == ids.len()
                    &&& forall|i: int| 0 <= i < ids.len() ==> #[trigger] line.1@[i]@ == names@[ids[i]]@
                }
        },
{
    if deps.len() >= 10 {
        return None;
    }
    let mut list: Vec<String> = Vec::new();
    for id in it: deps.iter()
        invariant
            it.seq().unref().to_set() == deps@,
            it.seq().unref().no_duplicates(),
            forall|id: PkgId| #[trigger] deps@.contains(id) ==> names@.contains_key(id),
            list@.len() == it.index(),
            forall|i: int|
                0 <= i < it.index() ==> #[trigger] list@[i]@ == names@[it.seq().unref()[i]]@,
            it.index() == it.seq().len() ==> exists|ids: Seq<PkgId>|
                {
                    &&& ids.no_duplicates()
                    &&& ids.to_set() == deps@
                    &&& list@.len() == ids.len()
                    &&& forall|i: int| 0 <= i < ids.len() ==> #[trigger] list@[i]@ == names@[ids[i]]@
                },
    {
        assert(it.seq().unref().to_set().contains(*id));
        let name = names.get(id).unwrap().clone();
        list.push(name);
        assert(it.index() + 1 == it.seq().len() ==> {
            let ids = it.seq().unref();
            &&& ids.no_duplicates()
            &&& ids.to_set() == deps@
            &&& list@.len() == ids.len()
            &&& forall|i: int| 0 <= i < ids.len() ==> #[trigger] list@[i]@ == names@[ids[i]]@
        });
    }
    let head = names.get(&bin).unwrap().clone();
    Some((head, list))
}

/// The members of `set` that `other` also holds.
fn intersect(set: &HashSet<PkgId>, other: &HashSet<PkgId>) -> (r: HashSet<PkgId>)
    ensures
        r@ == set@.intersect(other@),
{
    let mut r: HashSet<PkgId> = HashSet::new();
    for x in it: set.iter()
        invariant
            it.seq().unref().to_set() == set@,
            r@ == it.seq().unref().take(it.index()).to_set().intersect(other@),
            it.index() == it.seq().len() ==> r@ == set@.intersect(other@),
    {
        let ghost before = it.seq().unref().take(it.index());
        assert(it.seq().unref().take(it.index() + 1) =~= before.push(*x));
        assert(before.push(*x).to_set() =~= before.to_set().insert(*x));
        if other.contains(x) {
            r.insert(*x);
        }
        assert(r@ =~= before.push(*x).to_set().intersect(other@));
        assert(it.index() + 1 == it.seq().len() ==> it.seq().unref().take(it.index() + 1)
            =~= it.seq().unref());
    }
    r
}

} // verus!
