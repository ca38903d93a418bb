//! What the dose-distcheck digest prints: the packages that every source
//! package depends on (and those left out on purpose), then each source
//! package with the rest of its dependencies, everything in sorted order.
use vstd::prelude::*;

use crate::names::{texts, NameSet, PackageTable};

verus! {

broadcast use vstd::seq_lib::group_seq_properties;

/// `a` comes no later than `b` in the order of their characters' code points.
pub open spec fn text_le(a: Seq<char>, b: Seq<char>) -> bool
    decreases a.len(),
{
    if a.len() == 0 {
        true
    } else if b.len() == 0 {
        false
    } else if a[0] != b[0] {
        (a[0] as int) < (b[0] as int)
    } else {
        text_le(a.drop_first(), b.drop_first())
    }
}

/// The texts come in non-decreasing order.
pub open spec fn sorted_texts(s: Seq<Seq<char>>) -> bool {
    forall|i: int, j: int| 0 <= i < j < s.len() ==> text_le(#[trigger] s[i], #[trigger] s[j])
}

/// Sorts the strings in ascending order.
///
/// Calls `slice::sort`, which orders `String`s by `Ord`: byte-wise
/// lexicographic on their UTF-8 encoding, which is the lexicographic order of
/// their characters' code points.  The contract claims that the result holds
/// the same strings, each as often, in that order.
#[verifier::external_body]
fn sort_texts(v: &mut Vec<String>)
    ensures
        texts(final(v)@).to_multiset() == texts(old(v)@).to_multiset(),
        sorted_texts(texts(final(v)@)),
{
    v.sort();
}

/// The names in every list of the table.
pub open spec fn common_names(packages: Map<Seq<char>, Seq<Seq<char>>>) -> Set<Seq<char>> {
    Set::new(
        |x: Seq<char>|
            forall|k: Seq<char>| #[trigger] packages.contains_key(k) ==> packages[k].contains(x),
    )
}

/// The packages that need no listing of their own: those in every list, and
/// those left out on purpose.
pub open spec fn essential_names(
    packages: Map<Seq<char>, Seq<Seq<char>>>,
    ignored: Seq<Seq<char>>,
) -> Set<Seq<char>> {
    common_names(packages).union(ignored.to_set())
}

/// `s` with the first occurrence of each member of `drop` taken out, where
/// the members of `removed` have already been taken out before `s`.
pub open spec fn without_firsts(s: Seq<Seq<char>>, drop: Set<Seq<char>>, removed: Set<Seq<char>>) -> Seq<
    Seq<char>,
>
    decreases s.len(),
{
    if s.len() == 0 {
        s
    } else if drop.contains(s[0]) && !removed.contains(s[0]) {
        without_firsts(s.drop_first(), drop, removed.insert(s[0]))
    } else {
        seq![s[0]] + without_firsts(s.drop_first(), drop, removed)
    }
}

/// What is left of a list: members of the list, each either kept on purpose
/// or already taken out once before.
proof fn lemma_without_firsts_members(s: Seq<Seq<char>>, drop: Set<Seq<char>>, removed: Set<Seq<char>>)
    requires
        s.no_duplicates(),
    ensures
        forall|x: Seq<char>| #[trigger]
            without_firsts(s, drop, removed).contains(x) ==> s.contains(x) && (!drop.contains(x)
                || removed.contains(x)),
    decreases s.len(),
{
    if s.len() > 0 {
        let rest = s.drop_first();
        assert(rest.no_duplicates());
        if drop.contains(s[0]) && !removed.contains(s[0]) {
            lemma_without_firsts_members(rest, drop, removed.insert(s[0]));
            assert forall|x: Seq<char>| #[trigger]
                without_firsts(s, drop, removed).contains(x) implies s.contains(x) && (
                !drop.contains(x) || removed.contains(x)) by {
                assert(without_firsts(rest, drop, removed.insert(s[0])).contains(x));
                assert(rest.contains(x));
                let j = choose|j: int| 0 <= j < rest.len() && rest[j] == x;
                assert(s[j + 1] == x);
                assert(x != s[0]);
            }
        } else {
            lemma_without_firsts_members(rest, drop, removed);
            let tail = without_firsts(rest, drop, removed);
            assert forall|x: Seq<char>| #[trigger]
                without_firsts(s, drop, removed).contains(x) implies s.contains(x) && (
                !drop.contains(x) || removed.contains(x)) by {
                let r = seq![s[0]] + tail;
                let i = choose|i: int| 0 <= i < r.len() && r[i] == x;
                if i > 0 {
                    assert(tail[i - 1] == x);
                    assert(tail.contains(x));
                    assert(rest.contains(x));
                    let j = choose|j: int| 0 <= j < rest.len() && rest[j] == x;
                    assert(s[j + 1] == x);
                } else {
                    assert(s[0] == x);
                }
            }
        }
    }
}

/// Taking the first occurrence of each essential package out of a list that
/// names nothing twice leaves no essential package in it, and nothing that
/// was not in it.
pub proof fn law_stripped_lists_lack_essentials(deps: Seq<Seq<char>>, essential: Set<Seq<char>>)
    requires
        deps.no_duplicates(),
    ensures
        forall|x: Seq<char>| #[trigger]
            without_firsts(deps, essential, Set::empty()).contains(x) ==> deps.contains(x)
                && !essential.contains(x),
{
    lemma_without_firsts_members(deps, essential, Set::empty());
}

/// Asking for versioned dependencies and leaving packages out do not go
/// together: exactly one of them has to be chosen.
pub fn incompatible_options(versions: bool, ignored: &NameSet) -> (b: bool)
    ensures
        b == (versions != (ignored@.len() == 0)),
{
    versions != (ignored.len() == 0)
}

/// Whether `list` holds `name`.
fn list_contains(list: &Vec<String>, name: &String) -> (b: bool)
    ensures
        b == texts(list@).contains(name@),
{
    let mut i: usize = 0;
    while i < list.len()
        invariant
            i <= list.len(),
            forall|j: int| 0 <= j < i ==> list@[j]@ != name@,
        decreases list.len() - i,
    {
        if list[i] == *name {
            assert(texts(list@)[i as int] == name@);
            return true;
        }
        i += 1;
    }
    proof {
        if texts(list@).contains(name@) {
            let j = choose|j: int| 0 <= j < texts(list@).len() && texts(list@)[j] == name@;
            assert(list@[j]@ == name@);
        }
    }
    false
}

/// The packages that every source package depends on, and those left out on
/// purpose.
pub fn extra_essential(packages: &PackageTable, ignored: &NameSet) -> (r: NameSet)
    requires
        packages@.dom().len() > 0,
    ensures
        r@.to_set() == essential_names(packages@, ignored@),
{
    let n = packages.len();
    proof {
        if n == 0 {
            assert(packages@.dom() =~= Set::empty());
        }
    }
    let first = packages.deps_at(0);
    let mut common = NameSet::new();
    let mut j: usize = 0;
    while j < first.len()
        invariant
            j <= first.len(),
            common@.to_set() == texts(first@).take(j as int).to_set(),
        decreases first.len() - j,
    {
        common.insert(first[j].clone());
        assert(texts(first@).take(j + 1) =~= texts(first@).take(j as int).push(first@[j as int]@));
        j += 1;
    }
    assert(texts(first@).take(first.len() as int) =~= texts(first@));
    let ghost keys = packages.keys();
    let mut i: usize = 1;
    while i < n
        invariant
            1 <= i <= n,
            n == keys.len(),
            keys == packages.keys(),
            packages@.dom() == keys.to_set(),
            common@.to_set() == Set::new(
                |x: Seq<char>| forall|k: int| 0 <= k < i ==> #[trigger] packages@[keys[k]].contains(x),
            ),
        decreases n - i,
    {
        let deps = packages.deps_at(i);
        let mut kept = NameSet::new();
        let mut j: usize = 0;
        let m = common.len();
        while j < m
            invariant
                j <= m,
                m == common@.len(),
                kept@.to_set() == common@.take(j as int).to_set().filter(
                    |x: Seq<char>| texts(deps@).contains(x),
                ),
            decreases m - j,
        {
            let name = common.get(j);
            if list_contains(deps, name) {
                kept.insert(name.clone());
            }
            assert(common@.take(j + 1) =~= common@.take(j as int).push(common@[j as int]));
            assert(kept@.to_set() =~= common@.take(j + 1).to_set().filter(
                |x: Seq<char>| texts(deps@).contains(x),
            ));
            j += 1;
        }
        assert(common@.take(m as int) =~= common@);
        common = kept;
        assert(common@.to_set() =~= Set::new(
            |x: Seq<char>| forall|k: int| 0 <= k < i + 1 ==> #[trigger] packages@[keys[k]].contains(x),
        )) by {
            assert forall|x: Seq<char>| #[trigger] common@.to_set().contains(x) implies forall|k: int|
                0 <= k < i + 1 ==> #[trigger] packages@[keys[k]].contains(x) by {
                assert forall|k: int| 0 <= k < i + 1 implies #[trigger] packages@[keys[k]].contains(x) by {
                    if k == i {
                        assert(texts(deps@).contains(x));
                    }
                }
            }
        }
        i += 1;
    }
    proof {
        assert(common@.to_set() =~= common_names(packages@)) by {
            assert forall|x: Seq<char>| common@.to_set().contains(x) implies #[trigger] common_names(
                packages@,
            ).contains(x) by {
                assert forall|key: Seq<char>| #[trigger] packages@.contains_key(key) implies packages@[key].contains(x) by {
                    assert(keys.to_set().contains(key));
                    let k = choose|k: int| 0 <= k < keys.len() && keys[k] == key;
                    assert(packages@[keys[k]].contains(x));
                }
            }
            assert forall|x: Seq<char>| #[trigger] common_names(packages@).contains(x) implies common@.to_set().contains(
                x,
            ) by {
                assert forall|k: int| 0 <= k < n implies #[trigger] packages@[keys[k]].contains(x) by {
                    assert(keys.to_set().contains(keys[k]));
                }
            }
        }
    }
    let mut j: usize = 0;
    let m = ignored.len();
    while j < m
        invariant
            j <= m,
            m == ignored@.len(),
            common@.to_set() == common_names(packages@).union(ignored@.take(j as int).to_set()),
        decreases m - j,
    {
        common.insert(ignored.get(j).clone());
        assert(ignored@.take(j + 1) =~= ignored@.take(j as int).push(ignored@[j as int]));
        assert(common@.to_set() =~= common_names(packages@).union(ignored@.take(j + 1).to_set()));
        j += 1;
    }
    assert(ignored@.take(m as int) =~= ignored@);
    common
}

/// The printed report: the essential packages, then each source package with
/// its remaining dependencies.
pub struct Listing {
    pub essential: Vec<String>,
    pub sections: Vec<(String, Vec<String>)>,
}

/// `deps` with the first occurrence of each essential package taken out.
pub fn strip_essentials(deps: &Vec<String>, essential: &NameSet) -> (r: Vec<String>)
    ensures
        texts(r@) == without_firsts(texts(deps@), essential@.to_set(), Set::empty()),
{
    let ghost all = texts(deps@);
    let ghost drop = essential@.to_set();
    let mut removed = NameSet::new();
    let mut out: Vec<String> = Vec::new();
    let mut i: usize = 0;
    assert(all.skip(0) =~= all);
    assert(removed@.to_set() =~= Set::<Seq<char>>::empty());
    assert(texts(out@) + without_firsts(all, drop, Set::empty()) =~= without_firsts(
        all,
        drop,
        Set::empty(),
    ));
    while i < deps.len()
        invariant
            i <= deps.len(),
            all == texts(deps@),
            drop == essential@.to_set(),
            texts(out@) + without_firsts(all.skip(i as int), drop, removed@.to_set())
                == without_firsts(all, drop, Set::empty()),
        decreases deps.len() - i,
    {
        let ghost rest = all.skip(i as int);
        assert(rest[0] == deps@[i as int]@);
        assert(rest.drop_first() =~= all.skip(i + 1));
        let d = &deps[i];
        if essential.contains(d.as_str()) && !removed.contains(d.as_str()) {
            removed.insert(d.clone());
        } else {
            let ghost before = texts(out@);
            out.push(d.clone());
            assert(texts(out@) =~= before.push(d@));
            assert(before.push(d@) + without_firsts(all.skip(i + 1), drop, removed@.to_set())
                =~= before + (seq![d@] + without_firsts(all.skip(i + 1), drop, removed@.to_set())));
        }
        i += 1;
    }
    assert(all.skip(deps.len() as int) =~= Seq::<Seq<char>>::empty());
    assert(texts(out@) =~= texts(out@) + Seq::<Seq<char>>::empty());
    out
}

/// The names of the sections of a listing.
pub open spec fn section_names(sections: Seq<(String, Vec<String>)>) -> Seq<Seq<char>> {
    sections.map_values(|s: (String, Vec<String>)| s.0@)
}

/// The report: the essential packages in sorted order, then each source
/// package of the table in sorted order, with its list stripped of the first
/// occurrence of each essential package and sorted.
pub fn listing(packages: &PackageTable, essential: &NameSet) -> (r: Listing)
    ensures
        texts(r.essential@).to_multiset() == essential@.to_multiset(),
        sorted_texts(texts(r.essential@)),
        section_names(r.sections@).to_multiset() == packages.keys().to_multiset(),
        sorted_texts(section_names(r.sections@)),
        forall|i: int|
            0 <= i < r.sections@.len() ==> {
                &&& packages@.contains_key(#[trigger] r.sections@[i].0@)
                &&& texts(r.sections@[i].1@).to_multiset() == without_firsts(
                    packages@[r.sections@[i].0@],
                    essential@.to_set(),
                    Set::empty(),
                ).to_multiset()
                &&& sorted_texts(texts(r.sections@[i].1@))
            },
{
    let mut names: Vec<String> = Vec::new();
    let mut j: usize = 0;
    while j < essential.len()
        invariant
            j <= essential@.len(),
            texts(names@) == essential@.take(j as int),
        decreases essential@.len() - j,
    {
        names.push(essential.get(j).clone());
        assert(essential@.take(j + 1) =~= essential@.take(j as int).push(essential@[j as int]));
        assert(texts(names@) =~= essential@.take(j + 1));
        j += 1;
    }
    assert(essential@.take(essential@.len() as int) =~= essential@);
    sort_texts(&mut names);
    let n = packages.len();
    let mut keys: Vec<String> = Vec::new();
    let mut k: usize = 0;
    while k < n
        invariant
            k <= n,
            n == packages.keys().len(),
            texts(keys@) == packages.keys().take(k as int),
        decreases n - k,
    {
        keys.push(packages.key_at(k).clone());
        assert(packages.keys().take(k + 1) =~= packages.keys().take(k as int).push(
            packages.keys()[k as int],
        ));
        assert(texts(keys@) =~= packages.keys().take(k + 1));
        k += 1;
    }
    assert(packages.keys().take(n as int) =~= packages.keys());
    sort_texts(&mut keys);
    let ghost sorted_keys = texts(keys@);
    let mut sections: Vec<(String, Vec<String>)> = Vec::new();
    let mut i: usize = 0;
    while i < keys.len()
        invariant
            i <= keys.len(),
            sorted_keys == texts(keys@),
            sorted_keys.to_multiset() == packages.keys().to_multiset(),
            packages@.dom() == packages.keys().to_set(),
            section_names(sections@) == sorted_keys.take(i as int),
            forall|t: int|
                0 <= t < sections@.len() ==> {
                    &&& packages@.contains_key(#[trigger] sections@[t].0@)
                    &&& texts(sections@[t].1@).to_multiset() == without_firsts(
                        packages@[sections@[t].0@],
                        essential@.to_set(),
                        Set::empty(),
                    ).to_multiset()
                    &&& sorted_texts(texts(sections@[t].1@))
                },
        decreases keys.len() - i,
    {
        let key = &keys[i];
        proof {
            assert(sorted_keys.to_multiset().count(key@) > 0) by {
                assert(sorted_keys[i as int] == key@);
                sorted_keys.to_multiset_ensures();
            }
            packages.keys().to_multiset_ensures();
            assert(packages.keys().contains(key@));
            assert(packages.keys().to_set().contains(key@));
        }
        match packages.get(key.as_str()) {
            Some(deps) => {
                let mut rest = strip_essentials(deps, essential);
                sort_texts(&mut rest);
                let ghost before = sections@;
                sections.push((key.clone(), rest));
                assert(section_names(sections@) =~= section_names(before).push(key@));
                assert(sorted_keys.take(i + 1) =~= sorted_keys.take(i as int).push(key@));
            },
            None => {
                assert(false);
            },
        }
        i += 1;
    }
    assert(sorted_keys.take(keys.len() as int) =~= sorted_keys);
    Listing { essential: names, sections }
}

} // verus!
