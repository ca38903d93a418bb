//! Dense numbering of package names.
use std::collections::HashMap;
use vstd::hash_map::StringHashMap;
use vstd::prelude::*;

verus! {

/// Identifier given to a package name.
pub type PkgId = u16;

/// Index of `name` in `names` (meaningful when `names` contains it).
pub open spec fn position(names: Seq<Seq<char>>, name: Seq<char>) -> int {
    choose|i: int| 0 <= i < names.len() && names[i] == name
}

/// Looking a name up: a known name keeps its number, an unknown one is
/// appended and receives the next free number.
pub open spec fn id_lookup(names: Seq<Seq<char>>, name: Seq<char>) -> (Seq<Seq<char>>, int) {
    if names.contains(name) {
        (names, position(names, name))
    } else {
        (names.push(name), names.len() as int)
    }
}

/// The map from each number to the name that carries it.
pub open spec fn reverse_map(names: Seq<Seq<char>>) -> Map<PkgId, Seq<char>> {
    Map::new(|id: PkgId| (id as int) < names.len(), |id: PkgId| names[id as int])
}

/// What a lookup gives: the name sits at its number, earlier names keep
/// theirs, and no name is listed twice.
pub proof fn law_lookup_numbers_name(names: Seq<Seq<char>>, name: Seq<char>)
    requires
        names.no_duplicates(),
    ensures
        ({
            let (after, id) = id_lookup(names, name);
            &&& 0 <= id < after.len()
            &&& after[id] == name
            &&& after.no_duplicates()
            &&& names.len() <= after.len() <= names.len() + 1
            &&& forall|j: int| 0 <= j < names.len() ==> after[j] == names[j]
        }),
{
    if names.contains(name) {
        let p = position(names, name);
        assert(0 <= p < names.len() && names[p] == name);
    } else {
        let after = names.push(name);
        assert forall|i: int, j: int|
            0 <= i < after.len() && 0 <= j < after.len() && i != j implies after[i] != after[j] by {
            if i < names.len() && j < names.len() {
            } else if i < names.len() {
                assert(names.contains(names[i]));
            } else {
                assert(names.contains(names[j]));
            }
        }
    }
}

/// Looking the same name up again gives the same number and changes nothing.
pub proof fn law_lookup_stable(names: Seq<Seq<char>>, name: Seq<char>)
    requires
        names.no_duplicates(),
    ensures
        ({
            let (after, id) = id_lookup(names, name);
            id_lookup(after, name) == (after, id)
        }),
{
    law_lookup_numbers_name(names, name);
    let (after, id) = id_lookup(names, name);
    assert(after.contains(name));
    let p = position(after, name);
    assert(0 <= p < after.len() && after[p] == name);
}

/// Different names receive different numbers.
pub proof fn law_lookup_distinct(names: Seq<Seq<char>>, a: Seq<char>, b: Seq<char>)
    requires
        names.no_duplicates(),
        a != b,
    ensures
        ({
            let (first, i) = id_lookup(names, a);
            let (second, j) = id_lookup(first, b);
            i != j && second[i] == a && second[j] == b
        }),
{
    law_lookup_numbers_name(names, a);
    let (first, i) = id_lookup(names, a);
    law_lookup_numbers_name(first, b);
}

/// The reverse map of a numbering gives back the name that a lookup numbered.
pub proof fn law_reverse_inverts_lookup(names: Seq<Seq<char>>, name: Seq<char>)
    requires
        names.no_duplicates(),
        names.len() < PkgId::MAX,
    ensures
        ({
            let (after, id) = id_lookup(names, name);
            &&& reverse_map(after).contains_key(id as PkgId)
            &&& reverse_map(after)[id as PkgId] == name
        }),
{
    law_lookup_numbers_name(names, name);
}

/// The numbering after looking the names of `pkgs` up in order, starting from
/// the numbering `names`.
pub open spec fn lookup_all(names: Seq<Seq<char>>, pkgs: Seq<Seq<char>>) -> Seq<Seq<char>>
    decreases pkgs.len(),
{
    if pkgs.len() == 0 {
        names
    } else {
        id_lookup(lookup_all(names, pkgs.drop_last()), pkgs.last()).0
    }
}

/// Looking names up one after another, starting from an empty numbering,
/// numbers each distinct name once: the numbering holds exactly the names
/// looked up, none twice, so its length is the number of distinct names.
pub proof fn law_lookups_count_distinct_names(pkgs: Seq<Seq<char>>)
    ensures
        lookup_all(Seq::empty(), pkgs).no_duplicates(),
        lookup_all(Seq::empty(), pkgs).to_set() == pkgs.to_set(),
        lookup_all(Seq::empty(), pkgs).len() == pkgs.to_set().len(),
    decreases pkgs.len(),
{
    let after = lookup_all(Seq::empty(), pkgs);
    if pkgs.len() == 0 {
        assert(after.to_set() =~= pkgs.to_set());
    } else {
        let prev = pkgs.drop_last();
        let name = pkgs.last();
        law_lookups_count_distinct_names(prev);
        let before = lookup_all(Seq::empty(), prev);
        law_lookup_numbers_name(before, name);
        assert(pkgs =~= prev.push(name));
        assert(pkgs.to_set() =~= prev.to_set().insert(name)) by {
            assert forall|x: Seq<char>| pkgs.contains(x) <==> prev.contains(x) || x == name by {
                if pkgs.contains(x) {
                    let i = choose|i: int| 0 <= i < pkgs.len() && pkgs[i] == x;
                    if i < prev.len() {
                        assert(prev[i] == x);
                    }
                }
                if prev.contains(x) {
                    let i = choose|i: int| 0 <= i < prev.len() && prev[i] == x;
                    assert(pkgs[i] == x);
                }
                if x == name {
                    assert(pkgs[pkgs.len() - 1] == x);
                }
            }
        }
        if before.contains(name) {
            assert(after.to_set() =~= before.to_set().insert(name));
        } else {
            assert(after =~= before.push(name));
            assert forall|x: Seq<char>| after.contains(x) <==> before.contains(x) || x == name by {
                if after.contains(x) {
                    let i = choose|i: int| 0 <= i < after.len() && after[i] == x;
                    if i < before.len() {
                        assert(before[i] == x);
                    }
                }
                if before.contains(x) {
                    let i = choose|i: int| 0 <= i < before.len() && before[i] == x;
                    assert(after[i] == x);
                }
                if x == name {
                    assert(after[after.len() - 1] == x);
                }
            }
            assert(after.to_set() =~= before.to_set().insert(name));
        }
    }
    after.unique_seq_to_set();
}

/// `cache` maps each name of `names` to its index, and knows no other name.
spec fn indexes(names: Seq<Seq<char>>, cache: Map<Seq<char>, PkgId>) -> bool {
    &&& forall|i: int|
        0 <= i < names.len() ==> {
            &&& #[trigger] cache.contains_key(names[i])
            &&& cache[names[i]] == i
        }
    &&& forall|k: Seq<char>|
        #[trigger] cache.contains_key(k) ==> {
            &&& (cache[k] as int) < names.len()
            &&& names[cache[k] as int] == k
        }
}

proof fn lemma_indexes_distinct(names: Seq<Seq<char>>, cache: Map<Seq<char>, PkgId>)
    requires
        indexes(names, cache),
    ensures
        names.no_duplicates(),
{
    assert forall|i: int, j: int|
        0 <= i < names.len() && 0 <= j < names.len() && i != j implies names[i] != names[j] by {
        assert(cache.contains_key(names[i]));
        assert(cache.contains_key(names[j]));
    }
}

/// Hands out small integer identifiers for package names, in order of first
/// appearance.
pub struct PkgIdLookup {
    cache: StringHashMap<PkgId>,
    names: Vec<String>,
}

impl View for PkgIdLookup {
    type V = Seq<Seq<char>>;

    /// The known names, the one numbered `i` at index `i`.
    closed spec fn view(&self) -> Seq<Seq<char>> {
        self.names@.map_values(|s: String| s@)
    }
}

impl PkgIdLookup {
    #[verifier::type_invariant]
    closed spec fn wf(&self) -> bool {
        &&& self@.len() <= PkgId::MAX
        &&& indexes(self@, self.cache@)
    }

    /// An empty numbering.
    pub fn new() -> (r: PkgIdLookup)
        ensures
            r@ == Seq::<Seq<char>>::empty(),
            r@.no_duplicates(),
    {
        let r = PkgIdLookup { cache: StringHashMap::new(), names: Vec::new() };
        assert(r@ =~= Seq::<Seq<char>>::empty());
        r
    }

    /// The number of `pkg`, given a fresh one if `pkg` is new.
    pub fn id_of(&mut self, pkg: &str) -> (id: PkgId)
        requires
            old(self)@.len() < PkgId::MAX,
        ensures
            (final(self)@, id as int) == id_lookup(old(self)@, pkg@),
            final(self)@.no_duplicates(),
    {
        proof {
            use_type_invariant(&*self);
        }
        let len = self.names.len();
        match self.cache.get(pkg) {
            Some(id) => {
                let id = *id;
                proof {
                    let i = id as int;
                    assert(self@[i] == pkg@);
                    assert(self@.contains(pkg@));
                    lemma_indexes_distinct(self@, self.cache@);
                    let p = position(self@, pkg@);
                    assert(0 <= p < self@.len() && self@[p] == pkg@);
                }
                id
            },
            None => {
                let ghost old_view = self@;
                proof {
                    assert(!old_view.contains(pkg@)) by {
                        if old_view.contains(pkg@) {
                            let i = choose|i: int| 0 <= i < old_view.len() && old_view[i] == pkg@;
                            assert(self.cache@.contains_key(self.names@[i]@));
                        }
                    }
                }
                let id = len as PkgId;
                let owned = pkg.to_owned();
                let key = pkg.to_owned();
                let mut taken = PkgIdLookup::new();
                std::mem::swap(&mut taken, self);
                proof {
                    use_type_invariant(&taken);
                }
                let PkgIdLookup { mut cache, mut names } = taken;
                cache.insert(key, id);
                names.push(owned);
                proof {
                    assert forall|i: int| 0 <= i < names@.len() implies {
                        &&& #[trigger] cache@.contains_key(names@[i]@)
                        &&& cache@[names@[i]@] == i
                    } by {
                        if i < old_view.len() {
                            assert(old_view[i] == names@[i]@);
                            assert(old_view[i] != pkg@);
                        }
                    }
                    assert forall|k: Seq<char>| #[trigger] cache@.contains_key(k) implies {
                        &&& (cache@[k] as int) < names@.len()
                        &&& names@[cache@[k] as int]@ == k
                    } by {
                        if k != pkg@ {
                            assert(old(self).cache@.contains_key(k));
                        }
                    }
                }
                *self = PkgIdLookup { cache, names };
                assert(self@ =~= old_view.push(pkg@));
                proof {
                    use_type_invariant(&*self);
                    lemma_indexes_distinct(self@, self.cache@);
                }
                id
            },
        }
    }

    /// How many names are known.
    pub fn len(&self) -> (n: usize)
        ensures
            n == self@.len(),
            n <= PkgId::MAX,
            self@.no_duplicates(),
    {
        proof {
            use_type_invariant(self);
            lemma_indexes_distinct(self@, self.cache@);
        }
        self.names.len()
    }

    /// The map from each number to its name.
    pub fn reverse(&self) -> (r: HashMap<PkgId, String>)
        ensures
            r@.dom() == reverse_map(self@).dom(),
            forall|id: PkgId| #[trigger] r@.contains_key(id) ==> r@[id]@ == reverse_map(self@)[id],
            r@.len() == self@.len(),
    {
        proof {
            use_type_invariant(self);
        }
        let mut r: HashMap<PkgId, String> = HashMap::new();
        let n = self.names.len();
        let mut i: usize = 0;
        while i < n
            invariant
                n == self.names@.len(),
                n <= PkgId::MAX,
                i <= n,
                forall|id: PkgId| #[trigger] r@.contains_key(id) <==> (id as int) < i,
                forall|id: PkgId| #[trigger] r@.contains_key(id) ==> r@[id]@ == self@[id as int],
                r@.dom().finite(),
                r@.len() == i,
            decreases n - i,
        {
            assert(!r@.contains_key(i as PkgId));
            r.insert(i as PkgId, self.names[i].clone());
            i += 1;
        }
        assert(r@.dom() =~= reverse_map(self@).dom());
        r
    }
}

} // verus!
