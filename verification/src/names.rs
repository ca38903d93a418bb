//! Sets and tables keyed by package names, remembering insertion order so
//! that they can be walked.
use vstd::hash_map::StringHashMap;
use vstd::prelude::*;
use vstd::string::*;

verus! {

broadcast use vstd::seq_lib::group_seq_properties;

/// The texts of a list of strings.
pub open spec fn texts(v: Seq<String>) -> Seq<Seq<char>> {
    v.map_values(|s: String| s@)
}

/// Whether `s` reads `text`.
pub fn same_text(s: &String, text: &str) -> (b: bool)
    ensures
        b == (s@ == text@),
{
    let t = String::from_str(text);
    *s == t
}

/// `index` maps each member of `items` to its position, and knows no other
/// name.
spec fn positions(items: Seq<Seq<char>>, index: Map<Seq<char>, usize>) -> bool {
    &&& forall|i: int|
        0 <= i < items.len() ==> {
            &&& #[trigger] index.contains_key(items[i])
            &&& index[items[i]] == i
        }
    &&& forall|k: Seq<char>|
        #[trigger] index.contains_key(k) ==> {
            &&& (index[k] as int) < items.len()
            &&& items[index[k] as int] == k
        }
}

proof fn lemma_positions_distinct(items: Seq<Seq<char>>, index: Map<Seq<char>, usize>)
    requires
        positions(items, index),
    ensures
        items.no_duplicates(),
        forall|k: Seq<char>| items.contains(k) <==> #[trigger] index.contains_key(k),
{
    assert forall|i: int, j: int|
        0 <= i < items.len() && 0 <= j < items.len() && i != j implies items[i] != items[j] by {
        assert(index.contains_key(items[i]));
        assert(index.contains_key(items[j]));
    }
    assert forall|k: Seq<char>| items.contains(k) <==> #[trigger] index.contains_key(k) by {
        if items.contains(k) {
            let i = choose|i: int| 0 <= i < items.len() && items[i] == k;
            assert(index.contains_key(items[i]));
        }
        if index.contains_key(k) {
            assert(items[index[k] as int] == k);
        }
    }
}

/// A set of names that remembers the order in which they came.
pub struct NameSet {
    index: StringHashMap<usize>,
    items: Vec<String>,
}

impl View for NameSet {
    type V = Seq<Seq<char>>;

    /// The members, in order of insertion.
    closed spec fn view(&self) -> Seq<Seq<char>> {
        self.items@.map_values(|s: String| s@)
    }
}

impl NameSet {
    #[verifier::type_invariant]
    closed spec fn wf(&self) -> bool {
        positions(self@, self.index@)
    }

    /// The empty set.
    pub fn new() -> (r: NameSet)
        ensures
            r@ == Seq::<Seq<char>>::empty(),
            r@.no_duplicates(),
    {
        let r = NameSet { index: StringHashMap::new(), items: Vec::new() };
        assert(r@ =~= Seq::<Seq<char>>::empty());
        r
    }

    /// Whether `name` is a member.
    pub fn contains(&self, name: &str) -> (b: bool)
        ensures
            b == self@.contains(name@),
    {
        proof {
            use_type_invariant(self);
            lemma_positions_distinct(self@, self.index@);
        }
        self.index.contains_key(name)
    }

    /// The position of `name`, adding it at the end when it is new.
    pub fn insert(&mut self, name: String) -> (pos: usize)
        ensures
            old(self)@.contains(name@) ==> final(self)@ == old(self)@,
            !old(self)@.contains(name@) ==> final(self)@ == old(self)@.push(name@) && pos == old(
                self,
            )@.len(),
            pos < final(self)@.len(),
            final(self)@[pos as int] == name@,
            final(self)@.no_duplicates(),
            final(self)@.to_set() == old(self)@.to_set().insert(name@),
    {
        proof {
            use_type_invariant(&*self);
            lemma_positions_distinct(self@, self.index@);
        }
        match self.index.get(name.as_str()) {
            Some(pos) => {
                let pos = *pos;
                assert(self@.to_set() =~= self@.to_set().insert(name@));
                pos
            },
            None => {
                let ghost old_view = self@;
                let mut taken = NameSet::new();
                std::mem::swap(&mut taken, self);
                proof {
                    use_type_invariant(&taken);
                }
                let NameSet { mut index, mut items } = taken;
                let pos = items.len();
                let key = name.clone();
                index.insert(key, pos);
                items.push(name);
                let ghost new_view = items@.map_values(|s: String| s@);
                proof {
                    assert(new_view =~= old_view.push(name@));
                    assert forall|i: int| 0 <= i < new_view.len() implies {
                        &&& #[trigger] index@.contains_key(new_view[i])
                        &&& index@[new_view[i]] == i
                    } by {
                        if i < old_view.len() {
                            assert(old_view[i] != name@);
                        }
                    }
                    assert forall|k: Seq<char>| #[trigger] index@.contains_key(k) implies {
                        &&& (index@[k] as int) < new_view.len()
                        &&& new_view[index@[k] as int] == k
                    } by {
                        if k != name@ {
                            assert(old(self).index@.contains_key(k));
                        }
                    }
                }
                *self = NameSet { index, items };
                proof {
                    use_type_invariant(&*self);
                    lemma_positions_distinct(self@, self.index@);
                    assert(self@ =~= old_view.push(name@));
                    assert(self@.to_set() =~= old_view.to_set().insert(name@));
                }
                pos
            },
        }
    }

    /// The position of `name`, if it is a member.
    pub fn find(&self, name: &str) -> (pos: Option<usize>)
        ensures
            match pos {
                Some(i) => i < self@.len() && self@[i as int] == name@,
                None => !self@.contains(name@),
            },
    {
        proof {
            use_type_invariant(self);
            lemma_positions_distinct(self@, self.index@);
        }
        match self.index.get(name) {
            Some(i) => Some(*i),
            None => None,
        }
    }

    /// How many members there are.
    pub fn len(&self) -> (n: usize)
        ensures
            n == self@.len(),
            self@.no_duplicates(),
    {
        proof {
            use_type_invariant(self);
            lemma_positions_distinct(self@, self.index@);
        }
        self.items.len()
    }

    /// The member at position `i`.
    pub fn get(&self, i: usize) -> (name: &String)
        requires
            i < self@.len(),
        ensures
            name@ == self@[i as int],
    {
        &self.items[i]
    }
}

/// A table from package names to lists of names; a later entry for a name
/// replaces the earlier one, and the names keep the order of their first
/// entry.
pub struct PackageTable {
    keys: NameSet,
    values: Vec<Vec<String>>,
}

impl View for PackageTable {
    type V = Map<Seq<char>, Seq<Seq<char>>>;

    closed spec fn view(&self) -> Map<Seq<char>, Seq<Seq<char>>> {
        Map::new(
            |k: Seq<char>| self.keys@.contains(k),
            |k: Seq<char>| texts(self.values@[self.keys@.index_of(k)]@),
        )
    }
}

impl PackageTable {
    #[verifier::type_invariant]
    closed spec fn wf(&self) -> bool {
        self.keys@.len() == self.values@.len()
    }

    /// The names that have an entry, in order of their first entry.
    pub closed spec fn keys(&self) -> Seq<Seq<char>> {
        self.keys@
    }

    /// The empty table.
    pub fn new() -> (r: PackageTable)
        ensures
            r@ == Map::<Seq<char>, Seq<Seq<char>>>::empty(),
            r.keys() == Seq::<Seq<char>>::empty(),
    {
        let r = PackageTable { keys: NameSet::new(), values: Vec::new() };
        assert(r@ =~= Map::<Seq<char>, Seq<Seq<char>>>::empty());
        r
    }

    /// Records `deps` as the entry of `key`.
    pub fn insert(&mut self, key: String, deps: Vec<String>)
        ensures
            final(self)@ == old(self)@.insert(key@, texts(deps@)),
            old(self)@.contains_key(key@) ==> final(self).keys() == old(self).keys(),
            !old(self)@.contains_key(key@) ==> final(self).keys() == old(self).keys().push(key@),
    {
        proof {
            use_type_invariant(&*self);
        }
        let ghost old_keys = self.keys@;
        let ghost old_values = self.values@;
        let ghost k = key@;
        let ghost d = deps@;
        let mut taken = PackageTable::new();
        std::mem::swap(&mut taken, self);
        proof {
            use_type_invariant(&taken);
        }
        let PackageTable { mut keys, mut values } = taken;
        let pos = keys.insert(key);
        if pos == values.len() {
            values.push(deps);
        } else {
            values[pos] = deps;
        }
        let n = keys.len();
        *self = PackageTable { keys, values };
        proof {
            let new_keys = self.keys@;
            assert(new_keys.no_duplicates());
            assert(old_keys.no_duplicates()) by {
                assert forall|i: int, j: int|
                    0 <= i < old_keys.len() && 0 <= j < old_keys.len() && i != j implies old_keys[i]
                    != old_keys[j] by {
                    assert(new_keys[i] == old_keys[i]);
                    assert(new_keys[j] == old_keys[j]);
                }
            }
            assert forall|x: Seq<char>| #[trigger] new_keys.contains(x) implies new_keys.index_of(x)
                == (if old_keys.contains(x) { old_keys.index_of(x) } else { pos as int }) by {
                let i = new_keys.index_of(x);
                assert(0 <= i < new_keys.len() && new_keys[i] == x);
                if old_keys.contains(x) {
                    let j = old_keys.index_of(x);
                    assert(0 <= j < old_keys.len() && old_keys[j] == x);
                    assert(new_keys[j] == x);
                } else {
                    assert(new_keys[pos as int] == x);
                }
            }
            assert forall|x: Seq<char>| #[trigger] old_keys.contains(x) implies new_keys.contains(x) by {
                let j = old_keys.index_of(x);
                assert(0 <= j < old_keys.len() && old_keys[j] == x);
                assert(new_keys[j] == x);
            }
            assert(self@ =~= old(self)@.insert(k, texts(d)));
        }
    }

    /// How many names have an entry.
    pub fn len(&self) -> (n: usize)
        ensures
            n == self.keys().len(),
            self.keys().no_duplicates(),
            self@.dom() == self.keys().to_set(),
    {
        proof {
            use_type_invariant(self);
        }
        assert(self@.dom() =~= self.keys().to_set());
        self.keys.len()
    }

    /// The list filed under `key`, if there is one.
    pub fn get(&self, key: &str) -> (deps: Option<&Vec<String>>)
        ensures
            match deps {
                Some(d) => self@.contains_key(key@) && texts(d@) == self@[key@],
                None => !self@.contains_key(key@),
            },
    {
        proof {
            use_type_invariant(self);
        }
        let n = self.keys.len();
        match self.keys.find(key) {
            Some(i) => {
                proof {
                    let ks = self.keys@;
                    assert(ks.contains(key@));
                    let j = ks.index_of(key@);
                    assert(0 <= j < ks.len() && ks[j] == key@);
                }
                Some(&self.values[i])
            },
            None => None,
        }
    }

    /// The name of the entry at position `i`.
    pub fn key_at(&self, i: usize) -> (name: &String)
        requires
            i < self.keys().len(),
        ensures
            name@ == self.keys()[i as int],
    {
        self.keys.get(i)
    }

    /// The list of the entry at position `i`.
    pub fn deps_at(&self, i: usize) -> (deps: &Vec<String>)
        requires
            i < self.keys().len(),
        ensures
            texts(deps@) == self@[self.keys()[i as int]],
    {
        proof {
            use_type_invariant(self);
        }
        let n = self.keys.len();
        proof {
            let ks = self.keys@;
            assert(ks.contains(ks[i as int]));
            let j = ks.index_of(ks[i as int]);
            assert(0 <= j < ks.len() && ks[j] == ks[i as int]);
        }
        &self.values[i]
    }
}

} // verus!
