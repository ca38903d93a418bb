//! Reading a package listing line by line: a line `name:` opens the entry of
//! a package, each following line ` - dep` names one of its dependencies.
use std::collections::HashMap;
use std::collections::HashSet;
use vstd::prelude::*;
use vstd::string::*;

use crate::dominators::deps_view;
use crate::pkg_ids::{id_lookup, law_lookup_numbers_name, PkgId, PkgIdLookup};

verus! {

/// The line opens the entry of a package: it ends with `:`.
pub open spec fn is_header(line: Seq<char>) -> bool {
    line.len() >= 1 && line.last() == ':'
}

/// The line names a dependency: it starts with ` - `.
pub open spec fn is_entry(line: Seq<char>) -> bool {
    line.len() >= 3 && line[0] == ' ' && line[1] == '-' && line[2] == ' '
}

/// The package that a header line opens.
pub open spec fn header_name(line: Seq<char>) -> Seq<char> {
    line.subrange(0, line.len() - 1)
}

/// The package that an entry line names.
pub open spec fn entry_name(line: Seq<char>) -> Seq<char> {
    line.skip(3)
}

/// What has been read so far.
pub struct LoaderModel {
    /// The package whose entry is open (0 before the first header).
    pub key: PkgId,
    /// The dependencies gathered for it so far.
    pub pending: Set<PkgId>,
    /// The entries closed so far.
    pub deps: Map<PkgId, Set<PkgId>>,
    /// The names numbered so far.
    pub names: Seq<Seq<char>>,
}

/// The line can be read in this state: it is a header or an entry, and the
/// numbering has room for the name it may bring.
pub open spec fn line_accepted(m: LoaderModel, line: Seq<char>) -> bool {
    if is_header(line) {
        m.names.len() < PkgId::MAX
    } else if is_entry(line) {
        m.key == 0 || m.names.len() < PkgId::MAX
    } else {
        false
    }
}

/// Reading one line.  A header closes the open entry (recorded only when it
/// gathered a dependency) and opens the named package; an entry adds its
/// package to the open one, except under the package numbered 0, whose
/// entries are passed over.
pub open spec fn load_step(m: LoaderModel, line: Seq<char>) -> LoaderModel {
    if is_header(line) {
        let deps = if m.pending.is_empty() {
            m.deps
        } else {
            m.deps.insert(m.key, m.pending)
        };
        let (names, id) = id_lookup(m.names, header_name(line));
        LoaderModel { key: id as PkgId, pending: Set::empty(), deps, names }
    } else if m.key == 0 {
        m
    } else {
        let (names, id) = id_lookup(m.names, entry_name(line));
        LoaderModel { pending: m.pending.insert(id as PkgId), names, ..m }
    }
}

/// Every number in the state belongs to a known name.
pub open spec fn ids_known(m: LoaderModel) -> bool {
    &&& (m.key as int) < m.names.len() || m.key == 0
    &&& forall|id: PkgId| #[trigger] m.pending.contains(id) ==> (id as int) < m.names.len()
    &&& forall|k: PkgId|
        #[trigger] m.deps.contains_key(k) ==> (k as int) < m.names.len() && forall|id: PkgId|
            #[trigger] m.deps[k].contains(id) ==> (id as int) < m.names.len()
}

/// Reading an accepted line keeps the numbering free of repeats and every
/// number of the state a known one.
pub proof fn law_step_keeps_ids_known(m: LoaderModel, line: Seq<char>)
    requires
        m.names.no_duplicates(),
        ids_known(m),
        line_accepted(m, line),
    ensures
        load_step(m, line).names.no_duplicates(),
        ids_known(load_step(m, line)),
        m.names.is_prefix_of(load_step(m, line).names),
{
    let next = load_step(m, line);
    if is_header(line) {
        law_lookup_numbers_name(m.names, header_name(line));
    } else if m.key != 0 {
        law_lookup_numbers_name(m.names, entry_name(line));
    }
    assert(m.names.is_prefix_of(next.names));
}

/// A header line `name:` closes the open entry (recording it only when it
/// gathered something) and opens the entry of `name`: the open key is the
/// number of `name`, which keeps the number it already had, or else is the
/// next free one.
pub proof fn law_header_opens_its_package(m: LoaderModel, line: Seq<char>)
    requires
        m.names.no_duplicates(),
        m.names.len() < PkgId::MAX,
        line.len() >= 1,
        line[line.len() - 1] == ':',
    ensures
        ({
            let next = load_step(m, line);
            let name = line.subrange(0, line.len() - 1);
            &&& (next.key as int) < next.names.len()
            &&& next.names[next.key as int] == name
            &&& m.names.contains(name) ==> next.names == m.names
            &&& !m.names.contains(name) ==> next.names == m.names.push(name) && next.key
                == m.names.len()
            &&& next.pending == Set::<PkgId>::empty()
            &&& next.deps == if m.pending.is_empty() {
                m.deps
            } else {
                m.deps.insert(m.key, m.pending)
            }
        }),
{
    law_lookup_numbers_name(m.names, header_name(line));
}

/// An entry line ` - dep` adds the number of `dep` to the open entry, unless
/// the open key is 0, whose entries are passed over; nothing else changes but
/// the numbering, which may gain `dep`.
pub proof fn law_entry_adds_dependency(m: LoaderModel, line: Seq<char>)
    requires
        m.names.no_duplicates(),
        m.names.len() < PkgId::MAX,
        line.len() >= 3,
        line[0] == ' ',
        line[1] == '-',
        line[2] == ' ',
        line[line.len() - 1] != ':',
    ensures
        m.key == 0 ==> load_step(m, line) == m,
        m.key != 0 ==> ({
            let next = load_step(m, line);
            &&& next.key == m.key
            &&& next.deps == m.deps
            &&& m.names.is_prefix_of(next.names)
            &&& exists|id: PkgId|
                (id as int) < next.names.len() && next.names[id as int] == line.skip(3)
                    && next.pending == m.pending.insert(id)
        }),
{
    if m.key != 0 {
        law_lookup_numbers_name(m.names, entry_name(line));
        let next = load_step(m, line);
        let (names, id) = id_lookup(m.names, entry_name(line));
        assert(next.names[(id as PkgId) as int] == line.skip(3));
        assert(m.names.is_prefix_of(next.names));
    }
}

/// The state of reading a package listing.
pub struct Loader {
    key: PkgId,
    set: HashSet<PkgId>,
    map: HashMap<PkgId, HashSet<PkgId>>,
    namer: PkgIdLookup,
}

impl View for Loader {
    type V = LoaderModel;

    closed spec fn view(&self) -> LoaderModel {
        LoaderModel {
            key: self.key,
            pending: self.set@,
            deps: deps_view(self.map),
            names: self.namer@,
        }
    }
}

impl Loader {
    /// Nothing read yet.
    pub fn new() -> (r: Loader)
        ensures
            r@ == (LoaderModel {
                key: 0,
                pending: Set::empty(),
                deps: Map::empty(),
                names: Seq::empty(),
            }),
    {
        let r = Loader {
            key: 0,
            set: HashSet::new(),
            map: HashMap::new(),
            namer: PkgIdLookup::new(),
        };
        assert(deps_view(r.map) =~= Map::empty());
        r
    }

    /// Whether `line` can be read now.
    pub fn accepts(&self, line: &str) -> (ok: bool)
        ensures
            ok == line_accepted(self@, line@),
    {
        let n = line.unicode_len();
        let room = self.namer.len() < PkgId::MAX as usize;
        if n >= 1 && line.get_char(n - 1) == ':' {
            room
        } else if n >= 3 && line.get_char(0) == ' ' && line.get_char(1) == '-' && line.get_char(2)
            == ' ' {
            self.key == 0 || room
        } else {
            false
        }
    }

    /// Reads one line of the listing.
    pub fn feed(&mut self, line: &str)
        requires
            line_accepted(old(self)@, line@),
        ensures
            final(self)@ == load_step(old(self)@, line@),
    {
        let n = line.unicode_len();
        if line.get_char(n - 1) == ':' {
            if !self.set.is_empty() {
                let mut full = HashSet::new();
                std::mem::swap(&mut full, &mut self.set);
                self.map.insert(self.key, full);
            }
            let name = line.substring_char(0, n - 1);
            self.key = self.namer.id_of(name);
            proof {
                assert(deps_view(self.map) =~= load_step(old(self)@, line@).deps);
            }
            return ;
        }
        if self.key == 0 {
            return ;
        }
        let name = line.substring_char(3, n);
        let id = self.namer.id_of(name);
        self.set.insert(id);
    }

    /// The numbering of names and the recorded dependency map.
    pub fn finish(self) -> (r: (PkgIdLookup, HashMap<PkgId, HashSet<PkgId>>))
        ensures
            r.0@ == self@.names,
            deps_view(r.1) == self@.deps,
    {
        (self.namer, self.map)
    }
}

} // verus!
