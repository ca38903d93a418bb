//! Digesting the YAML report of dose-distcheck: from the stream of parser
//! events, gather for each source package the dependencies that were found.
use vstd::prelude::*;
use vstd::string::*;

use crate::names::{same_text, texts, NameSet, PackageTable};

verus! {

/// A package as the report names it.
pub struct Package {
    pub name: String,
    pub version: String,
    pub arch: String,
}

/// The text `name:version:arch`.
pub open spec fn versioned_text(name: Seq<char>, version: Seq<char>, arch: Seq<char>) -> Seq<
    char,
> {
    name + seq![':'] + version + seq![':'] + arch
}

impl Package {
    /// A package with every field empty.
    pub fn new() -> (p: Package)
        ensures
            p.name@ == Seq::<char>::empty(),
            p.version@ == Seq::<char>::empty(),
            p.arch@ == Seq::<char>::empty(),
    {
        Package { name: String::new(), version: String::new(), arch: String::new() }
    }

    /// Forgets the name and the version; the architecture stays.
    pub fn clear(&mut self)
        ensures
            final(self).name@ == Seq::<char>::empty(),
            final(self).version@ == Seq::<char>::empty(),
            final(self).arch@ == old(self).arch@,
    {
        self.name = String::new();
        self.version = String::new();
    }

    /// Both the name and the version are known.
    pub open spec fn spec_is_set(&self) -> bool {
        self.name@.len() > 0 && self.version@.len() > 0
    }

    /// Both the name and the version are known.
    pub fn is_set(&self) -> (b: bool)
        ensures
            b == self.spec_is_set(),
    {
        !self.name.as_str().is_empty() && !self.version.as_str().is_empty()
    }

    /// The text of the package: `name:version:arch` when `version` is asked
    /// for, else the bare name.
    pub open spec fn spec_to_string(&self, version: bool) -> Seq<char> {
        if version {
            versioned_text(self.name@, self.version@, self.arch@)
        } else {
            self.name@
        }
    }

    /// The text of the package: `name:version:arch` when `version` is asked
    /// for, else the bare name.
    pub fn to_string(&self, version: bool) -> (s: String)
        requires
            self.spec_is_set(),
        ensures
            s@ == self.spec_to_string(version),
    {
        if version {
            let mut s = self.name.clone();
            s.append(":");
            s.append(self.version.as_str());
            s.append(":");
            s.append(self.arch.as_str());
            proof {
                reveal_strlit(":");
            }
            assert(s@ =~= versioned_text(self.name@, self.version@, self.arch@));
            s
        } else {
            self.name.clone()
        }
    }
}

/// The fields of a package, as texts.
pub struct PackageText {
    pub name: Seq<char>,
    pub version: Seq<char>,
    pub arch: Seq<char>,
}

/// The fields of `p` as texts.
pub open spec fn package_text(p: Package) -> PackageText {
    PackageText { name: p.name@, version: p.version@, arch: p.arch@ }
}

/// What the next scalar of a mapping stands for.
#[derive(PartialEq, Eq, Structural, Clone, Copy, Debug)]
pub enum NextIs {
    Key,
    Package,
    Version,
    Type,
    Arch,
    Ignore,
}

/// A YAML parser event, holding what the digest reads of it.
#[derive(Debug)]
pub enum Event {
    Nothing,
    StreamStart,
    StreamEnd,
    DocumentStart,
    DocumentEnd,
    /// A reference to an anchor.
    Alias(usize),
    /// A scalar: its text, its anchor (0 for none), and whether it carries a tag.
    Scalar { value: String, anchor: usize, tagged: bool },
    /// The start of a sequence, with its anchor (0 for none).
    SequenceStart(usize),
    SequenceEnd,
    /// The start of a mapping, with its anchor (0 for none).
    MappingStart(usize),
    MappingEnd,
}

/// Which field of a package a scalar fills.
pub enum Field {
    Name,
    Version,
    Arch,
}

/// `p` with `field` set to `value`.
pub open spec fn with_field(p: PackageText, field: Field, value: Seq<char>) -> PackageText {
    match field {
        Field::Name => PackageText { name: value, ..p },
        Field::Version => PackageText { version: value, ..p },
        Field::Arch => PackageText { arch: value, ..p },
    }
}

/// Both the name and the version are known.
pub open spec fn text_is_set(p: PackageText) -> bool {
    p.name.len() > 0 && p.version.len() > 0
}

/// The text of a package, with or without its version and architecture.
pub open spec fn text_of(p: PackageText, version: bool) -> Seq<char> {
    if version {
        versioned_text(p.name, p.version, p.arch)
    } else {
        p.name
    }
}

/// The state of the digest.
pub struct PassModel {
    /// Dependencies are written `name:version:arch` rather than `name`.
    pub versions: bool,
    /// How many mappings are open.
    pub depth: u8,
    /// The source package being described (at depth 2).
    pub source: PackageText,
    /// The dependency being described (at depth 3).
    pub dep: PackageText,
    /// What the next scalar stands for.
    pub state: NextIs,
    /// Dependencies that are left out.
    pub ignored: Seq<Seq<char>>,
    /// The dependencies gathered for the current source package.
    pub deps: Seq<Seq<char>>,
    /// Each source package with its dependencies.
    pub packages: Map<Seq<char>, Seq<Seq<char>>>,
}

/// A scalar fills `field` of the package of the current depth: the source
/// package at depth 2, the dependency at depth 3, nothing at depth 1.
pub open spec fn fill(m: PassModel, field: Field, value: Seq<char>) -> PassModel {
    if m.depth == 2 {
        PassModel { source: with_field(m.source, field, value), state: NextIs::Key, ..m }
    } else if m.depth == 3 {
        PassModel { dep: with_field(m.dep, field, value), state: NextIs::Key, ..m }
    } else {
        PassModel { state: NextIs::Key, ..m }
    }
}

/// What a key scalar announces.
pub open spec fn key_meaning(label: Seq<char>) -> NextIs {
    if label == "package"@ {
        NextIs::Package
    } else if label == "version"@ {
        NextIs::Version
    } else if label == "type"@ {
        NextIs::Type
    } else if label == "architecture"@ {
        NextIs::Arch
    } else {
        NextIs::Ignore
    }
}

/// The events the digest handles in state `m`: no anchors, aliases or tags,
/// at most three nested mappings, no scalar value outside a mapping, and a
/// source package with a name and a version when its list of dependencies
/// ends.
pub open spec fn event_accepted(m: PassModel, ev: Event) -> bool {
    match ev {
        Event::StreamStart | Event::DocumentStart | Event::DocumentEnd | Event::StreamEnd => true,
        Event::MappingStart(anchor) => anchor == 0 && m.depth < 3,
        Event::MappingEnd => m.depth != 0,
        Event::SequenceStart(anchor) => anchor == 0,
        Event::SequenceEnd => m.depth == 2 ==> text_is_set(m.source),
        Event::Scalar { value, anchor, tagged } => anchor == 0 && !tagged && (m.state
            == NextIs::Package || m.state == NextIs::Version || m.state == NextIs::Arch ==> m.depth
            != 0),
        _ => false,
    }
}

/// The digest of one event.
/// - A mapping start opens a level and expects a key.
/// - A mapping end at depth 3 closes a dependency: one with a name and a
///   version that is not left out is added to the gathered ones; the level
///   closes and the dependency's name and version are forgotten.
/// - A sequence end at depth 2 files the gathered dependencies under the
///   source package's name and starts a new gathering.
/// - A scalar is a key, whose meaning sets what the next scalar is, or the
///   value that the last key announced.
pub open spec fn pass_step(m: PassModel, ev: Event) -> PassModel {
    match ev {
        Event::MappingStart(_) => PassModel { depth: (m.depth + 1) as u8, state: NextIs::Key, ..m },
        Event::MappingEnd => {
            let deps = if m.depth == 3 && text_is_set(m.dep) && !m.ignored.contains(m.dep.name) {
                m.deps.push(text_of(m.dep, m.versions))
            } else {
                m.deps
            };
            PassModel {
                depth: (m.depth - 1) as u8,
                dep: PackageText { name: Seq::empty(), version: Seq::empty(), ..m.dep },
                deps,
                ..m
            }
        },
        Event::SequenceEnd => if m.depth == 2 {
            PassModel {
                packages: m.packages.insert(text_of(m.source, false), m.deps),
                deps: Seq::empty(),
                ..m
            }
        } else {
            m
        },
        Event::Scalar { value, .. } => match m.state {
            NextIs::Key => PassModel { state: key_meaning(value@), ..m },
            NextIs::Package => fill(m, Field::Name, value@),
            NextIs::Version => fill(m, Field::Version, value@),
            NextIs::Arch => fill(m, Field::Arch, value@),
            NextIs::Type => PassModel {
                dep: PackageText { name: Seq::empty(), version: Seq::empty(), ..m.dep },
                state: NextIs::Key,
                ..m
            },
            NextIs::Ignore => PassModel { state: NextIs::Key, ..m },
        },
        _ => m,
    }
}

/// At most three mappings are open.
pub open spec fn pass_wf(m: PassModel) -> bool {
    m.depth <= 3
}

/// The end of a dependency's mapping (three mappings deep) appends the
/// dependency to the gathered list exactly when it has a name and a version
/// and its name is not excluded, whatever that name is: as `name` alone, or
/// as `name:version:arch` when versions are asked for.  Every other end of a
/// mapping leaves the list as it is.
pub proof fn law_mapping_end_gathers_dependency(m: PassModel, anchor: usize)
    ensures
        pass_step(m, Event::MappingEnd).deps == if m.depth == 3 && m.dep.name.len() > 0
            && m.dep.version.len() > 0 && !m.ignored.contains(m.dep.name) {
            m.deps.push(
                if m.versions {
                    m.dep.name + seq![':'] + m.dep.version + seq![':'] + m.dep.arch
                } else {
                    m.dep.name
                },
            )
        } else {
            m.deps
        },
        pass_step(m, Event::MappingEnd).packages == m.packages,
        pass_step(m, Event::MappingEnd).source == m.source,
{
}

/// A key announces the package's name exactly when it reads `package`, its
/// version exactly for `version`, its architecture exactly for
/// `architecture`, and a type exactly for `type`; any other key makes the
/// next scalar ignored.
pub proof fn law_keys_announce_fields(label: Seq<char>)
    ensures
        (key_meaning(label) == NextIs::Package) == (label == "package"@),
        (key_meaning(label) == NextIs::Version) == (label == "version"@),
        (key_meaning(label) == NextIs::Arch) == (label == "architecture"@),
        (key_meaning(label) == NextIs::Type) == (label == "type"@),
        label != "package"@ && label != "version"@ && label != "architecture"@ && label
            != "type"@ ==> key_meaning(label) == NextIs::Ignore,
        key_meaning(label) != NextIs::Key,
{
    reveal_strlit("package");
    reveal_strlit("version");
    reveal_strlit("architecture");
    reveal_strlit("type");
    assert("version"@[0] != "package"@[0]);
    assert("architecture"@[0] != "package"@[0]);
    assert("architecture"@[0] != "version"@[0]);
    assert("type"@[0] != "package"@[0]);
    assert("type"@[0] != "version"@[0]);
    assert("type"@[0] != "architecture"@[0]);
}

/// A key scalar only decides what the next scalar is; the scalar after an
/// ignored key changes nothing but that the next scalar is a key again.
pub proof fn law_ignored_value_changes_nothing(m: PassModel, value: String, anchor: usize, tagged: bool)
    ensures
        m.state == NextIs::Key ==> pass_step(m, Event::Scalar { value, anchor, tagged }) == (
        PassModel { state: key_meaning(value@), ..m }),
        m.state == NextIs::Ignore ==> pass_step(m, Event::Scalar { value, anchor, tagged }) == (
        PassModel { state: NextIs::Key, ..m }),
{
}

/// The end of a sequence two mappings deep files the gathered list under the
/// source package's name, replacing an earlier list of that name, and starts
/// a new list; any other end of a sequence changes nothing.
pub proof fn law_sequence_end_files_source(m: PassModel)
    ensures
        m.depth == 2 ==> pass_step(m, Event::SequenceEnd) == (PassModel {
            packages: m.packages.insert(m.source.name, m.deps),
            deps: Seq::empty(),
            ..m
        }),
        m.depth != 2 ==> pass_step(m, Event::SequenceEnd) == m,
{
}

/// The value after a `package`, `version` or `architecture` key fills that
/// field of the source package two mappings deep, of the dependency three
/// mappings deep, and nothing one mapping deep; the other fields stay.
pub proof fn law_value_fills_field(m: PassModel, value: String, anchor: usize, tagged: bool)
    requires
        m.state == NextIs::Package || m.state == NextIs::Version || m.state == NextIs::Arch,
    ensures
        ({
            let next = pass_step(m, Event::Scalar { value, anchor, tagged });
            let filled = |p: PackageText|
                if m.state == NextIs::Package {
                    PackageText { name: value@, ..p }
                } else if m.state == NextIs::Version {
                    PackageText { version: value@, ..p }
                } else {
                    PackageText { arch: value@, ..p }
                };
            &&& next.state == NextIs::Key
            &&& next.source == if m.depth == 2 {
                filled(m.source)
            } else {
                m.source
            }
            &&& next.dep == if m.depth == 3 {
                filled(m.dep)
            } else {
                m.dep
            }
            &&& next.deps == m.deps
            &&& next.packages == m.packages
            &&& next.depth == m.depth
        }),
{
}

/// An accepted event never opens more than three mappings.
pub proof fn law_step_keeps_depth(m: PassModel, ev: Event)
    requires
        pass_wf(m),
        event_accepted(m, ev),
    ensures
        pass_wf(pass_step(m, ev)),
{
}

/// The state after the events of `events`, one after another, from `m`.
pub open spec fn pass_steps(m: PassModel, events: Seq<Event>) -> PassModel
    decreases events.len(),
{
    if events.len() == 0 {
        m
    } else {
        pass_step(pass_steps(m, events.drop_last()), events.last())
    }
}

/// The digest of a dose-distcheck report.
pub struct FirstPass {
    versions: bool,
    depth: u8,
    source: Package,
    dep: Package,
    map_state: NextIs,
    ignored: NameSet,
    deps: Vec<String>,
    packages: PackageTable,
}

impl View for FirstPass {
    type V = PassModel;

    closed spec fn view(&self) -> PassModel {
        PassModel {
            versions: self.versions,
            depth: self.depth,
            source: package_text(self.source),
            dep: package_text(self.dep),
            state: self.map_state,
            ignored: self.ignored@,
            deps: texts(self.deps@),
            packages: self.packages@,
        }
    }
}

impl FirstPass {
    #[verifier::type_invariant]
    closed spec fn within_depth(&self) -> bool {
        pass_wf(self@)
    }

    /// A digest that has seen nothing yet.
    pub fn new(versions: bool, ignored: NameSet) -> (r: FirstPass)
        ensures
            r@.versions == versions,
            r@.depth == 0,
            r@.source == (PackageText {
                name: Seq::empty(),
                version: Seq::empty(),
                arch: Seq::empty(),
            }),
            r@.dep == (PackageText {
                name: Seq::empty(),
                version: Seq::empty(),
                arch: Seq::empty(),
            }),
            r@.state == NextIs::Key,
            r@.ignored == ignored@,
            r@.deps == Seq::<Seq<char>>::empty(),
            r@.packages == Map::<Seq<char>, Seq<Seq<char>>>::empty(),
            pass_wf(r@),
    {
        let r = FirstPass {
            versions,
            depth: 0,
            source: Package::new(),
            dep: Package::new(),
            map_state: NextIs::Key,
            ignored,
            deps: Vec::new(),
            packages: PackageTable::new(),
        };
        assert(texts(r.deps@) =~= Seq::<Seq<char>>::empty());
        r
    }

    /// Forgets the name and the version of the dependency being read.
    fn clear_dep(&mut self)
        ensures
            final(self)@ == (PassModel {
                dep: PackageText {
                    name: Seq::empty(),
                    version: Seq::empty(),
                    ..old(self)@.dep
                },
                ..old(self)@
            }),
    {
        proof {
            use_type_invariant(&*self);
        }
        let mut dep = Package::new();
        std::mem::swap(&mut dep, &mut self.dep);
        dep.clear();
        std::mem::swap(&mut dep, &mut self.dep);
    }

    /// Fills `field` of the package that the current depth describes.
    fn relevant_field(&mut self, field: Field, value: String)
        requires
            1 <= old(self)@.depth <= 3,
        ensures
            final(self)@ == (PassModel { state: old(self)@.state, ..fill(old(self)@, field, value@) }),
    {
        if self.depth == 1 {
            return ;
        }
        if self.depth == 2 {
            set_field(&mut self.source, field, value);
        } else {
            set_field(&mut self.dep, field, value);
        }
    }

    /// Whether the digest handles `ev` now.
    pub fn accepts(&self, ev: &Event) -> (ok: bool)
        ensures
            ok == event_accepted(self@, *ev),
    {
        match ev {
            Event::StreamStart | Event::DocumentStart | Event::DocumentEnd | Event::StreamEnd => true,
            Event::MappingStart(anchor) => *anchor == 0 && self.depth < 3,
            Event::MappingEnd => self.depth != 0,
            Event::SequenceStart(anchor) => *anchor == 0,
            Event::SequenceEnd => self.depth != 2 || self.source.is_set(),
            Event::Scalar { anchor, tagged, .. } => *anchor == 0 && !*tagged && (match self.map_state {
                NextIs::Package | NextIs::Version | NextIs::Arch => self.depth != 0,
                _ => true,
            }),
            _ => false,
        }
    }

    /// Digests one event.
    pub fn on_event(&mut self, ev: &Event)
        requires
            event_accepted(old(self)@, *ev),
        ensures
            final(self)@ == pass_step(old(self)@, *ev),
            pass_wf(old(self)@),
            pass_wf(final(self)@),
    {
        proof {
            use_type_invariant(&*self);
        }
        match ev {
            Event::MappingStart(_) => {
                self.depth = self.depth + 1;
                self.map_state = NextIs::Key;
            },
            Event::MappingEnd => {
                if self.depth == 3 && self.dep.is_set() && !self.ignored.contains(
                    self.dep.name.as_str(),
                ) {
                    let text = self.dep.to_string(self.versions);
                    let mut gathered = Vec::new();
                    std::mem::swap(&mut gathered, &mut self.deps);
                    gathered.push(text);
                    std::mem::swap(&mut gathered, &mut self.deps);
                    proof {
                        assert(texts(self.deps@) =~= texts(old(self).deps@).push(text@));
                    }
                }
                self.depth = self.depth - 1;
                self.clear_dep();
            },
            Event::SequenceEnd => {
                if self.depth == 2 {
                    let key = self.source.to_string(false);
                    let mut gathered = Vec::new();
                    std::mem::swap(&mut gathered, &mut self.deps);
                    let mut table = PackageTable::new();
                    std::mem::swap(&mut table, &mut self.packages);
                    table.insert(key, gathered);
                    std::mem::swap(&mut table, &mut self.packages);
                    proof {
                        assert(texts(self.deps@) =~= Seq::<Seq<char>>::empty());
                    }
                }
            },
            Event::Scalar { value, .. } => {
                match self.map_state {
                    NextIs::Key => {
                        self.map_state = key_kind(value);
                    },
                    NextIs::Package => {
                        self.relevant_field(Field::Name, value.clone());
                        self.map_state = NextIs::Key;
                    },
                    NextIs::Version => {
                        self.relevant_field(Field::Version, value.clone());
                        self.map_state = NextIs::Key;
                    },
                    NextIs::Arch => {
                        self.relevant_field(Field::Arch, value.clone());
                        self.map_state = NextIs::Key;
                    },
                    NextIs::Type => {
                        self.clear_dep();
                        self.map_state = NextIs::Key;
                    },
                    NextIs::Ignore => {
                        self.map_state = NextIs::Key;
                    },
                }
            },
            _ => {},
        }
    }

    /// Reads the events of `events` in order, up to the first one that cannot
    /// be read; returns how many were read.
    pub fn feed_all(&mut self, events: &Vec<Event>) -> (n: usize)
        ensures
            n <= events@.len(),
            final(self)@ == pass_steps(old(self)@, events@.take(n as int)),
            n < events@.len() ==> !event_accepted(final(self)@, events@[n as int]),
    {
        let mut i: usize = 0;
        assert(events@.take(0) =~= Seq::<Event>::empty());
        while i < events.len()
            invariant
                i <= events@.len(),
                self@ == pass_steps(old(self)@, events@.take(i as int)),
            decreases events@.len() - i,
        {
            if !self.accepts(&events[i]) {
                return i;
            }
            self.on_event(&events[i]);
            assert(events@.take(i + 1).drop_last() =~= events@.take(i as int));
            i += 1;
        }
        i
    }

    /// The source packages with their dependencies.
    pub fn into_packages(self) -> (r: PackageTable)
        ensures
            r@ == self@.packages,
    {
        self.packages
    }
}

/// Sets `field` of `pkg` to `value`.
fn set_field(pkg: &mut Package, field: Field, value: String)
    ensures
        package_text(*final(pkg)) == with_field(package_text(*old(pkg)), field, value@),
    no_unwind
{
    match field {
        Field::Name => pkg.name = value,
        Field::Version => pkg.version = value,
        Field::Arch => pkg.arch = value,
    }
}

/// What a key scalar announces.
fn key_kind(label: &String) -> (k: NextIs)
    ensures
        k == key_meaning(label@),
{
    if same_text(label, "package") {
        NextIs::Package
    } else if same_text(label, "version") {
        NextIs::Version
    } else if same_text(label, "type") {
        NextIs::Type
    } else if same_text(label, "architecture") {
        NextIs::Arch
    } else {
        NextIs::Ignore
    }
}

} // verus!
