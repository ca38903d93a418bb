use pkgdeps::dose::{Event, FirstPass, Package};
use pkgdeps::names::{same_text, NameSet, PackageTable};
use pkgdeps::report::{extra_essential, incompatible_options, listing, strip_essentials};

fn pkg(name: &str, version: &str, arch: &str) -> Package {
    Package { name: name.to_string(), version: version.to_string(), arch: arch.to_string() }
}

fn names(list: &[&str]) -> NameSet {
    let mut s = NameSet::new();
    for n in list {
        s.insert(n.to_string());
    }
    s
}

fn strings(list: &[&str]) -> Vec<String> {
    list.iter().map(|s| s.to_string()).collect()
}

fn scalar(s: &str) -> Event {
    Event::Scalar { value: s.to_string(), anchor: 0, tagged: false }
}

/// The events of a mapping `{package: name, version: v, architecture: a}`
/// followed by `extra` key/value pairs.
fn package_map(name: &str, version: &str, arch: &str, extra: &[(&str, &str)]) -> Vec<Event> {
    let mut evs = vec![Event::MappingStart(0)];
    for (k, v) in [("package", name), ("version", version), ("architecture", arch)].iter() {
        evs.push(scalar(k));
        evs.push(scalar(v));
    }
    for (k, v) in extra {
        evs.push(scalar(k));
        evs.push(scalar(v));
    }
    evs.push(Event::MappingEnd);
    evs
}

/// A report with one source entry per item, each listing its dependencies.
fn report(sources: &[(&str, Vec<Vec<Event>>)]) -> Vec<Event> {
    let mut evs = vec![
        Event::StreamStart,
        Event::DocumentStart,
        Event::MappingStart(0),
        scalar("report"),
        Event::SequenceStart(0),
    ];
    for (src, deps) in sources {
        evs.push(Event::MappingStart(0));
        evs.push(scalar("package"));
        evs.push(scalar(src));
        evs.push(scalar("version"));
        evs.push(scalar("1.0"));
        evs.push(scalar("depends"));
        evs.push(Event::SequenceStart(0));
        for d in deps {
            evs.extend(d.iter().map(clone_event));
        }
        evs.push(Event::SequenceEnd);
        evs.push(Event::MappingEnd);
    }
    evs.push(Event::SequenceEnd);
    evs.push(Event::MappingEnd);
    evs.push(Event::DocumentEnd);
    evs.push(Event::StreamEnd);
    evs
}

fn clone_event(e: &Event) -> Event {
    match e {
        Event::Nothing => Event::Nothing,
        Event::StreamStart => Event::StreamStart,
        Event::StreamEnd => Event::StreamEnd,
        Event::DocumentStart => Event::DocumentStart,
        Event::DocumentEnd => Event::DocumentEnd,
        Event::Alias(a) => Event::Alias(*a),
        Event::Scalar { value, anchor, tagged } => {
            Event::Scalar { value: value.clone(), anchor: *anchor, tagged: *tagged }
        }
        Event::SequenceStart(a) => Event::SequenceStart(*a),
        Event::SequenceEnd => Event::SequenceEnd,
        Event::MappingStart(a) => Event::MappingStart(*a),
        Event::MappingEnd => Event::MappingEnd,
    }
}

fn digest(versions: bool, ignored: NameSet, events: &[Event]) -> PackageTable {
    let mut pass = FirstPass::new(versions, ignored);
    for ev in events {
        assert!(pass.accepts(ev), "refused {:?}", ev);
        pass.on_event(ev);
    }
    pass.into_packages()
}

fn deps_of(table: &PackageTable, key: &str) -> Vec<String> {
    table.get(key).expect("source package present").clone()
}

#[test]
fn package_new_is_empty_and_unset() {
    let p = Package::new();
    assert!(p.name.is_empty() && p.version.is_empty() && p.arch.is_empty());
    assert!(!p.is_set());
}

#[test]
fn package_is_set_needs_name_and_version() {
    assert!(pkg("a", "1", "").is_set());
    assert!(!pkg("a", "", "amd64").is_set());
    assert!(!pkg("", "1", "amd64").is_set());
}

#[test]
fn package_to_string_with_and_without_version() {
    let p = pkg("libc6", "2.24-11", "amd64");
    assert_eq!(p.to_string(true), "libc6:2.24-11:amd64");
    assert_eq!(p.to_string(false), "libc6");
    assert_eq!(pkg("x", "1", "").to_string(true), "x:1:");
}

#[test]
fn package_clear_keeps_the_architecture() {
    let mut p = pkg("libc6", "2.24", "amd64");
    p.clear();
    assert_eq!(p.name, "");
    assert_eq!(p.version, "");
    assert_eq!(p.arch, "amd64");
}

#[test]
fn digest_gathers_dependencies_per_source() {
    let evs = report(&[
        (
            "src-a",
            vec![
                package_map("libfoo", "2", "amd64", &[]),
                package_map("libbar", "3", "all", &[]),
            ],
        ),
        ("src-b", vec![package_map("libfoo", "2", "amd64", &[])]),
    ]);
    let table = digest(false, NameSet::new(), &evs);
    assert_eq!(table.len(), 2);
    assert_eq!(deps_of(&table, "src-a"), strings(&["libfoo", "libbar"]));
    assert_eq!(deps_of(&table, "src-b"), strings(&["libfoo"]));
    assert!(table.get("libfoo").is_none());
}

#[test]
fn digest_with_versions_names_dependencies_fully() {
    let evs = report(&[("src-a", vec![package_map("libfoo", "2", "amd64", &[])])]);
    let table = digest(true, NameSet::new(), &evs);
    assert_eq!(deps_of(&table, "src-a"), strings(&["libfoo:2:amd64"]));
}

#[test]
fn digest_skips_ignored_dependencies() {
    let evs = report(&[(
        "src-a",
        vec![package_map("libfoo", "2", "amd64", &[]), package_map("libbar", "3", "all", &[])],
    )]);
    let table = digest(false, names(&["libfoo"]), &evs);
    assert_eq!(deps_of(&table, "src-a"), strings(&["libbar"]));
}

#[test]
fn digest_drops_a_dependency_whose_type_follows() {
    let evs = report(&[(
        "src-a",
        vec![
            package_map("libfoo", "2", "amd64", &[("type", "conflict")]),
            package_map("libbar", "3", "all", &[("status", "ok")]),
        ],
    )]);
    let table = digest(false, NameSet::new(), &evs);
    assert_eq!(deps_of(&table, "src-a"), strings(&["libbar"]));
}

#[test]
fn digest_later_entry_replaces_earlier() {
    let evs = report(&[
        ("src-a", vec![package_map("libfoo", "2", "amd64", &[])]),
        ("src-a", vec![package_map("libbar", "3", "all", &[])]),
    ]);
    let table = digest(false, NameSet::new(), &evs);
    assert_eq!(table.len(), 1);
    assert_eq!(deps_of(&table, "src-a"), strings(&["libbar"]));
}

#[test]
fn digest_refuses_what_the_format_does_not_allow() {
    let pass = FirstPass::new(false, NameSet::new());
    assert!(!pass.accepts(&Event::MappingEnd));
    assert!(!pass.accepts(&Event::Alias(1)));
    assert!(!pass.accepts(&Event::Nothing));
    assert!(!pass.accepts(&Event::MappingStart(3)));
    assert!(!pass.accepts(&Event::SequenceStart(2)));
    assert!(!pass.accepts(&Event::Scalar { value: "x".to_string(), anchor: 0, tagged: true }));
    assert!(!pass.accepts(&Event::Scalar { value: "x".to_string(), anchor: 4, tagged: false }));
    assert!(pass.accepts(&scalar("x")));
    assert!(pass.accepts(&Event::StreamStart));

    let mut deep = FirstPass::new(false, NameSet::new());
    for _ in 0..3 {
        assert!(deep.accepts(&Event::MappingStart(0)));
        deep.on_event(&Event::MappingStart(0));
    }
    assert!(!deep.accepts(&Event::MappingStart(0)));

    // a source entry without a version cannot be recorded
    let mut unset = FirstPass::new(false, NameSet::new());
    for ev in [Event::MappingStart(0), Event::MappingStart(0), scalar("package"), scalar("a")] {
        unset.on_event(&ev);
    }
    assert!(!unset.accepts(&Event::SequenceEnd));
}

#[test]
fn digest_refuses_a_value_outside_any_mapping() {
    let mut pass = FirstPass::new(false, NameSet::new());
    pass.on_event(&scalar("package"));
    assert!(!pass.accepts(&scalar("libc6")));
}

#[test]
fn names_keep_order_and_no_repeats() {
    let mut s = NameSet::new();
    assert_eq!(s.insert("b".to_string()), 0);
    assert_eq!(s.insert("a".to_string()), 1);
    assert_eq!(s.insert("b".to_string()), 0);
    assert_eq!(s.len(), 2);
    assert!(s.contains("a"));
    assert!(!s.contains("c"));
    assert_eq!(s.find("a"), Some(1));
    assert_eq!(s.find("c"), None);
    assert_eq!(s.get(0), "b");
}

#[test]
fn same_text_compares_contents() {
    assert!(same_text(&"abc".to_string(), "abc"));
    assert!(!same_text(&"abc".to_string(), "abd"));
    assert!(!same_text(&"".to_string(), "a"));
}

#[test]
fn table_keeps_first_order_and_last_value() {
    let mut t = PackageTable::new();
    t.insert("b".to_string(), strings(&["x"]));
    t.insert("a".to_string(), strings(&["y"]));
    t.insert("b".to_string(), strings(&["z", "w"]));
    assert_eq!(t.len(), 2);
    assert_eq!(t.key_at(0), "b");
    assert_eq!(t.key_at(1), "a");
    assert_eq!(t.deps_at(0), &strings(&["z", "w"]));
    assert_eq!(t.get("a"), Some(&strings(&["y"])));
    assert_eq!(t.get("c"), None);
}

#[test]
fn options_must_be_exactly_one() {
    assert!(incompatible_options(false, &NameSet::new()));
    assert!(!incompatible_options(true, &NameSet::new()));
    assert!(!incompatible_options(false, &names(&["a"])));
    assert!(incompatible_options(true, &names(&["a"])));
}

fn table(entries: &[(&str, &[&str])]) -> PackageTable {
    let mut t = PackageTable::new();
    for (k, v) in entries {
        t.insert(k.to_string(), strings(v));
    }
    t
}

fn sorted_members(s: &NameSet) -> Vec<String> {
    let mut v: Vec<String> = (0..s.len()).map(|i| s.get(i).clone()).collect();
    v.sort();
    v
}

#[test]
fn extra_essential_is_the_common_part_and_the_ignored() {
    let t = table(&[("s1", &["a", "b", "c"]), ("s2", &["c", "a", "d"]), ("s3", &["a", "c", "c"])]);
    let e = extra_essential(&t, &NameSet::new());
    assert_eq!(sorted_members(&e), strings(&["a", "c"]));
    let e2 = extra_essential(&t, &names(&["z", "a"]));
    assert_eq!(sorted_members(&e2), strings(&["a", "c", "z"]));
}

#[test]
fn extra_essential_of_disjoint_lists_is_empty() {
    let t = table(&[("s1", &["a"]), ("s2", &["b"])]);
    assert_eq!(extra_essential(&t, &NameSet::new()).len(), 0);
    let single = table(&[("s1", &["b", "a", "b"])]);
    assert_eq!(sorted_members(&extra_essential(&single, &NameSet::new())), strings(&["a", "b"]));
}

#[test]
fn strip_essentials_removes_first_occurrences_only() {
    let deps = strings(&["a", "b", "a", "c", "b"]);
    assert_eq!(strip_essentials(&deps, &names(&["a", "b"])), strings(&["a", "c", "b"]));
    assert_eq!(strip_essentials(&deps, &NameSet::new()), deps);
    assert_eq!(strip_essentials(&deps, &names(&["q"])), deps);
    assert_eq!(strip_essentials(&Vec::new(), &names(&["a"])), Vec::<String>::new());
}

#[test]
fn listing_sorts_everything() {
    let t = table(&[("zsh", &["libc6", "libcap2", "dpkg"]), ("bash", &["libc6", "base-files", "dpkg"])]);
    let essential = extra_essential(&t, &names(&["perl"]));
    let l = listing(&t, &essential);
    assert_eq!(l.essential, strings(&["dpkg", "libc6", "perl"]));
    assert_eq!(l.sections.len(), 2);
    assert_eq!(l.sections[0], ("bash".to_string(), strings(&["base-files"])));
    assert_eq!(l.sections[1], ("zsh".to_string(), strings(&["libcap2"])));
}

#[test]
fn listing_sorts_by_code_points() {
    let t = table(&[("b", &["Z", "a", "é", "B"]), ("B", &[]), ("a", &["x"])]);
    let l = listing(&t, &NameSet::new());
    let keys: Vec<&str> = l.sections.iter().map(|s| s.0.as_str()).collect();
    assert_eq!(keys, vec!["B", "a", "b"]);
    assert_eq!(l.sections[2].1, strings(&["B", "Z", "a", "é"]));
    assert!(l.essential.is_empty());
}

#[test]
fn strip_essentials_of_a_list_without_repeats_leaves_none() {
    let deps = strings(&["a", "b", "c", "d"]);
    let essential = names(&["c", "z", "a"]);
    let rest = strip_essentials(&deps, &essential);
    assert_eq!(rest, strings(&["b", "d"]));
    assert!(rest.iter().all(|d| !essential.contains(d)));
}

#[test]
fn feed_all_reads_a_whole_report() {
    let evs = report(&[("src-a", vec![package_map("libfoo", "2", "amd64", &[])])]);
    let mut pass = FirstPass::new(false, NameSet::new());
    assert_eq!(pass.feed_all(&evs), evs.len());
    let table = pass.into_packages();
    assert_eq!(deps_of(&table, "src-a"), strings(&["libfoo"]));
}

#[test]
fn feed_all_stops_at_the_first_refused_event() {
    let evs = vec![Event::StreamStart, Event::MappingStart(0), Event::Alias(1), scalar("x")];
    let mut pass = FirstPass::new(false, NameSet::new());
    assert_eq!(pass.feed_all(&evs), 2);
    assert!(!pass.accepts(&Event::Alias(1)));
}
