use std::collections::{HashMap, HashSet};
use std::sync::Arc;

use pkgdeps::dominators::{all_bins, dominator_report, find_dominators};
use pkgdeps::loader::Loader;
use pkgdeps::pkg_ids::PkgIdLookup;

fn set(ids: &[u16]) -> HashSet<u16> {
    ids.iter().cloned().collect()
}

#[test]
fn id_of_numbers_names_in_order_of_first_sight() {
    let mut namer = PkgIdLookup::new();
    assert_eq!(namer.id_of("libc6"), 0);
    assert_eq!(namer.id_of("zlib1g"), 1);
    assert_eq!(namer.id_of("libc6"), 0);
    assert_eq!(namer.id_of("perl"), 2);
    assert_eq!(namer.len(), 3);
}

#[test]
fn id_of_is_stable() {
    let mut namer = PkgIdLookup::new();
    let a = namer.id_of("bash");
    let b = namer.id_of("bash");
    assert_eq!(a, b);
    assert_eq!(namer.len(), 1);
}

#[test]
fn id_of_distinguishes_names() {
    let mut namer = PkgIdLookup::new();
    let a = namer.id_of("a");
    let b = namer.id_of("b");
    assert_ne!(a, b);
}

#[test]
fn empty_lookup_has_no_names() {
    let namer = PkgIdLookup::new();
    assert_eq!(namer.len(), 0);
    assert!(namer.reverse().is_empty());
}

#[test]
fn reverse_maps_ids_back_to_names() {
    let mut namer = PkgIdLookup::new();
    let a = namer.id_of("dpkg");
    let b = namer.id_of("tar");
    let names = namer.reverse();
    assert_eq!(names.len(), 2);
    assert_eq!(names[&a], "dpkg");
    assert_eq!(names[&b], "tar");
}

#[test]
fn dominators_intersect_every_dependent() {
    let mut map = HashMap::new();
    map.insert(1, set(&[5, 6, 7]));
    map.insert(2, set(&[5, 6, 8]));
    map.insert(3, set(&[9]));
    let r = find_dominators(5, Arc::new(map)).unwrap();
    assert_eq!(r, set(&[6]));
}

#[test]
fn dominators_exclude_the_package_itself() {
    let mut map = HashMap::new();
    map.insert(1, set(&[5, 6]));
    let r = find_dominators(5, Arc::new(map)).unwrap();
    assert_eq!(r, set(&[6]));
    assert!(!r.contains(&5));
}

#[test]
fn dominators_of_an_unneeded_package_are_none() {
    let mut map = HashMap::new();
    map.insert(1, set(&[5, 6]));
    assert!(find_dominators(9, Arc::new(map)).is_none());
    assert!(find_dominators(9, Arc::new(HashMap::new())).is_none());
}

#[test]
fn dominators_can_be_empty() {
    let mut map = HashMap::new();
    map.insert(1, set(&[5, 6]));
    map.insert(2, set(&[5, 7]));
    assert_eq!(find_dominators(5, Arc::new(map)).unwrap(), set(&[]));
}

#[test]
fn all_bins_is_the_union_of_the_sets() {
    let mut map = HashMap::new();
    map.insert(1, set(&[5, 6]));
    map.insert(2, set(&[6, 7]));
    map.insert(3, set(&[]));
    assert_eq!(all_bins(&map), set(&[5, 6, 7]));
    for bin in all_bins(&map) {
        assert!(find_dominators(bin, Arc::new(map.clone())).is_some());
    }
}

#[test]
fn report_lists_small_dominator_sets_only() {
    let mut names = HashMap::new();
    for i in 0..20u16 {
        names.insert(i, format!("p{}", i));
    }
    let (head, list) = dominator_report(&names, 3, &set(&[4])).unwrap();
    assert_eq!(head, "p3");
    assert_eq!(list, vec!["p4".to_string()]);
    let (_, empty) = dominator_report(&names, 3, &set(&[])).unwrap();
    assert!(empty.is_empty());
    let nine: Vec<u16> = (4..13).collect();
    let (_, list9) = dominator_report(&names, 3, &set(&nine)).unwrap();
    let mut got = list9.clone();
    got.sort();
    let mut want: Vec<String> = nine.iter().map(|i| format!("p{}", i)).collect();
    want.sort();
    assert_eq!(got, want);
    let ten: Vec<u16> = (4..14).collect();
    assert!(dominator_report(&names, 3, &set(&ten)).is_none());
}

fn load(lines: &[&str]) -> (PkgIdLookup, HashMap<u16, HashSet<u16>>) {
    let mut loader = Loader::new();
    for line in lines {
        assert!(loader.accepts(line));
        loader.feed(line);
    }
    loader.finish()
}

#[test]
fn loader_reads_a_listing() {
    let (namer, map) = load(&[
        "_essential:",
        " - libc6",
        "foo:",
        " - bar",
        " - baz",
        "qux:",
        " - bar",
        "last:",
    ]);
    let names = namer.reverse();
    assert_eq!(names[&0], "_essential");
    assert_eq!(names[&1], "foo");
    assert_eq!(names[&2], "bar");
    assert_eq!(names[&3], "baz");
    assert_eq!(names[&4], "qux");
    assert_eq!(names[&5], "last");
    assert_eq!(namer.len(), 6);
    // the entries of the package numbered 0 are passed over
    assert!(!names.values().any(|n| n == "libc6"));
    let mut want = HashMap::new();
    want.insert(1, set(&[2, 3]));
    want.insert(4, set(&[2]));
    assert_eq!(map, want);
}

#[test]
fn loader_drops_the_last_open_entry_and_empty_ones() {
    let (_, map) = load(&["_essential:", "a:", "b:", " - c"]);
    assert!(map.is_empty());
}

#[test]
fn loader_keeps_the_colon_inside_names() {
    let (namer, _) = load(&["x:", "pkg:amd64:"]);
    assert_eq!(namer.reverse()[&1], "pkg:amd64");
}

#[test]
fn loader_refuses_malformed_lines() {
    let loader = Loader::new();
    assert!(!loader.accepts("plain"));
    assert!(!loader.accepts(" -x"));
    assert!(!loader.accepts(""));
    assert!(loader.accepts(" - x"));
    assert!(loader.accepts("x:"));
}

#[test]
fn loader_entries_before_any_header_are_ignored() {
    let (namer, map) = load(&[" - a", "b:", " - c", "d:"]);
    // "b" is numbered 0, so its entries are passed over as well
    assert_eq!(namer.len(), 2);
    let names = namer.reverse();
    assert_eq!(names[&0], "b");
    assert_eq!(names[&1], "d");
    assert!(map.is_empty());
}

#[test]
fn lookups_count_distinct_names() {
    let mut namer = PkgIdLookup::new();
    for name in ["a", "b", "a", "c", "b", "a"].iter() {
        namer.id_of(name);
    }
    assert_eq!(namer.len(), 3);
    assert_eq!(namer.reverse().len(), namer.len());
}
