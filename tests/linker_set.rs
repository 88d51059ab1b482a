use std::collections::HashSet;

use linker_set::{
    parse_set_name, section_name, set_entry, start_symbol, stop_symbol, LinkerSet, LinkerSetIter,
    SetNameError,
};

const FOO: u64 = 0x4F202A76B86A7299u64;
const BAR: u64 = 0x560E9309456ACCE0u64;
const BAZ: u64 = 0x6666666666666666u64;

/// The region of the `stuff` set as the linker lays it out: two entries from
/// one unit and a third from another.
fn stuff() -> LinkerSet<u64> {
    let first_unit = vec![FOO, BAR];
    let second_unit = vec![BAZ];
    let mut region = first_unit;
    region.extend(second_unit);
    LinkerSet::new(Box::leak(region.into_boxed_slice()))
}

fn collect<T>(mut iter: LinkerSetIter<T>) -> Vec<&'static T> {
    let mut out = Vec::new();
    while let Some(x) = iter.next() {
        out.push(x);
    }
    out
}

#[derive(Debug, Eq, PartialEq, Hash)]
struct Foo {
    a: u32,
    b: u8,
}

fn aaa() -> LinkerSet<Foo> {
    LinkerSet::new(Box::leak(vec![Foo { a: 1, b: 5 }].into_boxed_slice()))
}

fn require_send<T: Send>(_: T) {}

fn require_sync<T: Sync>(_: T) {}

#[test]
fn test_set_contents() {
    let actual = collect(stuff().iter()).into_iter().collect::<HashSet<_>>();
    let expect = HashSet::from([&FOO, &BAR, &0x6666666666666666]);
    assert_eq!(actual, expect);
}

#[test]
fn test_set_iter_len() {
    const LEN: usize = 3;
    let iter = stuff().iter();
    assert_eq!(iter.len(), LEN);
    assert_eq!(iter.size_hint(), (LEN, Some(LEN)));
    assert_eq!(iter.count(), LEN);
}

#[test]
fn test_into() {
    let mut actual = HashSet::new();
    let mut iter = stuff().into_iter();
    while let Some(i) = iter.next() {
        actual.insert(i);
    }
    let expect = HashSet::from([&FOO, &BAR, &0x6666666666666666]);
    assert_eq!(actual, expect);
}

#[test]
fn test_index() {
    let set = stuff();
    assert_eq!(set.len(), 3);
    let mut actual = HashSet::new();
    for i in 0..set.len() {
        actual.insert(*set.index(i));
    }
    let expect = HashSet::from([FOO, BAR, 0x6666666666666666]);
    assert_eq!(actual, expect);
}

#[test]
fn test_is_empty() {
    assert!(!stuff().is_empty());
}

#[test]
fn test_struct() {
    let actual = collect(aaa().iter()).into_iter().collect::<HashSet<_>>();
    let expect = HashSet::from([&Foo { a: 1, b: 5 }]);
    assert_eq!(actual, expect);
}

#[test]
fn test_traits() {
    require_send(aaa());
    require_sync(aaa());
    require_send(aaa().iter());
}

#[test]
fn test_use() {
    const LEN: usize = 3;
    let iter = stuff().iter();
    assert_eq!(iter.len(), LEN);
}

#[test]
fn length_and_count_agree() {
    let set = stuff();
    assert_eq!(set.len(), 3);
    assert_eq!(set.iter().count(), 3);
    assert_eq!(collect(set.iter()).len(), 3);
}

#[test]
fn two_traversals_hold_the_same_values() {
    let set = stuff();
    let mut first: Vec<u64> = collect(set.iter()).into_iter().copied().collect();
    let mut second: Vec<u64> = collect(set.iter()).into_iter().copied().collect();
    first.sort();
    second.sort();
    assert_eq!(first, second);
    assert_eq!(first, vec![FOO, BAR, BAZ]);
}

#[test]
fn empty_set_has_length_zero() {
    let set: LinkerSet<u64> = LinkerSet::new(&[]);
    assert!(set.is_empty());
    assert_eq!(set.len(), 0);
    let mut iter = set.iter();
    assert_eq!(iter.len(), 0);
    assert!(iter.next().is_none());
    assert!(!stuff().is_empty());
}

#[test]
fn exhaustion_is_permanent() {
    let mut iter = stuff().iter();
    for _ in 0..3 {
        assert!(iter.next().is_some());
    }
    assert!(iter.is_empty());
    assert!(iter.next().is_none());
    assert!(iter.next().is_none());
    assert_eq!(iter.len(), 0);
    assert_eq!(iter.size_hint(), (0, Some(0)));
}

#[test]
fn len_tracks_pulls() {
    let mut iter = stuff().iter();
    assert_eq!(iter.len(), 3);
    iter.next();
    assert_eq!(iter.len(), 2);
    assert_eq!(iter.size_hint(), (2, Some(2)));
}

#[test]
fn index_follows_traversal() {
    let set = stuff();
    let traversal = collect(set.iter());
    for i in 0..set.len() {
        assert_eq!(set.index(i), traversal[i]);
    }
    assert_eq!(*set.index(2), BAZ);
}

#[test]
fn index_range_gives_sub_slice() {
    let set = stuff();
    assert_eq!(set.index_range(1, 3), &[BAR, BAZ]);
    assert_eq!(set.index_range(0, 0), &[] as &[u64]);
}

#[test]
fn nums_scenario() {
    let set = stuff();
    assert_eq!(set.len(), 3);
    let values: HashSet<u64> = collect(set.iter()).into_iter().copied().collect();
    assert_eq!(
        values,
        HashSet::from([0x4F202A76B86A7299, 0x560E9309456ACCE0, 0x6666666666666666])
    );
}

#[test]
fn recs_scenario() {
    let all = collect(aaa().iter());
    assert_eq!(all.len(), 1);
    assert_eq!(*all[0], Foo { a: 1, b: 5 });
}

#[test]
fn iterator_over_region() {
    let region: &'static [u64] = Box::leak(vec![7u64, 9].into_boxed_slice());
    let mut iter = LinkerSetIter::new(region);
    assert_eq!(iter.len(), 2);
    assert_eq!(iter.next(), Some(&7));
    assert_eq!(iter.next(), Some(&9));
    assert_eq!(iter.next(), None);
}

#[test]
fn cloned_handle_sees_same_region() {
    let set = stuff();
    let copy = set.clone();
    assert_eq!(collect(set.iter()), collect(copy.iter()));
}

#[test]
fn section_and_boundary_names() {
    assert_eq!(section_name("stuff"), "set_stuff");
    assert_eq!(start_symbol("stuff"), "__start_set_stuff");
    assert_eq!(stop_symbol("stuff"), "__stop_set_stuff");
    assert_eq!(section_name(""), "set_");
    assert_ne!(section_name("stuff"), section_name("aaa"));
    assert_ne!(start_symbol("stuff"), start_symbol("aaa"));
}

#[test]
fn one_identifier_is_accepted() {
    assert_eq!(parse_set_name("stuff"), Ok("stuff".to_string()));
    assert_eq!(parse_set_name("  recs ,\n"), Ok("recs".to_string()));
    assert_eq!(parse_set_name("_a1"), Ok("_a1".to_string()));
}

#[test]
fn missing_argument_is_refused() {
    assert_eq!(parse_set_name(""), Err(SetNameError::Missing));
    assert_eq!(parse_set_name(" \t"), Err(SetNameError::Missing));
}

#[test]
fn malformed_argument_is_refused() {
    assert_eq!(parse_set_name("a, b"), Err(SetNameError::Malformed));
    assert_eq!(parse_set_name("a b"), Err(SetNameError::Malformed));
    assert_eq!(parse_set_name(","), Err(SetNameError::Malformed));
    assert_eq!(parse_set_name("a,,"), Err(SetNameError::Malformed));
    assert_eq!(parse_set_name("1a"), Err(SetNameError::Malformed));
    assert_eq!(parse_set_name("_"), Err(SetNameError::Malformed));
}

#[test]
fn entry_goes_to_its_set_section() {
    assert_eq!(set_entry("stuff"), Ok("set_stuff".to_string()));
    assert_eq!(set_entry(" aaa, "), Ok("set_aaa".to_string()));
    assert_eq!(set_entry(""), Err(SetNameError::Missing));
    assert_eq!(set_entry("a, b"), Err(SetNameError::Malformed));
}
