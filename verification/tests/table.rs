//! The symbol table: deduplication, stable identifiers, chain
//! ordering, round trips, predefined built-ins, and capacity
//! exhaustion.

use bibtex_core::builtins::{pre_def_certain_strings, predefined_list, NUM_PREDEFINED};
use bibtex_core::kinds::HashExtra;
use bibtex_core::table::{InternError, SymbolTable};

fn fresh(capacity: usize) -> SymbolTable {
    SymbolTable::new(capacity).expect("the planner finds a prime")
}

#[test]
fn distinct_strings_distinct_ids() {
    let mut t = fresh(5000);
    let a = t.intern(&b"alpha".to_vec(), HashExtra::Text, true).unwrap();
    let b = t.intern(&b"beta".to_vec(), HashExtra::Text, true).unwrap();
    assert!(!a.exists);
    assert!(!b.exists);
    assert_ne!(a.loc, b.loc);
}

#[test]
fn reinterning_returns_the_original_id() {
    let mut t = fresh(5000);
    let first = t.intern(&b"gamma".to_vec(), HashExtra::Text, true).unwrap();
    assert!(!first.exists);
    let again = t.intern(&b"gamma".to_vec(), HashExtra::Text, true).unwrap();
    assert!(again.exists);
    assert_eq!(again.loc, first.loc);
}

#[test]
fn a_kind_never_changes_after_creation() {
    // re-interning under another kind finds the entry and leaves the
    // stored kind alone: kind identity is the caller's discipline
    let mut t = fresh(5000);
    let first = t.intern(&b"zeta".to_vec(), HashExtra::Text, true).unwrap();
    let again = t
        .intern(&b"zeta".to_vec(), HashExtra::Integer(9), true)
        .unwrap();
    assert!(again.exists);
    assert_eq!(again.loc, first.loc);
    let (_, kind) = t.resolve(first.loc);
    assert_eq!(kind, HashExtra::Text);
}

#[test]
fn pure_lookup_does_not_insert() {
    let mut t = fresh(5000);
    let missing = t.intern(&b"delta".to_vec(), HashExtra::Text, false).unwrap();
    assert!(!missing.exists);
    // still absent afterwards
    let still = t.intern(&b"delta".to_vec(), HashExtra::Text, false).unwrap();
    assert!(!still.exists);
}

#[test]
fn chain_ordering_keeps_older_entries() {
    // capacity 5000 gives the prime 4253; the single byte 0 and the
    // five bytes below both hash to 0, so the two strings share one
    // bucket and the second chains behind the first
    let mut t = fresh(5000);
    let a_bytes = vec![0u8];
    let b_bytes = vec![255u8, 21, 0, 2, 1];
    assert_eq!(t.prime(), 4253);
    let a = t.intern(&a_bytes, HashExtra::Text, true).unwrap();
    let b = t.intern(&b_bytes, HashExtra::Text, true).unwrap();
    assert!(!a.exists);
    assert!(!b.exists);
    assert_ne!(a.loc, b.loc);
    // the older entry is still the one found
    let a_again = t.intern(&a_bytes, HashExtra::Text, true).unwrap();
    assert!(a_again.exists);
    assert_eq!(a_again.loc, a.loc);
    let b_again = t.intern(&b_bytes, HashExtra::Text, false).unwrap();
    assert!(b_again.exists);
    assert_eq!(b_again.loc, b.loc);
}

#[test]
fn resolve_round_trip() {
    let mut t = fresh(5000);
    let res = t
        .intern(&b"epsilon".to_vec(), HashExtra::Macro(7), true)
        .unwrap();
    let (bytes, kind) = t.resolve(res.loc);
    assert_eq!(bytes.as_slice(), b"epsilon");
    assert_eq!(kind, HashExtra::Macro(7));
}

#[test]
fn identifiers_count_up_from_the_table_base() {
    let mut t = fresh(5000);
    let base = t.len();
    let a = t.intern(&b"one".to_vec(), HashExtra::Text, true).unwrap();
    let b = t.intern(&b"two".to_vec(), HashExtra::Text, true).unwrap();
    assert_eq!(a.loc, base);
    assert_eq!(b.loc, base + 1);
    assert_eq!(t.len(), base + 2);
}

#[test]
fn predefined_builtins_are_present_and_stable() {
    let mut t1 = fresh(5000);
    let mut t2 = fresh(5000);
    pre_def_certain_strings(&mut t1, &predefined_list()).unwrap();
    pre_def_certain_strings(&mut t2, &predefined_list()).unwrap();
    assert_eq!(predefined_list().len(), NUM_PREDEFINED);
    for (bytes, _kind) in predefined_list() {
        let r1 = t1.intern(&bytes, HashExtra::Text, false).unwrap();
        let r2 = t2.intern(&bytes, HashExtra::Text, false).unwrap();
        assert!(r1.exists, "missing builtin {:?}", String::from_utf8_lossy(&bytes));
        assert_eq!(r1.loc, r2.loc, "unstable id for {:?}", String::from_utf8_lossy(&bytes));
    }
    // the fixed order starts at the lowest identifiers: the first
    // two predefined strings sit just past the head slots
    let first = t1
        .intern(&b"\\bibdata".to_vec(), HashExtra::Text, false)
        .unwrap();
    assert!(first.exists);
    assert_eq!(first.loc, 5001);
    let second = t1
        .intern(&b"\\bibstyle".to_vec(), HashExtra::Text, false)
        .unwrap();
    assert!(second.exists);
    assert_eq!(second.loc, 5002);
    // a known builtin resolves to its own bytes and role
    let w = t1.intern(&b"write$".to_vec(), HashExtra::Text, false).unwrap();
    assert!(w.exists);
    let (bytes, kind) = t1.resolve(w.loc);
    assert_eq!(bytes.as_slice(), b"write$");
    assert!(matches!(kind, HashExtra::BstFn(_)));
}

#[test]
fn capacity_exhaustion_is_reported() {
    let mut t = fresh(2);
    t.intern(&b"a".to_vec(), HashExtra::Text, true).unwrap();
    t.intern(&b"b".to_vec(), HashExtra::Text, true).unwrap();
    let full = t.intern(&b"c".to_vec(), HashExtra::Text, true);
    assert_eq!(full, Err(InternError::CapacityExceeded));
    // the full table still answers lookups
    let b = t.intern(&b"b".to_vec(), HashExtra::Text, true).unwrap();
    assert!(b.exists);
}
