//! The string pool: append-only storage with stable identifiers.

use bibtex_core::pool::StringPool;

#[test]
fn append_and_get() {
    let mut p = StringPool::new();
    assert_eq!(p.len(), 0);
    let a = p.append(&b"first".to_vec());
    let b = p.append(&b"second".to_vec());
    assert_eq!(a, 1);
    assert_eq!(b, 2);
    assert_eq!(p.len(), 2);
    assert_eq!(p.get(a).as_slice(), b"first");
    assert_eq!(p.get(b).as_slice(), b"second");
}

#[test]
fn stored_strings_are_final() {
    let mut p = StringPool::new();
    let a = p.append(&b"keep".to_vec());
    for i in 0..100u32 {
        p.append(&i.to_be_bytes().to_vec());
    }
    assert_eq!(p.get(a).as_slice(), b"keep");
}
