//! File naming is pure byte-suffix replacement.

use bibtex_core::naming::{
    append_extension, control_extension, derive_sibling_name, log_extension,
    transcript_extension,
};

#[test]
fn extensions() {
    assert_eq!(control_extension(), b".aux".to_vec());
    assert_eq!(log_extension(), b".blg".to_vec());
    assert_eq!(transcript_extension(), b".bbl".to_vec());
}

#[test]
fn sibling_names() {
    let name = b"paper.aux".to_vec();
    assert_eq!(
        derive_sibling_name(&name, &log_extension()),
        b"paper.blg".to_vec()
    );
    assert_eq!(
        derive_sibling_name(&name, &transcript_extension()),
        b"paper.bbl".to_vec()
    );
    // not a path operation: dots elsewhere are untouched
    let odd = b"a.b/c.d.aux".to_vec();
    assert_eq!(
        derive_sibling_name(&odd, &log_extension()),
        b"a.b/c.d.blg".to_vec()
    );
}

#[test]
fn base_plus_extension() {
    assert_eq!(
        append_extension(&b"paper".to_vec(), &control_extension()),
        b"paper.aux".to_vec()
    );
}
