//! Output-channel naming: the run's files are the control file's
//! name with its fixed four-byte extension replaced. This is pure
//! byte-suffix replacement, never a path operation.

use vstd::prelude::*;

verus! {

/// The length of every recognized extension, the leading dot
/// included.
pub const EXTENSION_LEN: usize = 4;

/// `name` with its last four bytes replaced by `ext`.
pub fn derive_sibling_name(name: &Vec<u8>, ext: &Vec<u8>) -> (r: Vec<u8>)
    requires
        name@.len() >= EXTENSION_LEN as int,
    ensures
        r@ == name@.subrange(0, name@.len() - EXTENSION_LEN as int) + ext@,
{
    let stem_len = name.len() - EXTENSION_LEN;
    let mut r: Vec<u8> = Vec::new();
    let mut i: usize = 0;
    while i < stem_len
        invariant
            stem_len as int == name@.len() - EXTENSION_LEN as int,
            i <= stem_len,
            r@ == name@.subrange(0, i as int),
        decreases stem_len - i,
    {
        r.push(name[i]);
        proof {
            assert(r@ =~= name@.subrange(0, i as int + 1));
        }
        i += 1;
    }
    let mut j: usize = 0;
    while j < ext.len()
        invariant
            stem_len as int == name@.len() - EXTENSION_LEN as int,
            j <= ext@.len(),
            r@ == name@.subrange(0, stem_len as int) + ext@.subrange(0, j as int),
        decreases ext@.len() - j,
    {
        r.push(ext[j]);
        proof {
            assert(r@ =~= name@.subrange(0, stem_len as int) + ext@.subrange(0, j as int + 1));
        }
        j += 1;
    }
    proof {
        assert(ext@.subrange(0, ext@.len() as int) =~= ext@);
    }
    r
}

/// `base` followed by `ext`: how the top-level control file's name
/// is built from a user-supplied base name.
pub fn append_extension(base: &Vec<u8>, ext: &Vec<u8>) -> (r: Vec<u8>)
    ensures
        r@ == base@ + ext@,
{
    let mut r: Vec<u8> = Vec::new();
    let mut i: usize = 0;
    while i < base.len()
        invariant
            i <= base@.len(),
            r@ == base@.subrange(0, i as int),
        decreases base@.len() - i,
    {
        r.push(base[i]);
        proof {
            assert(r@ =~= base@.subrange(0, i as int + 1));
        }
        i += 1;
    }
    let mut j: usize = 0;
    while j < ext.len()
        invariant
            j <= ext@.len(),
            r@ == base@.subrange(0, base@.len() as int) + ext@.subrange(0, j as int),
        decreases ext@.len() - j,
    {
        r.push(ext[j]);
        proof {
            assert(r@ =~= base@.subrange(0, base@.len() as int) + ext@.subrange(0, j as int + 1));
        }
        j += 1;
    }
    proof {
        assert(base@.subrange(0, base@.len() as int) =~= base@);
        assert(ext@.subrange(0, ext@.len() as int) =~= ext@);
        assert(base@.subrange(0, base@.len() as int) + ext@.subrange(0, ext@.len() as int) =~= base@
            + ext@);
    }
    r
}

/// The control-file extension.
pub fn control_extension() -> (r: Vec<u8>)
    ensures
        r@ == seq![46u8, 97u8, 117u8, 120u8],
{
    let mut v: Vec<u8> = Vec::new();
    v.push(46u8);
    v.push(97u8);
    v.push(117u8);
    v.push(120u8);
    proof {
        assert(v@ =~= seq![46u8, 97u8, 117u8, 120u8]);
    }
    v
}

/// The log-channel extension.
pub fn log_extension() -> (r: Vec<u8>)
    ensures
        r@ == seq![46u8, 98u8, 108u8, 103u8],
{
    let mut v: Vec<u8> = Vec::new();
    v.push(46u8);
    v.push(98u8);
    v.push(108u8);
    v.push(103u8);
    proof {
        assert(v@ =~= seq![46u8, 98u8, 108u8, 103u8]);
    }
    v
}

/// The transcript-channel extension.
pub fn transcript_extension() -> (r: Vec<u8>)
    ensures
        r@ == seq![46u8, 98u8, 98u8, 108u8],
{
    let mut v: Vec<u8> = Vec::new();
    v.push(46u8);
    v.push(98u8);
    v.push(98u8);
    v.push(108u8);
    proof {
        assert(v@ =~= seq![46u8, 98u8, 98u8, 108u8]);
    }
    v
}

} // verus!
