//! Selecting files by extension.
//!
//! The directory walk hands over a flat list of regular-file paths (as byte
//! strings); this module keeps exactly those whose extension — the bytes
//! after the last dot of the final path component, provided that dot is not
//! the component's first byte — equals the requested one, case-sensitively
//! and in the order the walk produced them.

use vstd::prelude::*;

use crate::Language;

verus! {

/// Helper for [`extension_of`]: scans the path from the end, with `acc` the
/// bytes already seen behind the scan point. The first separator met decides:
/// a `/` means the final component has no dot, a `.` yields the accumulated
/// suffix unless the dot starts the component.
pub open spec fn ext_rec(p: Seq<u8>, acc: Seq<u8>) -> Option<Seq<u8>>
    decreases p.len(),
{
    if p.len() == 0 {
        None
    } else if p.last() == '/' as u8 {
        None
    } else if p.last() == '.' as u8 {
        if p.len() >= 2 && p[p.len() - 2] != '/' as u8 {
            Some(acc)
        } else {
            None
        }
    } else {
        ext_rec(p.drop_last(), seq![p.last()] + acc)
    }
}

/// The extension of a file path: the bytes after the last `.` of the final
/// component, or nothing when that component has no `.`, or only a leading
/// one (a hidden file).
pub open spec fn extension_of(p: Seq<u8>) -> Option<Seq<u8>> {
    ext_rec(p, Seq::empty())
}

/// Whether a path's extension exactly equals the requested one.
pub open spec fn matches_ext(p: Seq<u8>, ext: Seq<u8>) -> bool {
    extension_of(p) == Some(ext)
}

/// Byte-for-byte equality of two slices.
pub fn slice_eq(a: &[u8], b: &[u8]) -> (r: bool)
    ensures
        r == (a@ == b@),
{
    if a.len() != b.len() {
        return false;
    }
    let mut i: usize = 0;
    while i < a.len()
        invariant
            0 <= i <= a@.len() == b@.len(),
            forall|j: int| 0 <= j < i ==> a@[j] == b@[j],
        decreases a@.len() - i,
    {
        if a[i] != b[i] {
            return false;
        }
        i = i + 1;
    }
    proof {
        assert(a@ =~= b@);
    }
    true
}

/// Whether the path's extension exactly equals `ext`.
pub fn has_extension(path: &[u8], ext: &[u8]) -> (r: bool)
    ensures
        r == matches_ext(path@, ext@),
{
    let mut k: usize = path.len();
    proof {
        assert(path@.subrange(0, k as int) =~= path@);
        assert(path@.skip(k as int) =~= Seq::<u8>::empty());
    }
    while k > 0
        invariant
            0 <= k <= path@.len(),
            extension_of(path@) == ext_rec(path@.subrange(0, k as int), path@.skip(k as int)),
        decreases k,
    {
        let b = path[k - 1];
        proof {
            assert(path@.subrange(0, k as int).last() == path@[k as int - 1]);
        }
        if b == '/' as u8 {
            return false;
        } else if b == '.' as u8 {
            if k >= 2 && path[k - 2] != '/' as u8 {
                proof {
                    assert(path@.subrange(0, k as int)[k as int - 2] == path@[k as int - 2]);
                }
                let suffix = vstd::slice::slice_subrange(path, k, path.len());
                proof {
                    assert(suffix@ =~= path@.skip(k as int));
                }
                return slice_eq(suffix, ext);
            } else {
                proof {
                    if k >= 2 {
                        assert(path@.subrange(0, k as int)[k as int - 2] == path@[k as int - 2]);
                    }
                }
                return false;
            }
        }
        proof {
            assert(path@.subrange(0, k as int).drop_last() =~= path@.subrange(0, k as int - 1));
            assert(seq![path@[k as int - 1]] + path@.skip(k as int) =~= path@.skip(k as int - 1));
        }
        k = k - 1;
    }
    proof {
        assert(path@.subrange(0, 0).len() == 0);
    }
    false
}

/// The paths whose extension equals `ext`, in their given order.
pub open spec fn filtered_paths(paths: Seq<Seq<u8>>, ext: Seq<u8>) -> Seq<Seq<u8>>
    decreases paths.len(),
{
    if paths.len() == 0 {
        Seq::empty()
    } else {
        let rest = filtered_paths(paths.drop_last(), ext);
        if matches_ext(paths.last(), ext) {
            rest.push(paths.last())
        } else {
            rest
        }
    }
}

/// The selector keeps exactly the matching paths: every path it returns has
/// the requested extension, and every given path with that extension is
/// returned.
pub proof fn lemma_selector_exact(paths: Seq<Seq<u8>>, ext: Seq<u8>)
    ensures
        forall|j: int|
            0 <= j < filtered_paths(paths, ext).len() ==> matches_ext(
                #[trigger] filtered_paths(paths, ext)[j],
                ext,
            ),
        forall|i: int|
            0 <= i < paths.len() && matches_ext(#[trigger] paths[i], ext) ==> filtered_paths(
                paths,
                ext,
            ).contains(paths[i]),
    decreases paths.len(),
{
    if paths.len() > 0 {
        lemma_selector_exact(paths.drop_last(), ext);
        let rest = filtered_paths(paths.drop_last(), ext);
        assert forall|i: int|
            0 <= i < paths.len() && matches_ext(#[trigger] paths[i], ext) implies filtered_paths(
            paths,
            ext,
        ).contains(paths[i]) by {
            if i < paths.len() - 1 {
                assert(paths.drop_last()[i] == paths[i]);
                let w = choose|w: int|
                    0 <= w < rest.len() && rest[w] == paths[i];
                assert(filtered_paths(paths, ext)[w] == paths[i]);
            } else {
                assert(filtered_paths(paths, ext).last() == paths[i]);
            }
        }
    }
}

/// Keeps the paths of regular files whose extension exactly equals the
/// requested one, in the order the walk listed them.
pub fn get_files_with_extension(paths: &Vec<Vec<u8>>, extension: &[u8]) -> (r: Vec<Vec<u8>>)
    ensures
        r.deep_view() == filtered_paths(paths.deep_view(), extension@),
{
    let ghost dv = paths.deep_view();
    let mut r: Vec<Vec<u8>> = Vec::new();
    let mut i: usize = 0;
    proof {
        assert(dv.subrange(0, 0) =~= Seq::<Seq<u8>>::empty());
        assert(r.deep_view() =~= Seq::<Seq<u8>>::empty());
    }
    while i < paths.len()
        invariant
            0 <= i <= paths@.len(),
            dv == paths.deep_view(),
            dv.len() == paths@.len(),
            r.deep_view() == filtered_paths(dv.subrange(0, i as int), extension@),
        decreases paths@.len() - i,
    {
        let path: &Vec<u8> = &paths[i];
        proof {
            assert(paths@[i as int].deep_view() =~= paths@[i as int]@);
            assert(dv[i as int] == paths@[i as int]@);
            assert(dv.subrange(0, i as int + 1).drop_last() =~= dv.subrange(0, i as int));
            assert(dv.subrange(0, i as int + 1).last() == dv[i as int]);
        }
        let ghost r_old = r.deep_view();
        if has_extension(path.as_slice(), extension) {
            r.push(path.clone());
            proof {
                assert(r.deep_view() =~= r_old.push(dv[i as int]));
            }
        }
        i = i + 1;
    }
    proof {
        assert(dv.subrange(0, dv.len() as int) =~= dv);
    }
    r
}

/// Keeps the paths whose extension is the language's canonical one.
pub fn files_for_language(paths: &Vec<Vec<u8>>, language: &Language) -> (r: Vec<Vec<u8>>)
    ensures
        r.deep_view() == filtered_paths(paths.deep_view(), language.spec_extension_bytes()),
{
    let ext = language.extension_bytes();
    get_files_with_extension(paths, ext.as_slice())
}

} // verus!
