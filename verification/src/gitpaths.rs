//! The change detector's path logic: whether any path a diff reports lies
//! under a project's root, by structural component comparison — `foo-bar`
//! does not lie under `foo`.  The version-control reads themselves happen
//! outside; this module decides over the path lists they hand back.

use vstd::prelude::*;
use vstd::utf8::encode_utf8;

use crate::bytes::{bytes_eq, spec_split, split_bytes};

verus! {

/// A lone `.` piece.
pub open spec fn dot_piece() -> Seq<u8> {
    seq![46u8]
}

/// The `/`-separated components of a path, normalized as path components
/// are: empty pieces and interior `.` pieces are dropped, while a leading
/// `.` is kept — so `a/./b` lies under `a/b`, but `./x` does not lie
/// under `x`.
pub open spec fn spec_components(p: Seq<u8>) -> Seq<Seq<u8>> {
    let pieces = spec_split(p, 47);
    if pieces.len() > 0 && pieces[0] == dot_piece() {
        seq![dot_piece()] + spec_normal(pieces.drop_first())
    } else {
        spec_normal(pieces)
    }
}

/// The pieces with empty and `.` entries dropped.
pub open spec fn spec_normal(pieces: Seq<Seq<u8>>) -> Seq<Seq<u8>>
    decreases pieces.len(),
{
    if pieces.len() == 0 {
        Seq::<Seq<u8>>::empty()
    } else if pieces[0].len() > 0 && pieces[0] != dot_piece() {
        seq![pieces[0]] + spec_normal(pieces.drop_first())
    } else {
        spec_normal(pieces.drop_first())
    }
}

/// `path` lies under `root`: `root`'s components are a prefix of `path`'s.
pub open spec fn spec_under_root(path: Seq<u8>, root: Seq<u8>) -> bool {
    let pc = spec_components(path);
    let rc = spec_components(root);
    rc.len() <= pc.len() && forall|j: int| 0 <= j < rc.len() ==> pc[j] == rc[j]
}

/// Some reported path lies under `root`.
pub open spec fn spec_any_under_root(paths: Seq<Seq<char>>, root: Seq<char>) -> bool {
    exists|i: int|
        0 <= i < paths.len() && spec_under_root(
            encode_utf8(#[trigger] paths[i]),
            encode_utf8(root),
        )
}

fn normal_from(pieces: &Vec<Vec<u8>>, j: usize) -> (r: Vec<Vec<u8>>)
    requires
        j <= pieces.len(),
    ensures
        r.deep_view() == spec_normal(pieces.deep_view().skip(j as int)),
    decreases pieces.len() - j,
{
    if j == pieces.len() {
        proof {
            assert(pieces.deep_view().skip(j as int) =~= Seq::<Seq<u8>>::empty());
        }
        return Vec::new();
    }
    proof {
        assert(pieces.deep_view().skip(j as int)[0] == pieces.deep_view()[j as int]);
        assert(pieces.deep_view()[j as int] == pieces@[j as int]@);
        assert(pieces.deep_view().skip(j as int).drop_first() =~= pieces.deep_view().skip(
            j as int + 1,
        ));
    }
    let mut rest = normal_from(pieces, j + 1);
    let keep = pieces[j].len() > 0 && !(pieces[j].len() == 1 && pieces[j][0] == 46);
    proof {
        assert(keep == (pieces@[j as int]@.len() > 0 && pieces@[j as int]@ != dot_piece())) by {
            if pieces@[j as int]@.len() == 1 && pieces@[j as int]@[0] == 46 {
                assert(pieces@[j as int]@ =~= dot_piece());
            }
            if pieces@[j as int]@ == dot_piece() {
                assert(pieces@[j as int]@.len() == 1 && pieces@[j as int]@[0] == 46);
            }
        }
    }
    if keep {
        let head = crate::bytes::sub_bytes(pieces[j].as_slice(), 0, pieces[j].len());
        proof {
            assert(head@ =~= pieces@[j as int]@);
        }
        let ghost rest_dv = rest.deep_view();
        rest.insert(0, head);
        proof {
            assert(rest.deep_view() =~= seq![pieces@[j as int]@] + rest_dv);
        }
    }
    rest
}

/// The path's normalized components.
pub fn components(p: &[u8]) -> (r: Vec<Vec<u8>>)
    ensures
        r.deep_view() == spec_components(p@),
{
    let pieces = split_bytes(p, 47);
    proof {
        assert(pieces.deep_view().skip(0) =~= pieces.deep_view());
    }
    let leading_dot = pieces.len() > 0 && pieces[0].len() == 1 && pieces[0][0] == 46;
    proof {
        if pieces@.len() > 0 {
            assert(pieces.deep_view()[0] == pieces@[0]@);
            if pieces@[0]@.len() == 1 && pieces@[0]@[0] == 46 {
                assert(pieces@[0]@ =~= dot_piece());
            }
            if pieces@[0]@ == dot_piece() {
                assert(pieces@[0]@.len() == 1 && pieces@[0]@[0] == 46);
            }
        }
    }
    if leading_dot {
        let rest = normal_from(&pieces, 1);
        let mut dot: Vec<u8> = Vec::new();
        dot.push(46);
        proof {
            assert(dot@ =~= dot_piece());
            assert(pieces.deep_view().skip(1) =~= pieces.deep_view().drop_first());
        }
        let mut r = rest;
        let ghost rest_dv = r.deep_view();
        r.insert(0, dot);
        proof {
            assert(r.deep_view() =~= seq![dot_piece()] + rest_dv);
        }
        r
    } else {
        normal_from(&pieces, 0)
    }
}

/// Whether `path` lies under `root`, structurally.
pub fn under_root(path: &[u8], root: &[u8]) -> (r: bool)
    ensures
        r == spec_under_root(path@, root@),
{
    let pc = components(path);
    let rc = components(root);
    if rc.len() > pc.len() {
        return false;
    }
    let mut j: usize = 0;
    while j < rc.len()
        invariant
            j <= rc.len() <= pc.len(),
            pc.deep_view() == spec_components(path@),
            rc.deep_view() == spec_components(root@),
            forall|t: int|
                0 <= t < j ==> spec_components(path@)[t] == spec_components(root@)[t],
        decreases rc.len() - j,
    {
        proof {
            assert(pc.deep_view()[j as int] == pc@[j as int]@);
            assert(rc.deep_view()[j as int] == rc@[j as int]@);
        }
        if !bytes_eq(pc[j].as_slice(), rc[j].as_slice()) {
            return false;
        }
        j += 1;
    }
    true
}

/// Whether any of the changed paths lies under the project root: the
/// change detector's verdict over a diff's path list.
pub fn any_path_under_root(paths: &Vec<String>, root: &str) -> (r: bool)
    ensures
        r == spec_any_under_root(paths.deep_view(), root@),
{
    let root_bytes = crate::strutil::str_to_bytes(root);
    let mut i: usize = 0;
    while i < paths.len()
        invariant
            i <= paths.len(),
            root_bytes@ == encode_utf8(root@),
            forall|t: int|
                0 <= t < i ==> !spec_under_root(
                    encode_utf8(#[trigger] paths.deep_view()[t]),
                    encode_utf8(root@),
                ),
        decreases paths.len() - i,
    {
        let pb = crate::strutil::str_to_bytes(paths[i].as_str());
        proof {
            assert(paths.deep_view()[i as int] == paths@[i as int]@);
        }
        if under_root(pb.as_slice(), root_bytes.as_slice()) {
            return true;
        }
        i += 1;
    }
    false
}

/// The release-due rule: a release is due when forced, or when some
/// tracked path changed since the commit that set the current version.
pub fn release_due(force: bool, changed: bool) -> (r: bool)
    ensures
        r == (force || changed),
{
    force || changed
}

} // verus!
