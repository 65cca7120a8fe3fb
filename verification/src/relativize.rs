use vstd::prelude::*;

use crate::path::{clone_bytes, empty_path_view, seg_views, FsPath, PathView};

verus! {

/// The byte string of a parent-directory component.
pub open spec fn dotdot_seg() -> Seq<u8> {
    seq![46u8, 46u8]
}

/// True when some component of the path, root marker included, is a
/// parent-directory component.
pub open spec fn has_parent_refs(p: PathView) -> bool {
    p.root == Some(dotdot_seg()) || exists|i: int|
        0 <= i < p.segments.len() && p.segments[i] == dotdot_seg()
}

/// How many leading components the two sequences share.
pub open spec fn shared_len(a: Seq<Seq<u8>>, b: Seq<Seq<u8>>) -> nat
    decreases a.len(),
{
    if a.len() == 0 || b.len() == 0 || a[0] != b[0] {
        0
    } else {
        (1 + shared_len(a.skip(1), b.skip(1))) as nat
    }
}

/// The shared lead is no longer than either sequence, matches on both sides
/// throughout, and is maximal: the components right after it differ.
pub proof fn lemma_shared_len(a: Seq<Seq<u8>>, b: Seq<Seq<u8>>)
    ensures
        shared_len(a, b) <= a.len(),
        shared_len(a, b) <= b.len(),
        forall|i: int| 0 <= i < shared_len(a, b) ==> a[i] == b[i],
        shared_len(a, b) < a.len() && shared_len(a, b) < b.len() ==> a[shared_len(a, b) as int]
            != b[shared_len(a, b) as int],
    decreases a.len(),
{
    if !(a.len() == 0 || b.len() == 0 || a[0] != b[0]) {
        lemma_shared_len(a.skip(1), b.skip(1));
        let sl = shared_len(a, b) as int;
        assert forall|i: int| 0 <= i < sl implies a[i] == b[i] by {
            if i > 0 {
                assert(a.skip(1)[i - 1] == b.skip(1)[i - 1]);
            }
        }
        if sl < a.len() && sl < b.len() {
            assert(a.skip(1)[sl - 1] != b.skip(1)[sl - 1]);
        }
    }
}

fn dotdot_bytes() -> (r: Vec<u8>)
    ensures
        r@ == dotdot_seg(),
{
    let mut r: Vec<u8> = Vec::new();
    r.push(46u8);
    r.push(46u8);
    proof {
        assert(r@ =~= dotdot_seg());
    }
    r
}

/// True when any component of the path is a parent-directory (`..`) component.
/// Such components make the shared-root computation and the relative
/// reconstruction unsound, so relativization refuses the path as a whole.
pub fn path_contains_intermediate_components(path: &FsPath) -> (r: bool)
    ensures
        r == has_parent_refs(path@),
{
    let dd = dotdot_bytes();
    match &path.root {
        Some(m) => {
            if *m == dd {
                proof {
                    assert(path@.root == Some(dotdot_seg()));
                }
                return true;
            }
        },
        None => {},
    }
    let mut i: usize = 0;
    while i < path.segments.len()
        invariant
            i <= path.segments.len(),
            dd@ == dotdot_seg(),
            forall|j: int| 0 <= j < i ==> path@.segments[j] != dotdot_seg(),
        decreases path.segments.len() - i,
    {
        if path.segments[i] == dd {
            proof {
                assert(path@.segments[i as int] == dotdot_seg());
            }
            return true;
        }
        i = i + 1;
    }
    false
}

/// The longest shared lead of the two paths, component by component from the
/// left: the empty path when their root markers differ, else their common root
/// marker followed by the components both begin with.
pub fn shared_root(left: &FsPath, right: &FsPath) -> (r: FsPath)
    ensures
        left@.root != right@.root ==> r@ == empty_path_view(),
        left@.root == right@.root ==> r@.root == left@.root && r@.segments == left@.segments.take(
            shared_len(left@.segments, right@.segments) as int,
        ),
{
    let roots_match = match (&left.root, &right.root) {
        (Some(x), Some(y)) => {
            let e = *x == *y;
            proof {
                if e {
                    assert(x@ =~= y@);
                }
            }
            e
        },
        (None, None) => true,
        _ => false,
    };
    if !roots_match {
        let r = FsPath { root: None, segments: Vec::new() };
        proof {
            assert(r@ =~~= empty_path_view());
        }
        return r;
    }
    proof {
        assert(left@.root == right@.root);
    }
    let root = match &left.root {
        Some(m) => Some(clone_bytes(m)),
        None => None,
    };
    let mut out: Vec<Vec<u8>> = Vec::new();
    let mut i: usize = 0;
    while i < left.segments.len() && i < right.segments.len() && left.segments[i]
        == right.segments[i]
        invariant
            i <= left.segments.len(),
            i <= right.segments.len(),
            forall|j: int| 0 <= j < i ==> left@.segments[j] == right@.segments[j],
            out@.len() == i,
            forall|j: int| 0 <= j < i ==> out@[j]@ == left@.segments[j],
        decreases left.segments.len() - i,
    {
        out.push(clone_bytes(&left.segments[i]));
        i = i + 1;
    }
    proof {
        let a = left@.segments;
        let b = right@.segments;
        lemma_shared_len(a, b);
        if i < left.segments.len() && i < right.segments.len() {
            assert(a[i as int] != b[i as int]);
        }
        assert(shared_len(a, b) == i) by {
            if shared_len(a, b) < i {
                assert(a[shared_len(a, b) as int] == b[shared_len(a, b) as int]);
            }
        }
    }
    let r = FsPath { root, segments: out };
    proof {
        assert(r@.root == left@.root);
        assert(r@.segments =~~= left@.segments.take(
            shared_len(left@.segments, right@.segments) as int,
        ));
    }
    r
}

/// True when relativization is attempted at all: the build output root is not
/// externally redirected, both paths are absolute, and neither contains a
/// parent-directory component.
pub open spec fn relativization_applies(redirected: bool, o: PathView, l: PathView) -> bool {
    !redirected && o.root is Some && l.root is Some && !has_parent_refs(o) && !has_parent_refs(l)
}

/// A run of parent-directory components.
pub open spec fn ups(k: int) -> Seq<Seq<u8>> {
    Seq::new(
        if k >= 0 {
            k as nat
        } else {
            0
        },
        |i: int| dotdot_seg(),
    )
}

/// The link target that relativization computes: the source unchanged when
/// relativization does not apply or the paths share no root, and otherwise the
/// relative path that climbs from the destination's parent up to the shared
/// root and descends to the source: one parent component for every component
/// of the destination's parent below the shared root, then the source's
/// components beyond the shared root.
pub open spec fn relative_target(redirected: bool, o: PathView, l: PathView) -> PathView {
    if !relativization_applies(redirected, o, l) {
        o
    } else if o.root != l.root {
        o
    } else {
        let n = shared_len(o.segments, l.segments) as int;
        PathView { root: None, segments: ups(l.segments.len() - 1 - n) + o.segments.skip(n) }
    }
}

/// The best link target for a symbolic link at `link` pointing at `original`:
/// relative when that is safe, the absolute source unchanged otherwise.
/// `redirected` is the configuration signal that the build output root is
/// externally redirected and so need not share a semantic parent with the
/// source tree.
pub fn best_effort_relativize_symlink(redirected: bool, original: &FsPath, link: &FsPath) -> (r:
    FsPath)
    requires
        relativization_applies(redirected, original@, link@) && original@.root == link@.root
            ==> shared_len(original@.segments, link@.segments) < link@.segments.len(),
    ensures
        r@ == relative_target(redirected, original@, link@),
{
    if redirected || !original.is_absolute() || !link.is_absolute()
        || path_contains_intermediate_components(original) || path_contains_intermediate_components(
        link,
    ) {
        return original.clone();
    }
    let root = shared_root(original, link);
    if root.is_empty_path() {
        proof {
            assert(original@.root != link@.root);
        }
        return original.clone();
    }
    proof {
        assert(original@.root == link@.root);
        assert(relativization_applies(redirected, original@, link@));
        lemma_shared_len(original@.segments, link@.segments);
    }
    let n = root.segments.len();
    proof {
        assert(n == root@.segments.len());
        assert(n == shared_len(original@.segments, link@.segments));
        assert(link@.segments.len() == link.segments@.len());
    }
    let k = link.segments.len() - 1 - n;
    let mut segments: Vec<Vec<u8>> = Vec::new();
    let mut i: usize = 0;
    while i < k
        invariant
            i <= k,
            segments@.len() == i,
            forall|j: int| 0 <= j < i ==> segments@[j]@ == dotdot_seg(),
        decreases k - i,
    {
        segments.push(dotdot_bytes());
        i = i + 1;
    }
    let mut m: usize = n;
    while m < original.segments.len()
        invariant
            n <= m <= original.segments.len(),
            segments@.len() == k + m - n,
            forall|j: int| 0 <= j < k ==> segments@[j]@ == dotdot_seg(),
            forall|j: int| k <= j < k + m - n ==> segments@[j]@ == original@.segments[j - k + n],
        decreases original.segments.len() - m,
    {
        segments.push(clone_bytes(&original.segments[m]));
        m = m + 1;
    }
    let r = FsPath { root: None, segments };
    proof {
        assert(r@.segments =~~= ups(link@.segments.len() - 1 - n) + original@.segments.skip(
            n as int,
        ));
        assert(r@ =~~= relative_target(redirected, original@, link@));
    }
    r
}

/// Relativization refuses any pair in which either path carries a
/// parent-directory component: the source comes back unchanged.
pub proof fn lemma_parent_component_refusal(redirected: bool, o: PathView, l: PathView)
    requires
        has_parent_refs(o) || has_parent_refs(l),
    ensures
        relative_target(redirected, o, l) == o,
{
}

/// Relativization refuses two absolute paths whose root markers differ, such
/// as paths on different volumes of a volume-qualified platform: the source
/// comes back unchanged.
pub proof fn lemma_unrelated_roots_refusal(redirected: bool, o: PathView, l: PathView)
    requires
        o.root != l.root,
    ensures
        relative_target(redirected, o, l) == o,
{
}

/// What a relative path names when read from a base directory: a
/// parent-directory component climbs to the base's parent, every other
/// component descends into the named entry.
pub open spec fn resolve(base: PathView, rel: Seq<Seq<u8>>) -> PathView
    decreases rel.len(),
{
    if rel.len() == 0 {
        base
    } else if rel[0] == dotdot_seg() {
        resolve(
            PathView { root: base.root, segments: base.segments.drop_last() },
            rel.skip(1),
        )
    } else {
        resolve(
            PathView { root: base.root, segments: base.segments.push(rel[0]) },
            rel.skip(1),
        )
    }
}

proof fn lemma_resolve_ups(base: PathView, k: int, rest: Seq<Seq<u8>>)
    requires
        0 <= k <= base.segments.len(),
    ensures
        resolve(base, ups(k) + rest) == resolve(
            PathView { root: base.root, segments: base.segments.take(base.segments.len() - k) },
            rest,
        ),
    decreases k,
{
    if k == 0 {
        assert(ups(0) + rest =~= rest);
        assert(PathView { root: base.root, segments: base.segments.take(base.segments.len() - 0) }
            =~~= base);
    } else {
        assert((ups(k) + rest)[0] == dotdot_seg());
        assert((ups(k) + rest).skip(1) =~~= ups(k - 1) + rest);
        let popped = PathView { root: base.root, segments: base.segments.drop_last() };
        lemma_resolve_ups(popped, k - 1, rest);
        assert(popped.segments.take(popped.segments.len() - (k - 1)) =~~= base.segments.take(
            base.segments.len() - k,
        ));
    }
}

proof fn lemma_resolve_descend(base: PathView, rest: Seq<Seq<u8>>)
    requires
        forall|i: int| 0 <= i < rest.len() ==> rest[i] != dotdot_seg(),
    ensures
        resolve(base, rest) == (PathView { root: base.root, segments: base.segments + rest }),
    decreases rest.len(),
{
    if rest.len() == 0 {
        assert(PathView { root: base.root, segments: base.segments + rest } =~~= base);
    } else {
        let stepped = PathView { root: base.root, segments: base.segments.push(rest[0]) };
        assert forall|i: int| 0 <= i < rest.skip(1).len() implies rest.skip(1)[i]
            != dotdot_seg() by {
            assert(rest.skip(1)[i] == rest[i + 1]);
        }
        lemma_resolve_descend(stepped, rest.skip(1));
        assert(stepped.segments + rest.skip(1) =~~= base.segments + rest);
    }
}

/// Relativization correctness: when relativization applies and the two paths
/// share their root, the computed relative target, read from the
/// destination's parent directory, leads exactly to the source. Relocating
/// the shared ancestor moves the destination and the source together, so the
/// link keeps resolving to the source.
pub proof fn lemma_relative_target_resolves(redirected: bool, o: PathView, l: PathView)
    requires
        relativization_applies(redirected, o, l),
        o.root == l.root,
        shared_len(o.segments, l.segments) < l.segments.len(),
    ensures
        resolve(
            PathView { root: l.root, segments: l.segments.drop_last() },
            relative_target(redirected, o, l).segments,
        ) == o,
{
    let n = shared_len(o.segments, l.segments) as int;
    let k = l.segments.len() - 1 - n;
    let tail = o.segments.skip(n);
    lemma_shared_len(o.segments, l.segments);
    let base = PathView { root: l.root, segments: l.segments.drop_last() };
    lemma_resolve_ups(base, k, tail);
    let landed = PathView {
        root: l.root,
        segments: base.segments.take(base.segments.len() - k),
    };
    assert(landed.segments =~~= o.segments.take(n)) by {
        assert forall|i: int| 0 <= i < n implies base.segments.take(base.segments.len() - k)[i]
            == o.segments[i] by {
            assert(l.segments[i] == o.segments[i]);
        }
    }
    assert forall|i: int| 0 <= i < tail.len() implies tail[i] != dotdot_seg() by {
        assert(tail[i] == o.segments[i + n]);
    }
    lemma_resolve_descend(landed, tail);
    assert(o.segments.take(n) + tail =~~= o.segments);
    assert(PathView { root: landed.root, segments: landed.segments + tail } =~~= o);
}

/// When relativization applies and the paths share their root, the computed
/// target is relative: it has no root marker, climbs with one parent component
/// for every component of the destination's parent that lies below the shared
/// root, and then holds exactly the source's components beyond the shared
/// root.
pub proof fn lemma_relative_shape(redirected: bool, o: PathView, l: PathView)
    requires
        relativization_applies(redirected, o, l),
        o.root == l.root,
        shared_len(o.segments, l.segments) < l.segments.len(),
    ensures
        relative_target(redirected, o, l).root is None,
        relative_target(redirected, o, l).segments == ups(
            l.segments.len() - 1 - shared_len(o.segments, l.segments),
        ) + o.segments.skip(shared_len(o.segments, l.segments) as int),
{
}

} // verus!
