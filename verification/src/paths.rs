//! Request-path splitting and traversal safety.
//!
//! A request path is untrusted text. It is split on the separator into
//! segments, and it may be joined onto the anchor directory only when no
//! segment is the parent segment `..`. The depth model at the bottom of the
//! file states why that check is enough: a walk over the segments of a safe
//! path never climbs above the directory it starts in.

use vstd::prelude::*;
use crate::{DOT, SLASH};

verus! {

/// The segments of a path, split on the separator. An empty path has one
/// empty segment; a separator at either end contributes an empty segment.
pub open spec fn segments_of(p: Seq<u8>) -> Seq<Seq<u8>>
    decreases p.len(),
{
    if p.len() == 0 {
        seq![Seq::<u8>::empty()]
    } else if p[0] == SLASH {
        seq![Seq::<u8>::empty()] + segments_of(p.skip(1))
    } else {
        let rest = segments_of(p.skip(1));
        seq![seq![p[0]] + rest[0]] + rest.skip(1)
    }
}

/// A path always has at least one segment.
pub proof fn lemma_segments_nonempty(p: Seq<u8>)
    ensures
        segments_of(p).len() >= 1,
    decreases p.len(),
{
    if p.len() == 0 {
    } else if p[0] == SLASH {
    } else {
        lemma_segments_nonempty(p.skip(1));
    }
}

/// Appending one byte extends the segment list on the right: a separator
/// opens a new empty segment, any other byte grows the last segment.
proof fn lemma_segments_push(p: Seq<u8>, c: u8)
    ensures
        c == SLASH ==> segments_of(p.push(c)) == segments_of(p).push(Seq::<u8>::empty()),
        c != SLASH ==> segments_of(p.push(c)) == segments_of(p).update(
            segments_of(p).len() - 1,
            segments_of(p).last().push(c),
        ),
    decreases p.len(),
{
    lemma_segments_nonempty(p);
    let q = p.push(c);
    if p.len() == 0 {
        assert(q.skip(1) =~= Seq::<u8>::empty());
        if c == SLASH {
            assert(segments_of(q) =~~= segments_of(p).push(Seq::<u8>::empty()));
        } else {
            assert(segments_of(q) =~~= segments_of(p).update(
                segments_of(p).len() - 1,
                segments_of(p).last().push(c),
            ));
        }
    } else {
        assert(q[0] == p[0]);
        assert(q.skip(1) =~= p.skip(1).push(c));
        lemma_segments_push(p.skip(1), c);
        lemma_segments_nonempty(p.skip(1));
        let rest = segments_of(p.skip(1));
        if c == SLASH {
            assert(segments_of(q.skip(1)) == rest.push(Seq::<u8>::empty()));
            assert(segments_of(q) =~~= segments_of(p).push(Seq::<u8>::empty()));
        } else {
            assert(segments_of(q.skip(1)) == rest.update(
                rest.len() - 1,
                rest.last().push(c),
            ));
            assert(segments_of(q) =~~= segments_of(p).update(
                segments_of(p).len() - 1,
                segments_of(p).last().push(c),
            ));
        }
    }
}

/// The views of a list of byte vectors.
pub open spec fn seg_views(v: Seq<Vec<u8>>) -> Seq<Seq<u8>> {
    v.map_values(|s: Vec<u8>| s@)
}

/// Splits a path into its segments.
pub fn split_path(p: &[u8]) -> (segs: Vec<Vec<u8>>)
    ensures
        seg_views(segs@) == segments_of(p@),
{
    let n = p.len();
    let mut segs: Vec<Vec<u8>> = Vec::new();
    let mut cur: Vec<u8> = Vec::new();
    let mut i: usize = 0;
    proof {
        assert(p@.subrange(0, 0) =~= Seq::<u8>::empty());
        assert(seg_views(segs@).push(cur@) =~~= segments_of(p@.subrange(0, 0)));
    }
    while i < n
        invariant
            n == p@.len(),
            i <= n,
            seg_views(segs@).push(cur@) == segments_of(p@.subrange(0, i as int)),
        decreases n - i,
    {
        let ghost pre = p@.subrange(0, i as int);
        let c = p[i];
        proof {
            lemma_segments_push(pre, c);
            assert(p@.subrange(0, i + 1) =~= pre.push(c));
        }
        if c == SLASH {
            let ghost old_segs = segs@;
            segs.push(cur);
            cur = Vec::new();
            proof {
                assert(seg_views(segs@) =~~= seg_views(old_segs).push(
                    segments_of(pre).last(),
                ));
                assert(seg_views(segs@).push(cur@) =~~= segments_of(pre).push(
                    Seq::<u8>::empty(),
                ));
            }
        } else {
            cur.push(c);
            proof {
                assert(seg_views(segs@).push(cur@) =~~= segments_of(pre).update(
                    segments_of(pre).len() - 1,
                    segments_of(pre).last().push(c),
                ));
            }
        }
        i += 1;
    }
    segs.push(cur);
    proof {
        assert(p@.subrange(0, n as int) =~= p@);
        assert(seg_views(segs@) =~~= segments_of(p@));
    }
    segs
}

/// The parent segment.
pub open spec fn parent_seg() -> Seq<u8> {
    seq![DOT, DOT]
}

/// A path is safe to join onto a directory when none of its segments is the
/// parent segment.
pub open spec fn path_is_safe(p: Seq<u8>) -> bool {
    forall|i: int|
        0 <= i < segments_of(p).len() ==> segments_of(p)[i] != parent_seg()
}

/// Decides whether a path is safe to join onto a directory.
pub fn check_path_safe(p: &[u8]) -> (r: bool)
    ensures
        r == path_is_safe(p@),
{
    let segs = split_path(p);
    let n = segs.len();
    let mut i: usize = 0;
    while i < n
        invariant
            n == segs@.len(),
            i <= n,
            seg_views(segs@) == segments_of(p@),
            forall|j: int| 0 <= j < i ==> segments_of(p@)[j] != parent_seg(),
        decreases n - i,
    {
        let s = &segs[i];
        if s.len() == 2 && s[0] == DOT && s[1] == DOT {
            proof {
                assert(segments_of(p@)[i as int] =~= parent_seg());
            }
            return false;
        }
        proof {
            assert(segments_of(p@)[i as int] != parent_seg());
        }
        i += 1;
    }
    true
}

/// The path with every leading separator removed.
pub open spec fn strip_leading(p: Seq<u8>) -> Seq<u8>
    decreases p.len(),
{
    if p.len() > 0 && p[0] == SLASH {
        strip_leading(p.skip(1))
    } else {
        p
    }
}

/// A prefix of separators strips down to the suffix that follows it.
proof fn lemma_strip_leading(p: Seq<u8>, k: int)
    requires
        0 <= k <= p.len(),
        forall|j: int| 0 <= j < k ==> p[j] == SLASH,
        k == p.len() || p[k] != SLASH,
    ensures
        strip_leading(p) == p.subrange(k, p.len() as int),
    decreases k,
{
    if k == 0 {
        assert(strip_leading(p) =~= p.subrange(0, p.len() as int));
    } else {
        lemma_strip_leading(p.skip(1), k - 1);
        assert(p.skip(1).subrange(k - 1, p.skip(1).len() as int) =~= p.subrange(
            k,
            p.len() as int,
        ));
    }
}

/// Removes every leading separator from a path.
pub fn strip_leading_slashes(p: &[u8]) -> (r: Vec<u8>)
    ensures
        r@ == strip_leading(p@),
{
    let n = p.len();
    let mut k: usize = 0;
    while k < n && p[k] == SLASH
        invariant
            n == p@.len(),
            k <= n,
            forall|j: int| 0 <= j < k ==> p@[j] == SLASH,
        decreases n - k,
    {
        k += 1;
    }
    proof {
        lemma_strip_leading(p@, k as int);
    }
    vstd::slice::slice_to_vec(vstd::slice::slice_subrange(p, k, n))
}

/// How a segment moves the depth of a walk below the anchor: the parent
/// segment climbs up, the current-directory and empty segments stay, and
/// any other segment descends into a child.
pub open spec fn seg_step(s: Seq<u8>) -> int {
    if s == parent_seg() {
        -1
    } else if s == seq![DOT] || s.len() == 0 {
        0
    } else {
        1
    }
}

/// Whether a walk over `segs`, starting `d` levels below the anchor, ever
/// climbs above the anchor.
pub open spec fn escapes_from(segs: Seq<Seq<u8>>, d: int) -> bool
    decreases segs.len(),
{
    if segs.len() == 0 {
        false
    } else {
        d + seg_step(segs[0]) < 0 || escapes_from(segs.skip(1), d + seg_step(segs[0]))
    }
}

/// Whether a relative path, normalized segment by segment, would resolve
/// outside the directory it is joined onto.
pub open spec fn escapes_anchor(p: Seq<u8>) -> bool {
    escapes_from(segments_of(p), 0)
}

proof fn lemma_no_parent_no_escape(segs: Seq<Seq<u8>>, d: int)
    requires
        d >= 0,
        forall|i: int| 0 <= i < segs.len() ==> segs[i] != parent_seg(),
    ensures
        !escapes_from(segs, d),
    decreases segs.len(),
{
    if segs.len() > 0 {
        assert(seg_step(segs[0]) >= 0);
        lemma_no_parent_no_escape(segs.skip(1), d + seg_step(segs[0]));
    }
}

/// A safe path never resolves outside the directory it is joined onto.
pub proof fn lemma_safe_path_stays_inside(p: Seq<u8>)
    requires
        path_is_safe(p),
    ensures
        !escapes_anchor(p),
{
    lemma_no_parent_no_escape(segments_of(p), 0);
}

} // verus!
