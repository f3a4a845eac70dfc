//! Paths as sequences of name segments.
//!
//! The watcher hands over absolute paths; the mirror works with the path
//! relative to the watched root and with its image under the target root.
//! Both are modelled as a list of byte-string segments, so that stripping
//! a root and joining under another root are plain sequence operations.

use vstd::prelude::*;

verus! {

/// A path split into its name segments, each a sequence of bytes.
///
/// The empty segment list stands for the root itself.
pub struct SegPath {
    pub segs: Vec<Vec<u8>>,
}

impl View for SegPath {
    type V = Seq<Seq<u8>>;

    open spec fn view(&self) -> Seq<Seq<u8>> {
        Seq::new(self.segs@.len(), |i: int| self.segs@[i]@)
    }
}

/// `root` is a (not necessarily strict) leading run of `p`'s segments.
pub open spec fn is_prefix(root: Seq<Seq<u8>>, p: Seq<Seq<u8>>) -> bool {
    root.len() <= p.len() && p.take(root.len() as int) == root
}

/// Strip `root` from the front of `p`; where `p` does not lie under
/// `root`, fall back to `p` itself (degraded mode, reported separately).
pub open spec fn spec_relativize(p: Seq<Seq<u8>>, root: Seq<Seq<u8>>) -> Seq<Seq<u8>> {
    if is_prefix(root, p) {
        p.skip(root.len() as int)
    } else {
        p
    }
}

/// Place a relative path under a root.
pub open spec fn spec_join(root: Seq<Seq<u8>>, rel: Seq<Seq<u8>>) -> Seq<Seq<u8>> {
    root + rel
}

/// Byte-for-byte equality of two segments.
pub fn bytes_eq(a: &Vec<u8>, b: &Vec<u8>) -> (r: bool)
    ensures
        r == (a@ == b@),
{
    if a.len() != b.len() {
        return false;
    }
    let n = a.len();
    let mut i: usize = 0;
    while i < n
        invariant
            n == a@.len() == b@.len(),
            i <= n,
            forall|j: int| 0 <= j < i ==> a@[j] == b@[j],
        decreases n - i,
    {
        if a[i] != b[i] {
            return false;
        }
        i += 1;
    }
    proof {
        assert(a@ =~= b@);
    }
    true
}

/// An independent copy of one segment.
pub fn bytes_clone(a: &Vec<u8>) -> (r: Vec<u8>)
    ensures
        r@ == a@,
{
    let n = a.len();
    let mut r: Vec<u8> = Vec::new();
    let mut i: usize = 0;
    while i < n
        invariant
            n == a@.len(),
            i <= n,
            r@ == a@.take(i as int),
        decreases n - i,
    {
        r.push(a[i]);
        proof {
            assert(r@ =~= a@.take(i + 1));
        }
        i += 1;
    }
    proof {
        assert(a@.take(n as int) =~= a@);
    }
    r
}

impl SegPath {
    /// A path with no segments: the root itself.
    pub fn empty() -> (r: SegPath)
        ensures
            r@ =~= Seq::<Seq<u8>>::empty(),
    {
        SegPath { segs: Vec::new() }
    }

    /// An independent copy with the same segments.
    pub fn clone_path(&self) -> (r: SegPath)
        ensures
            r@ == self@,
    {
        let n = self.segs.len();
        let mut segs: Vec<Vec<u8>> = Vec::new();
        let mut i: usize = 0;
        while i < n
            invariant
                n == self.segs@.len(),
                i <= n,
                segs@.len() == i,
                forall|j: int| 0 <= j < i ==> segs@[j]@ == self@[j],
            decreases n - i,
        {
            segs.push(bytes_clone(&self.segs[i]));
            i += 1;
        }
        let r = SegPath { segs };
        proof {
            assert(r@ =~= self@);
        }
        r
    }

    /// Append one segment at the end.
    pub fn push_seg(&mut self, seg: Vec<u8>)
        ensures
            final(self)@ == old(self)@.push(seg@),
    {
        self.segs.push(seg);
        proof {
            assert(self@ =~= old(self)@.push(seg@));
        }
    }

    /// Segment-for-segment equality of two paths.
    pub fn path_eq(&self, other: &SegPath) -> (r: bool)
        ensures
            r == (self@ == other@),
    {
        if self.segs.len() != other.segs.len() {
            proof {
                assert(self@.len() != other@.len());
            }
            return false;
        }
        let n = self.segs.len();
        let mut i: usize = 0;
        while i < n
            invariant
                n == self.segs@.len() == other.segs@.len(),
                i <= n,
                forall|j: int| 0 <= j < i ==> self@[j] == other@[j],
        decreases n - i,
        {
            if !bytes_eq(&self.segs[i], &other.segs[i]) {
                proof {
                    assert(self@[i as int] != other@[i as int]);
                }
                return false;
            }
            i += 1;
        }
        proof {
            assert(self@ =~= other@);
        }
        true
    }

    /// Whether `self`'s segments are a leading run of `p`'s.
    pub fn is_prefix_of(&self, p: &SegPath) -> (r: bool)
        ensures
            r == is_prefix(self@, p@),
    {
        if self.segs.len() > p.segs.len() {
            return false;
        }
        let n = self.segs.len();
        let mut i: usize = 0;
        while i < n
            invariant
                n == self.segs@.len() <= p.segs@.len(),
                i <= n,
                forall|j: int| 0 <= j < i ==> self@[j] == p@[j],
        decreases n - i,
        {
            if !bytes_eq(&self.segs[i], &p.segs[i]) {
                proof {
                    assert(p@.take(n as int)[i as int] != self@[i as int]);
                }
                return false;
            }
            i += 1;
        }
        proof {
            assert(p@.take(n as int) =~= self@);
        }
        true
    }
}

/// Strip `root` from the front of `p`. The second component reports
/// whether `p` actually lay under `root`; where it did not, the first
/// component is `p` itself and the caller logs the anomaly.
pub fn relativize(p: &SegPath, root: &SegPath) -> (r: (SegPath, bool))
    ensures
        r.0@ == spec_relativize(p@, root@),
        r.1 == is_prefix(root@, p@),
{
    if root.is_prefix_of(p) {
        let n = p.segs.len();
        let k = root.segs.len();
        let mut segs: Vec<Vec<u8>> = Vec::new();
        let mut i: usize = k;
        while i < n
            invariant
                k <= i <= n,
                n == p.segs@.len(),
                segs@.len() == i - k,
                forall|j: int| 0 <= j < i - k ==> segs@[j]@ == p@[k + j],
            decreases n - i,
        {
            segs.push(bytes_clone(&p.segs[i]));
            i += 1;
        }
        let r = SegPath { segs };
        proof {
            assert(r@ =~= p@.skip(k as int));
        }
        (r, true)
    } else {
        (p.clone_path(), false)
    }
}

/// The image of `rel` under `target_root`.
pub fn to_target_path(rel: &SegPath, target_root: &SegPath) -> (r: SegPath)
    ensures
        r@ == spec_join(target_root@, rel@),
{
    let mut r = target_root.clone_path();
    let n = rel.segs.len();
    let mut i: usize = 0;
    while i < n
        invariant
            n == rel.segs@.len(),
            i <= n,
            r@ == target_root@ + rel@.take(i as int),
        decreases n - i,
    {
        let seg = bytes_clone(&rel.segs[i]);
        r.push_seg(seg);
        proof {
            assert(r@ =~= target_root@ + rel@.take(i + 1));
        }
        i += 1;
    }
    proof {
        assert(rel@.take(n as int) =~= rel@);
    }
    r
}

/// Stripping a root undoes joining under that same root: the mapping
/// from relative paths into a root loses nothing.
pub proof fn lemma_relativize_round_trip(rel: Seq<Seq<u8>>, root: Seq<Seq<u8>>)
    ensures
        spec_relativize(spec_join(root, rel), root) == rel,
{
    let p = root + rel;
    assert(p.take(root.len() as int) =~= root);
    assert(p.skip(root.len() as int) =~= rel);
}

} // verus!
