use vstd::prelude::*;

use crate::fx::Fx;

verus! {

/// A ray parameter at which a ray meets a shape, with that shape's id.
#[derive(Clone, Copy, Debug, PartialEq, Eq, Structural)]
pub struct Intersection {
    pub t: Fx,
    pub obj_id: usize,
}

impl Intersection {
    pub fn new(t: Fx, obj_id: usize) -> (r: Intersection)
        ensures
            r == (Intersection { t, obj_id }),
    {
        Intersection { t, obj_id }
    }
}

/// Sorted ascending by the raw ray parameter.
pub open spec fn xs_sorted(s: Seq<Intersection>) -> bool {
    forall|i: int, j: int| 0 <= i < j < s.len() ==> s[i].t.raw <= s[j].t.raw
}

/// The first index whose ray parameter is at least v; the length if none
/// is.
pub open spec fn lower_bound(s: Seq<Intersection>, v: int) -> int
    decreases s.len(),
{
    if s.len() == 0 {
        0
    } else if s[0].t.raw >= v {
        0
    } else {
        1 + lower_bound(s.drop_first(), v)
    }
}

/// On a sorted sequence, the two-sided characterization pins the lower
/// bound.
pub proof fn lemma_lower_bound_unique(s: Seq<Intersection>, v: int, i: int)
    requires
        xs_sorted(s),
        0 <= i <= s.len(),
        forall|k: int| 0 <= k < i ==> s[k].t.raw < v,
        forall|k: int| i <= k < s.len() ==> s[k].t.raw >= v,
    ensures
        i == lower_bound(s, v),
    decreases s.len(),
{
    if s.len() == 0 {
    } else if s[0].t.raw >= v {
        assert(i == 0);
    } else {
        assert(i >= 1);
        let rest = s.drop_first();
        assert(xs_sorted(rest)) by {
            assert forall|a: int, b: int| 0 <= a < b < rest.len() implies rest[a].t.raw
                <= rest[b].t.raw by {
                assert(rest[a] == s[a + 1]);
                assert(rest[b] == s[b + 1]);
            }
        }
        assert forall|k: int| 0 <= k < i - 1 implies rest[k].t.raw < v by {
            assert(rest[k] == s[k + 1]);
        }
        assert forall|k: int| i - 1 <= k < rest.len() implies rest[k].t.raw >= v by {
            assert(rest[k] == s[k + 1]);
        }
        lemma_lower_bound_unique(rest, v, i - 1);
    }
}

/// The hit of a sorted collection: its entry at the lower bound of zero,
/// none if every parameter is negative.
pub open spec fn spec_hit(s: Seq<Intersection>) -> Option<Intersection> {
    if lower_bound(s, 0) < s.len() {
        Some(s[lower_bound(s, 0)])
    } else {
        None
    }
}

/// A collection of intersections kept sorted ascending by ray parameter.
#[derive(Clone, Debug)]
pub struct Intersections {
    pub crossings: Vec<Intersection>,
}

/// Binary search for the first index with parameter at least v.
fn lower_bound_search(xs: &Vec<Intersection>, v: i64) -> (r: usize)
    requires
        xs_sorted(xs@),
    ensures
        0 <= r <= xs@.len(),
        forall|k: int| 0 <= k < r ==> xs@[k].t.raw < v,
        forall|k: int| r <= k < xs@.len() ==> xs@[k].t.raw >= v,
        r == lower_bound(xs@, v as int),
{
    let mut lo: usize = 0;
    let mut hi: usize = xs.len();
    while lo < hi
        invariant
            0 <= lo <= hi <= xs@.len(),
            xs_sorted(xs@),
            forall|k: int| 0 <= k < lo ==> xs@[k].t.raw < v,
            forall|k: int| hi <= k < xs@.len() ==> xs@[k].t.raw >= v,
        decreases hi - lo,
    {
        let mid: usize = lo + (hi - lo) / 2;
        if xs[mid].t.raw < v {
            assert forall|k: int| 0 <= k < mid + 1 implies xs@[k].t.raw < v by {
                if k < mid {
                    assert(xs@[k].t.raw <= xs@[mid as int].t.raw);
                }
            }
            lo = mid + 1;
        } else {
            assert forall|k: int| mid <= k < xs@.len() implies xs@[k].t.raw >= v by {
                if k > mid {
                    assert(xs@[mid as int].t.raw <= xs@[k].t.raw);
                }
            }
            hi = mid;
        }
    }
    proof {
        lemma_lower_bound_unique(xs@, v as int, lo as int);
    }
    lo
}

impl Intersections {
    pub open spec fn wf(self) -> bool {
        xs_sorted(self.crossings@)
    }

    pub fn new() -> (r: Intersections)
        ensures
            r.crossings@.len() == 0,
            r.wf(),
    {
        Intersections { crossings: Vec::new() }
    }

    pub fn len(&self) -> (r: usize)
        ensures
            r == self.crossings@.len(),
    {
        self.crossings.len()
    }

    pub fn is_empty(&self) -> (r: bool)
        ensures
            r == (self.crossings@.len() == 0),
    {
        self.crossings.len() == 0
    }

    /// The intersection at a position in sorted order.
    pub fn get(&self, index: usize) -> (r: Intersection)
        requires
            index < self.crossings@.len(),
        ensures
            r == self.crossings@[index as int],
    {
        self.crossings[index]
    }

    /// Ordered insert: binary search for the first position whose parameter
    /// is not smaller, and insert there.
    pub fn push(&mut self, crossing: Intersection)
        requires
            old(self).wf(),
        ensures
            final(self).wf(),
            final(self).crossings@ == old(self).crossings@.insert(
                lower_bound(old(self).crossings@, crossing.t.raw as int),
                crossing,
            ),
            final(self).crossings@.len() == old(self).crossings@.len() + 1,
    {
        let pos: usize = lower_bound_search(&self.crossings, crossing.t.raw);
        self.crossings.insert(pos, crossing);
        proof {
            let s = old(self).crossings@;
            let ns = self.crossings@;
            let p = pos as int;
            assert forall|i: int, j: int| 0 <= i < j < ns.len() implies ns[i].t.raw
                <= ns[j].t.raw by {
                if i < p && j < p {
                    assert(ns[i] == s[i]);
                    assert(ns[j] == s[j]);
                } else if i < p && j == p {
                    assert(ns[i] == s[i]);
                } else if i < p && j > p {
                    assert(ns[i] == s[i]);
                    assert(ns[j] == s[j - 1]);
                    assert(s[j - 1].t.raw >= crossing.t.raw);
                } else if i == p && j > p {
                    assert(ns[j] == s[j - 1]);
                } else {
                    assert(ns[i] == s[i - 1]);
                    assert(ns[j] == s[j - 1]);
                }
            }
        }
    }

    /// The visible hit: the intersection with the smallest non-negative ray
    /// parameter, or none when every parameter is negative.
    pub fn hit(&self) -> (r: Option<Intersection>)
        requires
            self.wf(),
        ensures
            r == spec_hit(self.crossings@),
            match r {
                Some(x) => {
                    &&& exists|i: int|
                        0 <= i < self.crossings@.len() && self.crossings@[i] == x
                    &&& x.t.raw >= 0
                    &&& forall|k: int|
                        0 <= k < self.crossings@.len() && self.crossings@[k].t.raw >= 0
                            ==> x.t.raw <= #[trigger] self.crossings@[k].t.raw
                },
                None => forall|k: int|
                    0 <= k < self.crossings@.len() ==> #[trigger] self.crossings@[k].t.raw < 0,
            },
    {
        let pos: usize = lower_bound_search(&self.crossings, 0);
        if pos < self.crossings.len() {
            let x: Intersection = self.crossings[pos];
            proof {
                assert(self.crossings@[pos as int] == x);
                assert forall|k: int|
                    0 <= k < self.crossings@.len() && self.crossings@[k].t.raw >= 0 implies x.t.raw
                    <= self.crossings@[k].t.raw by {
                    if k < pos {
                        assert(self.crossings@[k].t.raw < 0);
                    } else if k > pos {
                        assert(x.t.raw <= self.crossings@[k].t.raw);
                    }
                }
            }
            Some(x)
        } else {
            None
        }
    }
}

} // verus!
