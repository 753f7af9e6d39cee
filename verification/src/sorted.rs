//! Small sets kept as vectors in increasing order, with the few operations the subscriptions
//! need: membership, insertion, union and difference.

use vstd::prelude::*;

verus! {

/// A value that can stand in a sorted set: it has a rank, an integer that orders the values and
/// tells them apart.
pub trait SetKey: Copy + Sized {
    spec fn rank(self) -> int;

    fn before(&self, other: &Self) -> (r: bool)
        ensures
            r == (self.rank() < other.rank()),
    ;

    proof fn lemma_rank_tells_apart(a: Self, b: Self)
        ensures
            a.rank() == b.rank() ==> a == b,
    ;
}

impl SetKey for i64 {
    open spec fn rank(self) -> int {
        self as int
    }

    fn before(&self, other: &Self) -> (r: bool) {
        *self < *other
    }

    proof fn lemma_rank_tells_apart(a: Self, b: Self) {
    }
}

impl SetKey for u64 {
    open spec fn rank(self) -> int {
        self as int
    }

    fn before(&self, other: &Self) -> (r: bool) {
        *self < *other
    }

    proof fn lemma_rank_tells_apart(a: Self, b: Self) {
    }
}

/// The live bars of a symbol on a period, the period by its place in the server's list of them.
#[derive(Clone, Copy, Debug, PartialEq, Eq, Structural)]
pub struct BarFeed {
    pub symbol: i64,
    pub period: u32,
}

/// Ordered by the symbol first, then by the period.
impl SetKey for BarFeed {
    open spec fn rank(self) -> int {
        self.symbol as int * 0x1_0000_0000 + self.period as int
    }

    fn before(&self, other: &Self) -> (r: bool) {
        let r = self.symbol < other.symbol || (self.symbol == other.symbol && self.period < other.period);
        proof {
            let (a, p, b, q) = (self.symbol as int, self.period as int, other.symbol as int, other.period as int);
            assert(r == (a * 0x1_0000_0000 + p < b * 0x1_0000_0000 + q)) by (nonlinear_arith)
                requires
                    0 <= p < 0x1_0000_0000,
                    0 <= q < 0x1_0000_0000,
                    r == (a < b || (a == b && p < q)),
            ;
        }
        r
    }

    proof fn lemma_rank_tells_apart(a: Self, b: Self) {
        let (x, p, y, q) = (a.symbol as int, a.period as int, b.symbol as int, b.period as int);
        assert(x * 0x1_0000_0000 + p == y * 0x1_0000_0000 + q ==> x == y && p == q) by (nonlinear_arith)
            requires
                0 <= p < 0x1_0000_0000,
                0 <= q < 0x1_0000_0000,
        ;
    }
}

/// Whether the values rise strictly from one to the next.
pub open spec fn increasing<T: SetKey>(s: Seq<T>) -> bool {
    forall|i: int, j: int| 0 <= i < j < s.len() ==> (#[trigger] s[i]).rank() < (#[trigger] s[j]).rank()
}

/// The set of the values of a sequence.
pub open spec fn set_of<T>(s: Seq<T>) -> Set<T> {
    Set::new(|x: T| s.contains(x))
}

/// Whether `x` is one of the values of `v`.
pub fn member<T: SetKey>(v: &Vec<T>, x: T) -> (r: bool)
    ensures
        r == v@.contains(x),
{
    let mut i: usize = 0;
    while i < v.len()
        invariant
            i <= v@.len(),
            forall|j: int| 0 <= j < i ==> v@[j] != x,
        decreases v@.len() - i,
    {
        let y = v[i];
        if !y.before(&x) && !x.before(&y) {
            proof {
                T::lemma_rank_tells_apart(y, x);
            }
            return true;
        }
        i = i + 1;
    }
    false
}

/// Adds `x` to a sorted set, where it is not already.
pub fn insert_sorted<T: SetKey>(v: &mut Vec<T>, x: T)
    requires
        increasing(old(v)@),
    ensures
        increasing(final(v)@),
        set_of(final(v)@) == set_of(old(v)@).insert(x),
{
    let mut i: usize = 0;
    while i < v.len() && v[i].before(&x)
        invariant
            i <= v@.len(),
            v@ == old(v)@,
            increasing(v@),
            forall|j: int| 0 <= j < i ==> (#[trigger] v@[j]).rank() < x.rank(),
        decreases v@.len() - i,
    {
        i = i + 1;
    }
    if i < v.len() && !x.before(&v[i]) {
        proof {
            T::lemma_rank_tells_apart(v@[i as int], x);
            assert(set_of(v@) =~= set_of(old(v)@).insert(x));
        }
        return;
    }
    let ghost before = v@;
    v.insert(i, x);
    proof {
        assert(v@ =~= before.subrange(0, i as int).push(x) + before.subrange(i as int, before.len() as int));
        assert forall|a: int, b: int| 0 <= a < b < v@.len() implies (#[trigger] v@[a]).rank() < (#[trigger] v@[b]).rank() by {
            if b < i {
            } else if b == i {
            } else if a < i {
                assert(before[a].rank() < x.rank());
                assert(x.rank() < before[i as int].rank());
                if b - 1 > i {
                    assert(before[i as int].rank() < before[b - 1].rank());
                }
            } else if a == i {
                if b - 1 > i {
                    assert(before[i as int].rank() < before[b - 1].rank());
                }
            } else {
                assert(before[a - 1].rank() < before[b - 1].rank());
            }
        }
        assert forall|y: T| set_of(v@).contains(y) <==> set_of(before).insert(x).contains(y) by {
            if before.contains(y) {
                let k = choose|k: int| 0 <= k < before.len() && before[k] == y;
                if k < i {
                    assert(v@[k] == y);
                } else {
                    assert(v@[k + 1] == y);
                }
            }
            if v@.contains(y) {
                let k = choose|k: int| 0 <= k < v@.len() && v@[k] == y;
                if k < i {
                    assert(before[k] == y);
                } else if k > i {
                    assert(before[k - 1] == y);
                }
            }
            if y == x {
                assert(v@[i as int] == x);
            }
        }
        assert(set_of(v@) =~= set_of(before).insert(x));
    }
}

/// The values of a sorted set `a` that are not in `b`, in order.
pub fn difference<T: SetKey>(a: &Vec<T>, b: &Vec<T>) -> (out: Vec<T>)
    requires
        increasing(a@),
    ensures
        increasing(out@),
        set_of(out@) == set_of(a@).difference(set_of(b@)),
{
    let mut out: Vec<T> = Vec::new();
    let mut i: usize = 0;
    while i < a.len()
        invariant
            i <= a@.len(),
            increasing(a@),
            increasing(out@),
            forall|k: int| 0 <= k < out@.len() ==> exists|m: int| 0 <= m < i && a@[m] == #[trigger] out@[k],
            forall|y: T| out@.contains(y) <==> (a@.subrange(0, i as int).contains(y) && !b@.contains(y)),
        decreases a@.len() - i,
    {
        let x = a[i];
        let ghost before = out@;
        if !member(b, x) {
            out.push(x);
            proof {
                assert forall|p: int, q: int| 0 <= p < q < out@.len() implies (#[trigger] out@[p]).rank() < (#[trigger] out@[q]).rank() by {
                    if q == out@.len() - 1 {
                        let m = choose|m: int| 0 <= m < i && a@[m] == #[trigger] before[p];
                        assert(a@[m].rank() < a@[i as int].rank());
                    }
                }
                assert forall|k: int| 0 <= k < out@.len() implies exists|m: int| 0 <= m < i + 1 && a@[m] == #[trigger] out@[k] by {
                    if k == out@.len() - 1 {
                        assert(a@[i as int] == out@[k]);
                    } else {
                        let m = choose|m: int| 0 <= m < i && a@[m] == #[trigger] before[k];
                        assert(a@[m] == out@[k]);
                    }
                }
            }
        }
        proof {
            broadcast use vstd::seq_lib::group_seq_properties;
            assert(a@.subrange(0, i + 1) =~= a@.subrange(0, i as int).push(x));
            assert(out@ == before || out@ == before.push(x));
            assert(out@ == before.push(x) <==> !b@.contains(x));
        }
        i = i + 1;
    }
    proof {
        assert(a@.subrange(0, a@.len() as int) =~= a@);
        assert(set_of(out@) =~= set_of(a@).difference(set_of(b@)));
    }
    out
}

/// The values of a sequence with one more pushed are those values and the new one.
pub proof fn lemma_set_of_push<T>(s: Seq<T>, x: T)
    ensures
        set_of(s.push(x)) == set_of(s).insert(x),
{
    assert forall|y: T| set_of(s.push(x)).contains(y) <==> set_of(s).insert(x).contains(y) by {
        if s.contains(y) {
            let k = choose|k: int| 0 <= k < s.len() && s[k] == y;
            assert(s.push(x)[k] == y);
        }
        if s.push(x).contains(y) {
            let k = choose|k: int| 0 <= k < s.push(x).len() && s.push(x)[k] == y;
            if k < s.len() {
                assert(s[k] == y);
            }
        }
        if y == x {
            assert(s.push(x)[s.len() as int] == x);
        }
    }
    assert(set_of(s.push(x)) =~= set_of(s).insert(x));
}

} // verus!
