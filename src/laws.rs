use vstd::prelude::*;

use crate::point::{aged, Point};
use crate::smoother::chaikin_terms;
use crate::trail::{Trail3D, aged_all, aged_point, alive, expire, flat, with_ids};

verus! {

/// The store's points after update passes with the given deltas, in order, when
/// nothing else removes them.
pub open spec fn expire_each<T>(s: Seq<Point<T>>, ds: Seq<u64>) -> Seq<Point<T>>
    decreases ds.len(),
{
    if ds.len() == 0 {
        s
    } else {
        expire(expire_each(s, ds.drop_last()), ds.last() as int)
    }
}

/// The time that the deltas add up to.
pub open spec fn total(ds: Seq<u64>) -> int
    decreases ds.len(),
{
    if ds.len() == 0 {
        0
    } else {
        total(ds.drop_last()) + ds.last()
    }
}

/// One more point at the end either survives a pass, aged, or is gone.
pub proof fn lemma_expire_push<T>(x: Seq<Point<T>>, e: Point<T>, d: int)
    requires
        d >= 0,
    ensures
        expire(x.push(e), d) == if aged(e.age as int, d) > 0 {
            expire(x, d).push(aged_point(e, d))
        } else {
            expire(x, d)
        },
{
    let m = aged_all(x.push(e), d);
    assert(m.drop_last() =~= aged_all(x, d));
    assert(m.last() == aged_point(e, d));
    assert(aged_point(e, d).age == aged(e.age as int, d));
    reveal(Seq::filter);
    assert(alive(m) == if m.last().age > 0 { alive(m.drop_last()).push(m.last()) } else { alive(m.drop_last()) });
}

/// Two passes of `d1` and then `d2` ticks leave what one pass of `d1 + d2` ticks
/// leaves.
pub proof fn lemma_expire_twice<T>(s: Seq<Point<T>>, d1: int, d2: int)
    requires
        d1 >= 0,
        d2 >= 0,
    ensures
        expire(expire(s, d1), d2) == expire(s, d1 + d2),
    decreases s.len(),
{
    if s.len() == 0 {
        reveal(Seq::filter);
        assert(aged_all(s, d1) =~= Seq::<Point<T>>::empty());
        assert(expire(s, d1) =~= Seq::<Point<T>>::empty());
        assert(aged_all(expire(s, d1), d2) =~= Seq::<Point<T>>::empty());
        assert(aged_all(s, d1 + d2) =~= Seq::<Point<T>>::empty());
    } else {
        let x = s.drop_last();
        let e = s.last();
        assert(x.push(e) =~= s);
        lemma_expire_twice(x, d1, d2);
        lemma_expire_push(x, e, d1);
        lemma_expire_push(x, e, d1 + d2);
        let e1 = aged_point(e, d1);
        if aged(e.age as int, d1) > 0 {
            lemma_expire_push(expire(x, d1), e1, d2);
            assert(e1.age == e.age - d1);
            assert(aged_point(e1, d2) == aged_point(e, d1 + d2));
        }
    }
}

/// Lifetime: after passes of the given deltas, the store holds exactly the
/// points whose lifetime exceeds the time elapsed, each aged by that time.
pub proof fn lemma_lifetime<T>(s: Seq<Point<T>>, ds: Seq<u64>)
    requires
        ds.len() > 0,
    ensures
        expire_each(s, ds) == expire(s, total(ds)),
    decreases ds.len(),
{
    if ds.len() > 1 {
        lemma_lifetime(s, ds.drop_last());
        lemma_total_nonneg(ds.drop_last());
        lemma_expire_twice(s, total(ds.drop_last()), ds.last() as int);
    } else {
        assert(ds.drop_last().len() == 0);
        assert(total(ds.drop_last()) == 0);
        assert(expire_each(s, ds.drop_last()) == s);
    }
}

/// Deltas never add up to less than nothing.
pub proof fn lemma_total_nonneg(ds: Seq<u64>)
    ensures
        total(ds) >= 0,
    decreases ds.len(),
{
    if ds.len() > 0 {
        lemma_total_nonneg(ds.drop_last());
    }
}

/// A point created with lifetime `p.age` is present after passes of the given
/// deltas while their total is below that lifetime, and absent from then on.
pub proof fn lemma_point_lifetime<T>(p: Point<T>, ds: Seq<u64>)
    requires
        ds.len() > 0,
    ensures
        expire_each(seq![p], ds).len() == if p.age - total(ds) > 0 { 1int } else { 0int },
{
    lemma_lifetime(seq![p], ds);
    lemma_total_nonneg(ds);
    lemma_expire_push(Seq::<Point<T>>::empty(), p, total(ds));
    assert(seq![p] =~= Seq::<Point<T>>::empty().push(p));
    reveal(Seq::filter);
    assert(aged_all(Seq::<Point<T>>::empty(), total(ds)) =~= Seq::<Point<T>>::empty());
}

/// Points made together receive ids that strictly increase in order of creation,
/// all at least `start`.
pub proof fn lemma_ids_increase<T>(vals: Seq<(T, i64)>, start: int, i: int, j: int)
    requires
        0 <= start,
        start + vals.len() <= u64::MAX,
        0 <= i < j < vals.len(),
    ensures
        start <= with_ids(vals, start)[i].id < with_ids(vals, start)[j].id,
{
}

/// Groups of `k` points each add up to `k` times as many points.
pub proof fn lemma_flat_uniform<A>(gs: Seq<Seq<A>>, k: int)
    requires
        k >= 0,
        forall|i: int| 0 <= i < gs.len() ==> #[trigger] gs[i].len() == k,
    ensures
        flat(gs).len() == gs.len() * k,
    decreases gs.len(),
{
    if gs.len() > 0 {
        lemma_flat_uniform(gs.drop_last(), k);
        assert(gs.last().len() == k);
        assert((gs.len() - 1) * k + k == gs.len() * k) by (nonlinear_arith);
    }
}

/// Batch smoothing count: when each interior triple of the manual points smooths
/// into the points of depth `depth`, the smoothed points number the triples times
/// that depth's count, so the list becomes that many plus the two kept ends.
pub proof fn lemma_batch_smooth_count<T>(gs: Seq<Seq<(T, i64)>>, depth: int)
    requires
        forall|i: int| 0 <= i < gs.len() ==> #[trigger] gs[i].len() == chaikin_terms(depth).len(),
    ensures
        flat(gs).len() == gs.len() * chaikin_terms(depth).len(),
{
    lemma_flat_uniform(gs, chaikin_terms(depth).len() as int);
}

/// Ids are never reused: on a well-formed trail, the point created next gets an id
/// above every id along the store and the smoothed segment, and the ids there
/// increase in order of creation.
pub proof fn lemma_next_id_unused<T: Copy>(t: Trail3D<T>, transform: T, age: i64)
    requires
        t.wf(),
    ensures
        forall|i: int|
            0 <= i < (t.store@ + t.temp_segment@).len() ==> #[trigger] (t.store@
                + t.temp_segment@)[i].id < t.fresh(transform, age).id,
        forall|i: int, j: int|
            0 <= i < j < (t.store@ + t.temp_segment@).len() ==> (t.store@ + t.temp_segment@)[i].id
                < (t.store@ + t.temp_segment@)[j].id,
{
}

} // verus!
