use vstd::prelude::*;

use crate::point::{aged, Point};
use crate::smoother::{chaikin, multiplier, size_multiplier, Mix};

verus! {

/// `p` after `delta` ticks have passed.
pub open spec fn aged_point<T>(p: Point<T>, delta: int) -> Point<T> {
    Point { age: aged(p.age as int, delta) as i64, ..p }
}

/// Every point of `s` after `delta` ticks have passed.
pub open spec fn aged_all<T>(s: Seq<Point<T>>, delta: int) -> Seq<Point<T>> {
    s.map_values(|p: Point<T>| aged_point(p, delta))
}

/// Whether a point's lifetime is not used up.
pub open spec fn is_alive<T>() -> spec_fn(Point<T>) -> bool {
    |p: Point<T>| p.age > 0
}

/// Whether a point's id differs from `id`.
pub open spec fn other_id<T>(id: u64) -> spec_fn(Point<T>) -> bool {
    |p: Point<T>| p.id != id
}

/// The points of `s` whose lifetime is not used up, in order.
pub open spec fn alive<T>(s: Seq<Point<T>>) -> Seq<Point<T>> {
    s.filter(is_alive())
}

/// Ages every point by `delta` ticks and keeps those whose lifetime is not used up,
/// in order.
pub open spec fn expire<T>(s: Seq<Point<T>>, delta: int) -> Seq<Point<T>> {
    alive(aged_all(s, delta))
}

/// `s` without the points whose id is `id`.
pub open spec fn without_id<T>(s: Seq<Point<T>>, id: u64) -> Seq<Point<T>> {
    s.filter(other_id(id))
}

/// Ids strictly increase along `s`.
pub open spec fn ids_increase<T>(s: Seq<Point<T>>) -> bool {
    forall|i: int, j: int| 0 <= i < j < s.len() ==> s[i].id < s[j].id
}

/// Every id of `s` is below `n`.
pub open spec fn ids_below<T>(s: Seq<Point<T>>, n: int) -> bool {
    forall|i: int| 0 <= i < s.len() ==> s[i].id < n
}

/// The bound that the ids of a sequence placed before `s` stay under, when all of
/// `s` stays under `n`.
pub open spec fn bound_before<T>(s: Seq<Point<T>>, n: int) -> int {
    if s.len() > 0 { s[0].id as int } else { n }
}

/// A filter keeps ids increasing and under their bound.
pub proof fn lemma_filter_ids<T>(s: Seq<Point<T>>, pred: spec_fn(Point<T>) -> bool, n: int)
    requires
        ids_increase(s),
        ids_below(s, n),
    ensures
        ids_increase(s.filter(pred)),
        ids_below(s.filter(pred), n),
    decreases s.len(),
{
    reveal(Seq::filter);
    if s.len() > 0 {
        let x = s.drop_last();
        let e = s.last();
        lemma_filter_ids(x, pred, e.id as int);
        let fx = x.filter(pred);
        assert(s.filter(pred) == if pred(e) { fx.push(e) } else { fx });
    }
}

/// `q` is `p` as to id and transform.
pub open spec fn same_point<T>(p: Point<T>, q: Point<T>) -> bool {
    p.id == q.id && p.transform == q.transform
}

/// `s` has a point with the id and transform of `p`.
pub open spec fn has_match<T>(s: Seq<Point<T>>, p: Point<T>) -> bool {
    exists|j: int| 0 <= j < s.len() && #[trigger] same_point(s[j], p)
}

/// Every point of `t` has a counterpart in `s` with the same id and transform.
pub open spec fn drawn_from<T>(t: Seq<Point<T>>, s: Seq<Point<T>>) -> bool {
    forall|i: int| 0 <= i < t.len() ==> #[trigger] has_match(s, t[i])
}

/// A sequence is drawn from itself.
pub proof fn lemma_drawn_refl<T>(s: Seq<Point<T>>)
    ensures
        drawn_from(s, s),
{
    assert forall|i: int| 0 <= i < s.len() implies #[trigger] has_match(s, s[i]) by {
        assert(same_point(s[i], s[i]));
    }
}

/// A filter only keeps points it was given.
pub proof fn lemma_filter_from<T>(s: Seq<Point<T>>, pred: spec_fn(Point<T>) -> bool)
    ensures
        drawn_from(s.filter(pred), s),
{
    let f = s.filter(pred);
    assert forall|i: int| 0 <= i < f.len() implies #[trigger] has_match(s, f[i]) by {
        assert(f.contains(f[i]));
        s.lemma_filter_contains_rev(pred, f[i]);
        let j = choose|j: int| 0 <= j < s.len() && s[j] == f[i];
        assert(same_point(s[j], f[i]));
    }
}

/// Drawing from a sequence drawn from another draws from that one.
pub proof fn lemma_drawn_trans<T>(a: Seq<Point<T>>, b: Seq<Point<T>>, c: Seq<Point<T>>)
    requires
        drawn_from(a, b),
        drawn_from(b, c),
    ensures
        drawn_from(a, c),
{
    assert forall|i: int| 0 <= i < a.len() implies #[trigger] has_match(c, a[i]) by {
        assert(has_match(b, a[i]));
        let k = choose|k: int| 0 <= k < b.len() && #[trigger] same_point(b[k], a[i]);
        assert(has_match(c, b[k]));
        let j = choose|j: int| 0 <= j < c.len() && #[trigger] same_point(c[j], b[k]);
        assert(same_point(c[j], a[i]));
    }
}

/// Removing an anchor's namesake only keeps points it was given.
pub proof fn lemma_drop_anchor_from<T>(s: Seq<Point<T>>, o: Option<Point<T>>, delta: int)
    ensures
        drawn_from(drop_anchor(s, o, delta), s),
{
    lemma_drawn_refl(s);
    if let Some(p) = o {
        lemma_filter_from(s, other_id(p.id));
    }
}

/// The store after an update pass holds only points that were in it before, with
/// their ids and transforms.
pub proof fn lemma_pass_from<T>(
    s: Seq<Point<T>>,
    a: Option<Point<T>>,
    b: Option<Point<T>>,
    c: Option<Point<T>>,
    delta: int,
    max: int,
)
    requires
        max >= 0,
    ensures
        drawn_from(pass_store(s, a, b, c, delta, max), s),
{
    let s1 = drop_anchor(s, a, delta);
    let s2 = drop_anchor(s1, b, delta);
    let s3 = drop_anchor(s2, c, delta);
    lemma_drop_anchor_from(s, a, delta);
    lemma_drop_anchor_from(s1, b, delta);
    lemma_drop_anchor_from(s2, c, delta);
    lemma_drawn_trans(s2, s1, s);
    lemma_drawn_trans(s3, s2, s);
    let m = aged_all(s3, delta);
    assert forall|i: int| 0 <= i < m.len() implies #[trigger] has_match(s3, m[i]) by {
        assert(same_point(s3[i], m[i]));
    }
    lemma_filter_from(m, is_alive());
    let f = alive(m);
    lemma_drawn_trans(f, m, s3);
    lemma_drawn_trans(f, s3, s);
    let t = trim_front(f, max);
    if f.len() > max {
        let k = f.len() - max;
        assert forall|i: int| 0 <= i < t.len() implies #[trigger] has_match(f, t[i]) by {
            assert(same_point(f[k + i], t[i]));
        }
        lemma_drawn_trans(t, f, s);
    }
}

/// Aging, expiry and trimming keep ids increasing and under their bound.
pub proof fn lemma_pass_ids<T>(s: Seq<Point<T>>, delta: int, max: int, n: int)
    requires
        ids_increase(s),
        ids_below(s, n),
        max >= 0,
    ensures
        ids_increase(trim_front(expire(s, delta), max)),
        ids_below(trim_front(expire(s, delta), max), n),
{
    let m = aged_all(s, delta);
    assert(forall|i: int| 0 <= i < m.len() ==> #[trigger] m[i].id == s[i].id);
    lemma_filter_ids(m, is_alive(), n);
    let f = expire(s, delta);
    let t = trim_front(f, max);
    if f.len() > max {
        let k = f.len() - max;
        assert forall|i: int, j: int| 0 <= i < j < t.len() implies t[i].id < t[j].id by {
            assert(t[i] == f[k + i] && t[j] == f[k + j]);
        }
        assert forall|i: int| 0 <= i < t.len() implies t[i].id < n by {
            assert(t[i] == f[k + i]);
        }
    }
}

/// Ids increase along `a + b` and stay under `n` exactly when they do along each
/// part, with `a` under the first id of `b`.
pub proof fn lemma_ids_concat<T>(a: Seq<Point<T>>, b: Seq<Point<T>>, n: int)
    ensures
        (ids_increase(a + b) && ids_below(a + b, n)) <==> (ids_increase(a) && ids_increase(b)
            && ids_below(b, n) && ids_below(a, bound_before(b, n))),
{
    let c = a + b;
    if ids_increase(c) && ids_below(c, n) {
        assert forall|i: int| 0 <= i < a.len() implies a[i].id < bound_before(b, n) by {
            if b.len() > 0 {
                assert(c[i] == a[i] && c[a.len() as int] == b[0]);
            } else {
                assert(c[i] == a[i]);
            }
        }
        assert forall|i: int, j: int| 0 <= i < j < b.len() implies b[i].id < b[j].id by {
            assert(c[a.len() + i] == b[i] && c[a.len() + j] == b[j]);
        }
        assert forall|i: int| 0 <= i < b.len() implies b[i].id < n by {
            assert(c[a.len() + i] == b[i]);
        }
        assert forall|i: int, j: int| 0 <= i < j < a.len() implies a[i].id < a[j].id by {
            assert(c[i] == a[i] && c[j] == a[j]);
        }
    }
    if ids_increase(a) && ids_increase(b) && ids_below(b, n) && ids_below(a, bound_before(b, n)) {
        assert forall|i: int, j: int| 0 <= i < j < c.len() implies c[i].id < c[j].id by {
            if j < a.len() {
            } else if i < a.len() {
                assert(b[0].id <= b[j - a.len()].id);
            }
        }
        assert forall|i: int| 0 <= i < c.len() implies c[i].id < n by {
            if i < a.len() {
                if b.len() > 0 {
                    assert(b[0].id < n);
                }
            }
        }
    }
}

/// `s` with at most `max` points, the newest ones.
pub open spec fn trim_front<T>(s: Seq<Point<T>>, max: int) -> Seq<Point<T>> {
    if s.len() > max {
        s.subrange(s.len() - max, s.len() as int)
    } else {
        s
    }
}

/// An anchor after `delta` ticks have passed.
pub open spec fn age_anchor<T>(o: Option<Point<T>>, delta: int) -> Option<Point<T>> {
    match o {
        Some(p) => Some(aged_point(p, delta)),
        None => None,
    }
}

/// `s` without the point that shares the anchor's id, when `delta` ticks use up
/// the anchor's lifetime.
pub open spec fn drop_anchor<T>(s: Seq<Point<T>>, o: Option<Point<T>>, delta: int) -> Seq<Point<T>> {
    match o {
        Some(p) => if p.age - delta <= 0 { without_id(s, p.id) } else { s },
        None => s,
    }
}

/// The point store after one update pass: anchors that expire take their
/// namesakes along, every point ages, the expired ones go, and the oldest go
/// until at most `max` are left.
pub open spec fn pass_store<T>(
    s: Seq<Point<T>>,
    a: Option<Point<T>>,
    b: Option<Point<T>>,
    c: Option<Point<T>>,
    delta: int,
    max: int,
) -> Seq<Point<T>> {
    trim_front(expire(drop_anchor(drop_anchor(drop_anchor(s, a, delta), b, delta), c, delta), delta), max)
}

/// The concatenation of the groups, in order.
pub open spec fn flat<A>(gs: Seq<Seq<A>>) -> Seq<A>
    decreases gs.len(),
{
    if gs.len() == 0 {
        Seq::empty()
    } else {
        flat(gs.drop_last()) + gs.last()
    }
}

/// The contents of each vector.
pub open spec fn views<A>(gs: Seq<Vec<A>>) -> Seq<Seq<A>> {
    gs.map_values(|g: Vec<A>| g@)
}

/// Points with consecutive ids from `start`, holding the given transforms and
/// ages in order.
pub open spec fn with_ids<T>(vals: Seq<(T, i64)>, start: int) -> Seq<Point<T>> {
    Seq::new(vals.len(), |i: int| Point { id: (start + i) as u64, transform: vals[i].0, age: vals[i].1 })
}

/// Ages every point of `s` by `delta` and keeps those still alive.
pub fn expire_points<T: Copy>(s: &Vec<Point<T>>, delta: u64) -> (r: Vec<Point<T>>)
    ensures
        r@ == expire(s@, delta as int),
{
    let mut r: Vec<Point<T>> = Vec::new();
    let mut i: usize = 0;
    while i < s.len()
        invariant
            i <= s@.len(),
            r@ == expire(s@.subrange(0, i as int), delta as int),
        decreases s@.len() - i,
    {
        let mut p = s[i];
        let expired = p.update(delta);
        proof {
            let m = aged_all(s@.subrange(0, i + 1), delta as int);
            assert(m.drop_last() =~= aged_all(s@.subrange(0, i as int), delta as int));
            assert(m.last() == p);
            reveal(Seq::filter);
            assert(alive(m) == if p.age > 0 { alive(m.drop_last()).push(p) } else { alive(m.drop_last()) });
        }
        if !expired {
            r.push(p);
        }
        i = i + 1;
    }
    assert(s@.subrange(0, s@.len() as int) =~= s@);
    r
}

/// `s` without the points whose id is `id`.
pub fn remove_id<T: Copy>(s: &Vec<Point<T>>, id: u64) -> (r: Vec<Point<T>>)
    ensures
        r@ == without_id(s@, id),
{
    let mut r: Vec<Point<T>> = Vec::new();
    let mut i: usize = 0;
    while i < s.len()
        invariant
            i <= s@.len(),
            r@ == without_id(s@.subrange(0, i as int), id),
        decreases s@.len() - i,
    {
        let p = s[i];
        proof {
            let m = s@.subrange(0, i + 1);
            assert(m.drop_last() =~= s@.subrange(0, i as int));
            assert(m.last() == p);
            reveal(Seq::filter);
            assert(without_id(m, id) == if p.id != id { without_id(m.drop_last(), id).push(p) } else { without_id(m.drop_last(), id) });
        }
        if p.id != id {
            r.push(p);
        }
        i = i + 1;
    }
    assert(s@.subrange(0, s@.len() as int) =~= s@);
    r
}

/// The newest `max` points of `s`, or all of them when there are no more.
pub fn trim_points<T: Copy>(s: &Vec<Point<T>>, max: u64) -> (r: Vec<Point<T>>)
    ensures
        r@ == trim_front(s@, max as int),
        r@.len() <= max,
{
    if (s.len() as u64) <= max {
        let mut r: Vec<Point<T>> = Vec::new();
        let mut i: usize = 0;
        while i < s.len()
            invariant
                i <= s@.len(),
                r@ == s@.subrange(0, i as int),
            decreases s@.len() - i,
        {
            r.push(s[i]);
            assert(r@ =~= s@.subrange(0, i + 1));
            i = i + 1;
        }
        assert(s@.subrange(0, s@.len() as int) =~= s@);
        return r;
    }
    let start: usize = s.len() - max as usize;
    let mut r: Vec<Point<T>> = Vec::new();
    let mut i: usize = start;
    while i < s.len()
        invariant
            start <= i <= s@.len(),
            r@ == s@.subrange(start as int, i as int),
        decreases s@.len() - i,
    {
        r.push(s[i]);
        assert(r@ =~= s@.subrange(start as int, i + 1));
        i = i + 1;
    }
    r
}

/// What one emission step did with the new sample.
#[derive(Clone, Copy, Debug, PartialEq, Eq, Structural)]
pub enum EmitStep {
    /// The sample became the first anchor.
    First,
    /// The sample became the second anchor.
    Second,
    /// The sample became the lookahead anchor; `advanced` tells whether the
    /// window moved on (the old second anchor became the first and the sample the
    /// second). The window is full and asks to be smoothed.
    Window { advanced: bool },
}

/// What the trail asks of its host on a frame.
#[derive(Clone, Copy, Debug, PartialEq, Eq, Structural)]
pub enum Action {
    /// Sample the followed object and run an emission step.
    Emit,
    /// Render the manually added points.
    RenderManual,
    /// Nothing.
    Idle,
}

/// The state of a ribbon trail whose points carry transforms of type `T`.
/// Lifetimes and time deltas are counted in ticks (the host picks the unit).
pub struct Trail3D<T> {
    /// Points added by hand, used by batch smoothing and on-demand rendering.
    pub points: Vec<Point<T>>,
    /// Whether the manual points are rendered every frame while emission is off.
    pub always_update: bool,
    /// The three most recent samples, oldest first.
    pub a: Option<Point<T>>,
    pub b: Option<Point<T>>,
    pub c: Option<Point<T>>,
    /// The smoothed points of the current window, replaced every step.
    pub temp_segment: Vec<Point<T>>,
    /// The committed backbone of the trail, oldest first.
    pub store: Vec<Point<T>>,
    /// The id the next point receives.
    pub next_id: u64,
    /// Whether samples are taken every frame.
    pub emit: bool,
    /// The number of backbone segments kept.
    pub segments: u32,
    /// The lifetime of a new point, in ticks.
    pub lifetime: i64,
    /// The smoothing depth, 0 to 3.
    pub smoothing_iterations: u32,
}

impl<T: Copy> Trail3D<T> {
    /// The point that the next creation with this transform and age yields.
    pub open spec fn fresh(&self, transform: T, age: i64) -> Point<T> {
        Point { id: self.next_id, transform, age }
    }

    /// Ids strictly increase along the store followed by the smoothed segment, and
    /// all stay below the id that the next point receives, so no id is handed out
    /// twice.
    pub open spec fn wf(&self) -> bool {
        &&& ids_increase(self.store@ + self.temp_segment@)
        &&& ids_below(self.store@ + self.temp_segment@, self.next_id as int)
    }

    /// The most points the store may hold.
    pub open spec fn max_points(&self) -> int {
        self.segments as int * size_multiplier(self.smoothing_iterations as int)
    }

    /// Everything but the anchors and the store agree.
    pub open spec fn same_but_window(&self, o: &Self) -> bool {
        &&& self.points@ == o.points@
        &&& self.always_update == o.always_update
        &&& self.emit == o.emit
        &&& self.segments == o.segments
        &&& self.lifetime == o.lifetime
        &&& self.smoothing_iterations == o.smoothing_iterations
    }

    /// An empty trail with ids starting at 0: emission on, 20 segments, a lifetime
    /// of `lifetime` ticks, no smoothing.
    pub fn new(lifetime: i64) -> (r: Self)
        ensures
            r.points@.len() == 0,
            r.store@.len() == 0,
            r.temp_segment@.len() == 0,
            r.a is None && r.b is None && r.c is None,
            r.next_id == 0,
            r.always_update == false,
            r.emit == true,
            r.segments == 20,
            r.lifetime == lifetime,
            r.smoothing_iterations == 0,
            r.wf(),
    {
        let r = Trail3D {
            points: Vec::new(),
            always_update: false,
            a: None,
            b: None,
            c: None,
            temp_segment: Vec::new(),
            store: Vec::new(),
            next_id: 0,
            emit: true,
            segments: 20,
            lifetime,
            smoothing_iterations: 0,
        };
        assert(r.store@ + r.temp_segment@ =~= Seq::<Point<T>>::empty());
        r
    }

    /// A new point with the next id; ids are never handed out twice.
    pub fn make_point(&mut self, transform: T, age: i64) -> (r: Point<T>)
        requires
            old(self).next_id < u64::MAX,
        ensures
            r == old(self).fresh(transform, age),
            final(self).next_id == old(self).next_id + 1,
            final(self).same_but_window(old(self)),
            final(self).a == old(self).a,
            final(self).b == old(self).b,
            final(self).c == old(self).c,
            final(self).store@ == old(self).store@,
            final(self).temp_segment@ == old(self).temp_segment@,
            old(self).wf() ==> final(self).wf(),
    {
        let r = Point::new(self.next_id, transform, age);
        self.next_id = self.next_id + 1;
        r
    }

    /// Removes the stored points whose id is `id`.
    pub fn remove_point(&mut self, id: u64)
        ensures
            final(self).store@ == without_id(old(self).store@, id),
            final(self).same_but_window(old(self)),
            final(self).next_id == old(self).next_id,
            final(self).a == old(self).a,
            final(self).b == old(self).b,
            final(self).c == old(self).c,
            final(self).temp_segment@ == old(self).temp_segment@,
            old(self).wf() ==> final(self).wf(),
    {
        let ghost n = self.next_id as int;
        let ghost temp = self.temp_segment@;
        proof {
            lemma_ids_concat(self.store@, temp, n);
            if ids_increase(self.store@) && ids_below(self.store@, bound_before(temp, n)) {
                lemma_filter_ids(self.store@, other_id(id), bound_before(temp, n));
            }
        }
        self.store = remove_id(&self.store, id);
        proof {
            lemma_ids_concat(self.store@, temp, n);
        }
    }

    /// Removes the stored namesake of an anchor whose lifetime `delta` uses up,
    /// and returns the aged anchor.
    fn age_anchor_exec(&mut self, o: Option<Point<T>>, delta: u64) -> (r: Option<Point<T>>)
        ensures
            r == age_anchor(o, delta as int),
            final(self).store@ == drop_anchor(old(self).store@, o, delta as int),
            final(self).same_but_window(old(self)),
            final(self).next_id == old(self).next_id,
            final(self).a == old(self).a,
            final(self).b == old(self).b,
            final(self).c == old(self).c,
            final(self).temp_segment@ == old(self).temp_segment@,
            old(self).wf() ==> final(self).wf(),
    {
        match o {
            Some(p) => {
                let mut q = p;
                if q.update(delta) {
                    self.remove_point(q.id);
                }
                Some(q)
            },
            None => None,
        }
    }

    /// The most points the store may hold: `segments` times the multiplier of the
    /// smoothing depth.
    pub fn max_points_count(&self) -> (r: u64)
        ensures
            r == self.max_points(),
    {
        self.segments as u64 * multiplier(self.smoothing_iterations)
    }

    /// One update pass over the anchors and the store, `delta` ticks after the
    /// last. Returns false, and changes nothing, unless all three anchors are
    /// present.
    pub fn update_points(&mut self, delta: u64) -> (r: bool)
        ensures
            r == (old(self).a is Some && old(self).b is Some && old(self).c is Some),
            !r ==> *final(self) == *old(self),
            r ==> final(self).a == age_anchor(old(self).a, delta as int),
            r ==> final(self).b == age_anchor(old(self).b, delta as int),
            r ==> final(self).c == age_anchor(old(self).c, delta as int),
            r ==> final(self).store@ == pass_store(
                old(self).store@,
                old(self).a,
                old(self).b,
                old(self).c,
                delta as int,
                old(self).max_points(),
            ),
            final(self).store@.len() <= final(self).max_points() || !r,
            r ==> drawn_from(final(self).store@, old(self).store@),
            final(self).same_but_window(old(self)),
            final(self).next_id == old(self).next_id,
            final(self).temp_segment@ == old(self).temp_segment@,
            old(self).wf() ==> final(self).wf(),
    {
        if self.a.is_none() || self.b.is_none() || self.c.is_none() {
            return false;
        }
        let a = self.a;
        let b = self.b;
        let c = self.c;
        self.a = self.age_anchor_exec(a, delta);
        self.b = self.age_anchor_exec(b, delta);
        self.c = self.age_anchor_exec(c, delta);
        let alive = expire_points(&self.store, delta);
        let max = self.max_points_count();
        let ghost n = self.next_id as int;
        let ghost temp = self.temp_segment@;
        let ghost before = self.store@;
        proof {
            lemma_ids_concat(before, temp, n);
            if ids_increase(before) && ids_below(before, bound_before(temp, n)) {
                lemma_pass_ids(before, delta as int, max as int, bound_before(temp, n));
            }
        }
        self.store = trim_points(&alive, max);
        proof {
            lemma_ids_concat(self.store@, temp, n);
            lemma_pass_from(old(self).store@, old(self).a, old(self).b, old(self).c, delta as int, max as int);
        }
        true
    }

    /// The first anchor after an emission step, before aging.
    pub open spec fn window_a(&self, far: bool) -> Option<Point<T>> {
        if far { self.b } else { self.a }
    }

    /// The second anchor after an emission step with new point `np`, before aging.
    pub open spec fn window_b(&self, np: Point<T>, far: bool) -> Option<Point<T>> {
        if far { Some(np) } else { self.b }
    }

    /// The store after an emission step, before the update pass: when the window
    /// moves on, the smoothed segment is committed to it.
    pub open spec fn window_store(&self, far: bool) -> Seq<Point<T>> {
        if far { self.store@ + self.temp_segment@ } else { self.store@ }
    }

    /// The smoothed segment after an emission step, before it is recomputed.
    pub open spec fn window_temp(&self, far: bool) -> Seq<Point<T>> {
        if far { Seq::empty() } else { self.temp_segment@ }
    }

    /// One emission step, `delta` ticks after the last, with a new sample at
    /// `transform`. `far` tells whether the sample lies at least the commit
    /// distance from the second anchor (it is not read while that anchor is
    /// absent). The first sample fills the first anchor, the second the second;
    /// from then on the sample becomes the lookahead anchor, the window moves on
    /// exactly when `far` holds, and an update pass follows.
    pub fn update_emit(&mut self, transform: T, delta: u64, far: bool) -> (r: EmitStep)
        requires
            old(self).next_id < u64::MAX,
        ensures
            final(self).next_id == old(self).next_id + 1,
            final(self).same_but_window(old(self)),
            old(self).a is None ==> {
                &&& r == EmitStep::First
                &&& final(self).a == Some(old(self).fresh(transform, old(self).lifetime))
                &&& final(self).b == old(self).b
                &&& final(self).c == old(self).c
                &&& final(self).store@ == old(self).store@
                &&& final(self).temp_segment@ == old(self).temp_segment@
            },
            old(self).a is Some && old(self).b is None ==> {
                &&& r == EmitStep::Second
                &&& final(self).a == age_anchor(old(self).a, delta as int)
                &&& final(self).b == Some(old(self).fresh(transform, old(self).lifetime))
                &&& final(self).c == old(self).c
                &&& final(self).store@ == drop_anchor(old(self).store@, old(self).a, delta as int)
                &&& final(self).temp_segment@ == old(self).temp_segment@
            },
            old(self).a is Some && old(self).b is Some ==> {
                &&& r == (EmitStep::Window { advanced: far })
                &&& final(self).a == age_anchor(old(self).window_a(far), delta as int)
                &&& final(self).b == age_anchor(
                    old(self).window_b(old(self).fresh(transform, old(self).lifetime), far),
                    delta as int,
                )
                &&& final(self).c == age_anchor(
                    Some(old(self).fresh(transform, old(self).lifetime)),
                    delta as int,
                )
                &&& final(self).store@ == pass_store(
                    old(self).window_store(far),
                    old(self).window_a(far),
                    old(self).window_b(old(self).fresh(transform, old(self).lifetime), far),
                    Some(old(self).fresh(transform, old(self).lifetime)),
                    delta as int,
                    old(self).max_points(),
                )
                &&& final(self).store@.len() <= old(self).max_points()
                &&& drawn_from(final(self).store@, old(self).window_store(far))
                &&& final(self).temp_segment@ == old(self).window_temp(far)
            },
            old(self).wf() ==> final(self).wf(),
    {
        let lifetime = self.lifetime;
        let point = self.make_point(transform, lifetime);
        if self.a.is_none() {
            self.a = Some(point);
            return EmitStep::First;
        }
        if self.b.is_none() {
            let a = self.a;
            self.a = self.age_anchor_exec(a, delta);
            self.b = Some(point);
            return EmitStep::Second;
        }
        if far {
            self.a = self.b;
            self.b = Some(point);
            self.store.append(&mut self.temp_segment);
            assert(self.store@ + self.temp_segment@ =~= old(self).store@ + old(self).temp_segment@);
        }
        self.c = Some(point);
        let done = self.update_points(delta);
        assert(done);
        EmitStep::Window { advanced: far }
    }

    /// Replaces the smoothed segment with points made from `values` (transform
    /// and age each), which receive fresh consecutive ids.
    pub fn set_temp_segment(&mut self, values: Vec<(T, i64)>)
        requires
            old(self).next_id + values@.len() <= u64::MAX,
        ensures
            final(self).temp_segment@ == with_ids(values@, old(self).next_id as int),
            final(self).next_id == old(self).next_id + values@.len(),
            final(self).same_but_window(old(self)),
            final(self).a == old(self).a,
            final(self).b == old(self).b,
            final(self).c == old(self).c,
            final(self).store@ == old(self).store@,
            old(self).wf() ==> final(self).wf(),
    {
        let mut out: Vec<Point<T>> = Vec::new();
        let mut i: usize = 0;
        while i < values.len()
            invariant
                i <= values@.len(),
                self.next_id == old(self).next_id + i,
                old(self).next_id + values@.len() <= u64::MAX,
                out@ == with_ids(values@.subrange(0, i as int), old(self).next_id as int),
                self.same_but_window(old(self)),
                self.a == old(self).a,
                self.b == old(self).b,
                self.c == old(self).c,
                self.store@ == old(self).store@,
            decreases values@.len() - i,
        {
            let (t, age) = values[i];
            let p = self.make_point(t, age);
            out.push(p);
            assert(out@ =~= with_ids(values@.subrange(0, i + 1), old(self).next_id as int));
            i = i + 1;
        }
        assert(values@.subrange(0, values@.len() as int) =~= values@);
        proof {
            let n0 = old(self).next_id as int;
            lemma_ids_concat(old(self).store@, old(self).temp_segment@, n0);
            if old(self).wf() {
                assert(ids_below(old(self).store@, n0));
            }
        }
        self.temp_segment = out;
        proof {
            lemma_ids_concat(self.store@, self.temp_segment@, self.next_id as int);
        }
    }

    /// Adds a manual point at `transform` with the configured lifetime.
    pub fn add_trail_point(&mut self, transform: T)
        requires
            old(self).next_id < u64::MAX,
        ensures
            final(self).points@ == old(self).points@.push(old(self).fresh(transform, old(self).lifetime)),
            final(self).next_id == old(self).next_id + 1,
            final(self).always_update == old(self).always_update,
            final(self).emit == old(self).emit,
            final(self).segments == old(self).segments,
            final(self).lifetime == old(self).lifetime,
            final(self).smoothing_iterations == old(self).smoothing_iterations,
            final(self).a == old(self).a,
            final(self).b == old(self).b,
            final(self).c == old(self).c,
            final(self).store@ == old(self).store@,
            final(self).temp_segment@ == old(self).temp_segment@,
            old(self).wf() ==> final(self).wf(),
    {
        let lifetime = self.lifetime;
        let point = self.make_point(transform, lifetime);
        self.points.push(point);
    }

    /// Removes every manual point.
    pub fn clear_trail_points(&mut self)
        ensures
            final(self).points@.len() == 0,
            final(self).next_id == old(self).next_id,
            final(self).always_update == old(self).always_update,
            final(self).emit == old(self).emit,
            final(self).segments == old(self).segments,
            final(self).lifetime == old(self).lifetime,
            final(self).smoothing_iterations == old(self).smoothing_iterations,
            final(self).a == old(self).a,
            final(self).b == old(self).b,
            final(self).c == old(self).c,
            final(self).store@ == old(self).store@,
            final(self).temp_segment@ == old(self).temp_segment@,
            old(self).wf() ==> final(self).wf(),
    {
        self.points.clear();
    }

    /// The interior control windows of the manual points: for each `i` from 1 to
    /// `len - 2`, the points `i - 1`, `i`, `i + 1`.
    pub fn interior_triples(&self) -> (r: Vec<(Point<T>, Point<T>, Point<T>)>)
        ensures
            r@.len() == if self.points@.len() >= 3 { self.points@.len() - 2 } else { 0 },
            forall|i: int|
                0 <= i < r@.len() ==> #[trigger] r@[i] == (
                    self.points@[i],
                    self.points@[i + 1],
                    self.points@[i + 2],
                ),
    {
        let mut r: Vec<(Point<T>, Point<T>, Point<T>)> = Vec::new();
        let n = self.points.len();
        if n < 3 {
            return r;
        }
        let mut i: usize = 0;
        while i + 2 < n
            invariant
                n == self.points@.len(),
                n >= 3,
                i <= n - 2,
                r@.len() == i,
                forall|k: int|
                    0 <= k < r@.len() ==> #[trigger] r@[k] == (
                        self.points@[k],
                        self.points@[k + 1],
                        self.points@[k + 2],
                    ),
            decreases n - i,
        {
            r.push((self.points[i], self.points[i + 1], self.points[i + 2]));
            i = i + 1;
        }
        r
    }

    /// Batch smoothing of the manual points. `groups[i]` holds the smoothed
    /// points (transform and age each) of the `i`-th interior triple. With three
    /// or more points, the list becomes the first point, the groups' points in
    /// order with fresh consecutive ids, and the last point; with fewer nothing
    /// changes.
    pub fn smooth(&mut self, groups: Vec<Vec<(T, i64)>>)
        requires
            old(self).points@.len() >= 3 ==> groups@.len() == old(self).points@.len() - 2,
            old(self).next_id + flat(views(groups@)).len() <= u64::MAX,
        ensures
            old(self).points@.len() < 3 ==> final(self).points@ == old(self).points@
                && final(self).next_id == old(self).next_id,
            old(self).points@.len() >= 3 ==> {
                &&& final(self).points@ == seq![old(self).points@[0]] + with_ids(
                    flat(views(groups@)),
                    old(self).next_id as int,
                ) + seq![old(self).points@.last()]
                &&& final(self).next_id == old(self).next_id + flat(views(groups@)).len()
            },
            final(self).always_update == old(self).always_update,
            final(self).emit == old(self).emit,
            final(self).segments == old(self).segments,
            final(self).lifetime == old(self).lifetime,
            final(self).smoothing_iterations == old(self).smoothing_iterations,
            final(self).a == old(self).a,
            final(self).b == old(self).b,
            final(self).c == old(self).c,
            final(self).store@ == old(self).store@,
            final(self).temp_segment@ == old(self).temp_segment@,
            old(self).wf() ==> final(self).wf(),
    {
        let n = self.points.len();
        if n < 3 {
            return;
        }
        let ghost vs = views(groups@);
        let ghost start = self.next_id as int;
        let mut out: Vec<Point<T>> = Vec::new();
        out.push(self.points[0]);
        let mut id: u64 = self.next_id;
        let mut i: usize = 0;
        while i < groups.len()
            invariant
                vs == views(groups@),
                i <= groups@.len(),
                start + flat(vs).len() <= u64::MAX,
                id == start + flat(vs.subrange(0, i as int)).len(),
                out@ == seq![self.points@[0]] + with_ids(flat(vs.subrange(0, i as int)), start),
            decreases groups@.len() - i,
        {
            let g = &groups[i];
            let ghost before = flat(vs.subrange(0, i as int));
            proof {
                lemma_flat_prefix(vs, i as int);
                assert(vs[i as int] == g@);
            }
            let mut j: usize = 0;
            while j < g.len()
                invariant
                    i < groups@.len(),
                    vs == views(groups@),
                    g@ == vs[i as int],
                    j <= g@.len(),
                    before == flat(vs.subrange(0, i as int)),
                    before.len() + g@.len() <= flat(vs).len(),
                    start + flat(vs).len() <= u64::MAX,
                    id == start + before.len() + j,
                    out@ == seq![self.points@[0]] + with_ids(before + g@.subrange(0, j as int), start),
                decreases g@.len() - j,
            {
                let (t, age) = g[j];
                out.push(Point::new(id, t, age));
                assert(out@ =~= seq![self.points@[0]] + with_ids(before + g@.subrange(0, j + 1), start));
                id = id + 1;
                j = j + 1;
            }
            proof {
                assert(g@.subrange(0, g@.len() as int) =~= g@);
                let s1 = vs.subrange(0, i + 1);
                assert(s1.drop_last() =~= vs.subrange(0, i as int));
                assert(flat(s1) == before + g@);
            }
            i = i + 1;
        }
        assert(vs.subrange(0, vs.len() as int) =~= vs);
        out.push(self.points[n - 1]);
        self.next_id = id;
        self.points = out;
    }

    /// Asks for the manual points to be rendered. With `update` they are rendered
    /// on every frame from now on and false is returned; otherwise true is returned,
    /// asking for one render now.
    pub fn render(&mut self, update: bool) -> (r: bool)
        ensures
            r == !update,
            final(self).always_update == (old(self).always_update || update),
            final(self).points@ == old(self).points@,
            final(self).next_id == old(self).next_id,
            final(self).emit == old(self).emit,
            final(self).segments == old(self).segments,
            final(self).lifetime == old(self).lifetime,
            final(self).smoothing_iterations == old(self).smoothing_iterations,
            final(self).a == old(self).a,
            final(self).b == old(self).b,
            final(self).c == old(self).c,
            final(self).store@ == old(self).store@,
            final(self).temp_segment@ == old(self).temp_segment@,
            old(self).wf() ==> final(self).wf(),
    {
        if update {
            self.always_update = true;
            false
        } else {
            true
        }
    }

    /// The points of the live trail, in order: the store, the smoothed segment and
    /// the lookahead anchor; none while that anchor is absent.
    pub fn live_points(&self) -> (r: Option<Vec<Point<T>>>)
        ensures
            self.c is None ==> r is None,
            self.c is Some ==> r is Some && r->Some_0@ == self.store@ + self.temp_segment@ + seq![
                self.c->Some_0,
            ],
    {
        match self.c {
            None => None,
            Some(c) => {
                let mut out: Vec<Point<T>> = Vec::new();
                let mut i: usize = 0;
                while i < self.store.len()
                    invariant
                        i <= self.store@.len(),
                        out@ == self.store@.subrange(0, i as int),
                    decreases self.store@.len() - i,
                {
                    out.push(self.store[i]);
                    assert(out@ =~= self.store@.subrange(0, i + 1));
                    i = i + 1;
                }
                assert(self.store@.subrange(0, self.store@.len() as int) =~= self.store@);
                let mut j: usize = 0;
                while j < self.temp_segment.len()
                    invariant
                        j <= self.temp_segment@.len(),
                        out@ == self.store@ + self.temp_segment@.subrange(0, j as int),
                    decreases self.temp_segment@.len() - j,
                {
                    out.push(self.temp_segment[j]);
                    assert(out@ =~= self.store@ + self.temp_segment@.subrange(0, j + 1));
                    j = j + 1;
                }
                assert(self.temp_segment@.subrange(0, self.temp_segment@.len() as int) =~= self.temp_segment@);
                out.push(c);
                Some(out)
            },
        }
    }

    /// The smoothed points for the current window, at the configured depth.
    pub fn smoothing_terms(&self) -> (r: Vec<Mix>)
        ensures
            r@ == crate::smoother::chaikin_terms(self.smoothing_iterations as int),
    {
        chaikin(self.smoothing_iterations)
    }

    /// What the host should do on a frame: emit while emission is on, else render
    /// the manual points if asked to on every frame.
    pub fn next_action(&self) -> (r: Action)
        ensures
            self.emit ==> r == Action::Emit,
            !self.emit && self.always_update ==> r == Action::RenderManual,
            !self.emit && !self.always_update ==> r == Action::Idle,
    {
        if self.emit {
            Action::Emit
        } else if self.always_update {
            Action::RenderManual
        } else {
            Action::Idle
        }
    }
}

/// The groups before `i` are at most as many points as all of them.
pub proof fn lemma_flat_prefix<A>(gs: Seq<Seq<A>>, i: int)
    requires
        0 <= i < gs.len(),
    ensures
        flat(gs.subrange(0, i)).len() + gs[i].len() <= flat(gs).len(),
        flat(gs.subrange(0, i + 1)) == flat(gs.subrange(0, i)) + gs[i],
    decreases gs.len(),
{
    let s1 = gs.subrange(0, i + 1);
    assert(s1.drop_last() =~= gs.subrange(0, i));
    if i + 1 < gs.len() {
        lemma_flat_prefix(gs.drop_last(), i);
        assert(gs.drop_last().subrange(0, i) =~= gs.subrange(0, i));
        assert(gs.drop_last().subrange(0, i + 1) =~= gs.subrange(0, i + 1));
    } else {
        assert(s1 =~= gs);
    }
}

} // verus!
