use vstd::prelude::*;

verus! {

/// One vertex of the ribbon's triangle strip, by position in the point sequence
/// being rendered. The vertex lies beside point `cur`, offset along the normal of
/// the segment from `prev` to `cur`; `step / steps` is its place along the trail
/// and `side` (0 or 1) the edge of the ribbon, which is also its `v` texture
/// coordinate.
#[derive(Clone, Copy, Debug, PartialEq, Eq, Structural)]
pub struct StripVertex {
    pub prev: usize,
    pub cur: usize,
    pub step: usize,
    pub steps: usize,
    pub side: usize,
}

/// The `k`-th vertex of a strip whose places along the trail are counted out of
/// `steps`: two per segment, the segment `i` joining point `i` to point `i + 1`.
pub open spec fn strip_vertex(steps: int, k: int) -> StripVertex {
    StripVertex {
        prev: (k / 2) as usize,
        cur: (k / 2 + 1) as usize,
        step: (k / 2) as usize,
        steps: steps as usize,
        side: (k % 2) as usize,
    }
}

/// Number of vertices of the strip over `n` points.
pub open spec fn strip_len(n: int) -> int {
    if n < 2 { 0 } else { 2 * (n - 1) }
}

/// The triangle strip over a sequence of `n` points: nothing for fewer than two,
/// else two vertices for each of the `n - 1` segments, in order, with places
/// along the trail counted out of `steps`.
pub fn strip_vertices(n: usize, steps: usize) -> (r: Vec<StripVertex>)
    ensures
        r@.len() == strip_len(n as int),
        forall|k: int| 0 <= k < r@.len() ==> #[trigger] r@[k] == strip_vertex(steps as int, k),
{
    let mut r: Vec<StripVertex> = Vec::new();
    if n < 2 {
        return r;
    }
    let segments: usize = n - 1;
    let mut i: usize = 0;
    while i < segments
        invariant
            segments == n - 1,
            n >= 2,
            i <= segments,
            r@.len() == 2 * i,
            forall|k: int| 0 <= k < r@.len() ==> #[trigger] r@[k] == strip_vertex(steps as int, k),
        decreases segments - i,
    {
        r.push(StripVertex { prev: i, cur: i + 1, step: i, steps, side: 0 });
        r.push(StripVertex { prev: i, cur: i + 1, step: i, steps, side: 1 });
        proof {
            assert(r@[2 * i as int] == strip_vertex(steps as int, 2 * i as int));
            assert(r@[2 * i + 1] == strip_vertex(steps as int, 2 * i + 1));
        }
        i = i + 1;
    }
    r
}

/// The strip for `count` points to render. When `lead` is set the renderer puts a
/// synthesized point before them, which serves only as the first segment's start;
/// with fewer than two points to render nothing is drawn. Either way a segment's
/// place along the trail is counted out of `count`.
pub fn strip_for(count: usize, lead: bool) -> (r: Vec<StripVertex>)
    requires
        count < usize::MAX,
    ensures
        count < 2 ==> r@.len() == 0,
        count >= 2 && lead ==> r@ == strip_vertices_spec(count + 1, count as int),
        count >= 2 && !lead ==> r@ == strip_vertices_spec(count as int, count as int),
{
    if count < 2 {
        Vec::new()
    } else if lead {
        let r = strip_vertices(count + 1, count);
        assert(r@ =~= strip_vertices_spec(count + 1, count as int));
        r
    } else {
        let r = strip_vertices(count, count);
        assert(r@ =~= strip_vertices_spec(count as int, count as int));
        r
    }
}

/// The whole strip over `n` points with places counted out of `steps`, as a
/// sequence.
pub open spec fn strip_vertices_spec(n: int, steps: int) -> Seq<StripVertex> {
    Seq::new(strip_len(n) as nat, |k: int| strip_vertex(steps, k))
}

} // verus!
