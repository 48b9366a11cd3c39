use vstd::prelude::*;

verus! {

/// A rotating vector: coefficient `c0` (its length is the circle's radius,
/// its argument the initial phase) turning `f` whole cycles per unit of time.
#[derive(Clone, Debug)]
pub struct Epicycle<C> {
    pub c0: C,
    pub f: i32,
}

impl<C> Epicycle<C> {
    pub fn new(c0: C, f: i32) -> (r: Epicycle<C>)
        ensures
            r.c0 == c0,
            r.f == f,
    {
        Epicycle { c0, f }
    }
}

/// The frequency of entry `i` of a decomposition: +1, -1, +2, -2, ...
pub open spec fn frequency_at(i: int) -> int {
    if i % 2 == 0 {
        i / 2 + 1
    } else {
        -(i / 2 + 1)
    }
}

/// Decomposes `shape` into the harmonics ±1 … ±(n−1), in that interleaved
/// order: entry 2(m−1) turns at +m, entry 2(m−1)+1 at −m. Harmonic 0 is left
/// out. Each entry's coefficient is what `coefficient(shape, k)` gives for its
/// frequency `k`.
pub fn compute_epicycles<S, C, F: Fn(&Vec<S>, i32) -> C>(
    shape: &Vec<S>,
    n: u8,
    coefficient: F,
) -> (r: Vec<Epicycle<C>>)
    requires
        shape.len() >= 1,
        n >= 1,
        forall|k: i32| -256 < k < 256 ==> #[trigger] coefficient.requires((shape, k)),
    ensures
        r.len() == 2 * (n - 1),
        forall|i: int| 0 <= i < r.len() ==> #[trigger] r[i].f == frequency_at(i),
        forall|m: int|
            1 <= m < n ==> #[trigger] r[2 * (m - 1)].f == m && r[2 * (m - 1) + 1].f == -m,
        forall|i: int| 0 <= i < r.len() ==> #[trigger] r[i].f != 0,
        forall|i: int|
            0 <= i < r.len() ==> coefficient.ensures((shape, #[trigger] r[i].f), r[i].c0),
{
    let mut epicycles: Vec<Epicycle<C>> = Vec::new();
    let mut m: u8 = 1;
    while m < n
        invariant
            1 <= m <= n,
            epicycles.len() == 2 * (m - 1),
            forall|k: i32| -256 < k < 256 ==> #[trigger] coefficient.requires((shape, k)),
            forall|i: int| 0 <= i < epicycles.len() ==> #[trigger] epicycles[i].f == frequency_at(i),
            forall|i: int|
                0 <= i < epicycles.len() ==> coefficient.ensures(
                    (shape, #[trigger] epicycles[i].f),
                    epicycles[i].c0,
                ),
        decreases n - m,
    {
        let f: i32 = m as i32;
        let positive = Epicycle { c0: coefficient(shape, f), f };
        epicycles.push(positive);
        let negative = Epicycle { c0: coefficient(shape, -f), f: -f };
        epicycles.push(negative);
        m = m + 1;
    }
    assert forall|m: int| 1 <= m < n implies #[trigger] epicycles[2 * (m - 1)].f == m
        && epicycles[2 * (m - 1) + 1].f == -m by {
        assert(epicycles[2 * (m - 1)].f == frequency_at(2 * (m - 1)));
        assert(epicycles[2 * (m - 1) + 1].f == frequency_at(2 * (m - 1) + 1));
    }
    epicycles
}

/// The chain of partial sums: `origin`, then each point is `advance` applied
/// to its predecessor and the next epicycle, in list order. The last point
/// is the tip.
pub fn partial_sums<C, P, F: Fn(&P, &Epicycle<C>) -> P>(
    epicycles: &Vec<Epicycle<C>>,
    origin: P,
    advance: F,
) -> (r: Vec<P>)
    requires
        forall|p: &P, e: &Epicycle<C>| #[trigger] advance.requires((p, e)),
    ensures
        r.len() == epicycles.len() + 1,
        r[0] == origin,
        forall|i: int|
            0 <= i < epicycles.len() ==> advance.ensures((&r[i], &epicycles[i]), #[trigger] r[i + 1]),
{
    let mut points: Vec<P> = Vec::new();
    points.push(origin);
    let mut i: usize = 0;
    while i < epicycles.len()
        invariant
            i <= epicycles.len(),
            points.len() == i + 1,
            points[0] == origin,
            forall|p: &P, e: &Epicycle<C>| #[trigger] advance.requires((p, e)),
            forall|j: int|
                0 <= j < i ==> advance.ensures((&points[j], &epicycles[j]), #[trigger] points[j + 1]),
        decreases epicycles.len() - i,
    {
        let next = advance(&points[i], &epicycles[i]);
        points.push(next);
        i = i + 1;
    }
    points
}

} // verus!
