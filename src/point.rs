use vstd::prelude::*;

verus! {

/// Smallest remaining lifetime a point can hold.
pub open spec fn age_floor() -> int {
    i64::MIN as int
}

/// The remaining lifetime `age` after `delta` ticks have passed, clamped at the
/// smallest representable value.
pub open spec fn aged(age: int, delta: int) -> int {
    if age - delta < age_floor() { age_floor() } else { age - delta }
}

/// One sample of the trail: a unique id, the followed object's transform, and
/// the remaining lifetime in ticks.
#[derive(Clone, Copy, Debug)]
pub struct Point<T> {
    pub id: u64,
    pub transform: T,
    pub age: i64,
}

impl<T: Copy> Point<T> {
    /// A point with the given id, transform and remaining lifetime.
    pub fn new(id: u64, transform: T, age: i64) -> (r: Self)
        ensures
            r.id == id,
            r.transform == transform,
            r.age == age,
    {
        Point { id, transform, age }
    }

    /// Lets `delta` ticks pass; returns whether the lifetime is used up.
    pub fn update(&mut self, delta: u64) -> (expired: bool)
        ensures
            final(self).id == old(self).id,
            final(self).transform == old(self).transform,
            final(self).age == aged(old(self).age as int, delta as int),
            expired == (old(self).age - delta <= 0),
            expired == (final(self).age <= 0),
    {
        let next: i128 = self.age as i128 - delta as i128;
        if next < i64::MIN as i128 {
            self.age = i64::MIN;
        } else {
            self.age = next as i64;
        }
        self.age <= 0
    }
}

} // verus!
