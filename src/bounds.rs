use vstd::prelude::*;
use vstd::math::{max, min};

verus! {

/// Three values, one per axis.
pub struct Point3<T> {
    pub x: T,
    pub y: T,
    pub z: T,
}

impl<T> Point3<T> {
    pub fn create3(x: T, y: T, z: T) -> (r: Self)
        ensures
            r.x == x && r.y == y && r.z == z,
    {
        Point3 { x, y, z }
    }
}

impl<T: Clone> Point3<T> {
    /// The same value on every axis.
    pub fn create1(v: T) -> (r: Self)
        ensures
            cloned(v, r.x) && cloned(v, r.y) && r.z == v,
    {
        Point3 { x: v.clone(), y: v.clone(), z: v }
    }
}

/// Axis-aligned box over integer coordinates. A box whose lower corner lies
/// above its upper corner on some axis holds no point.
pub struct AABBCC {
    /// The lower corner.
    pub lower_bound: Point3<i32>,
    /// The upper corner.
    pub upper_bound: Point3<i32>,
}

impl AABBCC {
    pub fn create(low: i32, up: i32) -> (r: Self)
        ensures
            r.lower_bound.x == low && r.lower_bound.y == low && r.lower_bound.z == low,
            r.upper_bound.x == up && r.upper_bound.y == up && r.upper_bound.z == up,
    {
        AABBCC { lower_bound: Point3::create1(low), upper_bound: Point3::create1(up) }
    }

    /// The box that holds no point yet: every point widens it to that point.
    pub fn create_empty() -> (r: Self)
        ensures
            r.lower_bound.x == i32::MAX && r.lower_bound.y == i32::MAX && r.lower_bound.z
                == i32::MAX,
            r.upper_bound.x == i32::MIN && r.upper_bound.y == i32::MIN && r.upper_bound.z
                == i32::MIN,
    {
        Self::create(i32::MAX, i32::MIN)
    }

    /// Upper corner minus lower corner, per axis.
    pub fn size(&self) -> (r: Point3<i64>)
        ensures
            r.x == self.upper_bound.x - self.lower_bound.x,
            r.y == self.upper_bound.y - self.lower_bound.y,
            r.z == self.upper_bound.z - self.lower_bound.z,
    {
        Point3::create3(
            self.upper_bound.x as i64 - self.lower_bound.x as i64,
            self.upper_bound.y as i64 - self.lower_bound.y as i64,
            self.upper_bound.z as i64 - self.lower_bound.z as i64,
        )
    }

    /// Widens the box to hold `v_pt`.
    pub fn combine(&mut self, v_pt: Point3<i32>)
        ensures
            final(self).lower_bound.x == min(old(self).lower_bound.x as int, v_pt.x as int),
            final(self).lower_bound.y == min(old(self).lower_bound.y as int, v_pt.y as int),
            final(self).lower_bound.z == min(old(self).lower_bound.z as int, v_pt.z as int),
            final(self).upper_bound.x == max(old(self).upper_bound.x as int, v_pt.x as int),
            final(self).upper_bound.y == max(old(self).upper_bound.y as int, v_pt.y as int),
            final(self).upper_bound.z == max(old(self).upper_bound.z as int, v_pt.z as int),
    {
        if v_pt.x < self.lower_bound.x {
            self.lower_bound.x = v_pt.x;
        }
        if v_pt.y < self.lower_bound.y {
            self.lower_bound.y = v_pt.y;
        }
        if v_pt.z < self.lower_bound.z {
            self.lower_bound.z = v_pt.z;
        }
        if v_pt.x > self.upper_bound.x {
            self.upper_bound.x = v_pt.x;
        }
        if v_pt.y > self.upper_bound.y {
            self.upper_bound.y = v_pt.y;
        }
        if v_pt.z > self.upper_bound.z {
            self.upper_bound.z = v_pt.z;
        }
    }
}

} // verus!
