//! Intervals and axis-aligned boxes.

use crate::ray::Ray;
use crate::scalar::{Scalar, SCALE};
use crate::vec3::Vec3;
use vstd::prelude::*;

verus! {

/// The numbers from `min` to `max`. An interval whose `max` is not above
/// its `min` holds nothing a ray can travel through.
#[derive(Clone, Copy, Debug, PartialEq, Eq, Structural)]
pub struct Interval {
    pub min: Scalar,
    pub max: Scalar,
}

impl Interval {
    /// The interval that holds no number at all.
    pub open spec fn spec_empty() -> Interval {
        Interval { min: Scalar { raw: i64::MAX }, max: Scalar { raw: i64::MIN } }
    }

    /// `max` is not above `min`.
    pub open spec fn is_closed_off(self) -> bool {
        self.max.raw <= self.min.raw
    }

    /// The nearest number to `x` within the interval, the lower end
    /// winning.
    pub open spec fn spec_clamp(self, x: Scalar) -> Scalar {
        if x.raw < self.min.raw {
            self.min
        } else if x.raw > self.max.raw {
            self.max
        } else {
            x
        }
    }

    /// The interval widened by `delta` in all, half of it at each end.
    pub open spec fn spec_expand(self, delta: Scalar) -> Interval {
        let padding = delta.over(Scalar::spec_from_int(2));
        Interval { min: self.min.minus(padding), max: self.max.plus(padding) }
    }

    /// What the interval shares with `other`.
    pub open spec fn overlap(self, other: Interval) -> Interval {
        Interval {
            min: if other.min.raw > self.min.raw {
                other.min
            } else {
                self.min
            },
            max: if other.max.raw < self.max.raw {
                other.max
            } else {
                self.max
            },
        }
    }

    /// The parameters at which a ray, seen along one axis from `origin`
    /// with speed `direction`, enters and leaves the interval:
    /// `(end - origin) / direction` for each end, the lower end first
    /// unless the ray runs in the negative direction.
    pub open spec fn crossing(self, origin: Scalar, direction: Scalar) -> Interval {
        let adinv = Scalar { raw: SCALE }.over(direction);
        let t0 = self.min.minus(origin).times(adinv);
        let t1 = self.max.minus(origin).times(adinv);
        if direction.raw < 0 {
            Interval { min: t1, max: t0 }
        } else {
            Interval { min: t0, max: t1 }
        }
    }

    pub fn new(min: Scalar, max: Scalar) -> (r: Interval)
        ensures
            r == (Interval { min, max }),
    {
        Interval { min, max }
    }

    pub fn empty() -> (r: Interval)
        ensures
            r == Interval::spec_empty(),
    {
        Interval { min: Scalar::max_value(), max: Scalar::min_value() }
    }

    pub fn clamp(&self, x: Scalar) -> (r: Scalar)
        ensures
            r == self.spec_clamp(x),
    {
        if x.raw < self.min.raw {
            self.min
        } else if x.raw > self.max.raw {
            self.max
        } else {
            x
        }
    }

    pub fn expand(&self, delta: Scalar) -> (r: Interval)
        ensures
            r == self.spec_expand(delta),
    {
        let padding = delta / Scalar::from_int(2);
        Interval::new(self.min - padding, self.max + padding)
    }
}

impl Default for Interval {
    fn default() -> (r: Interval)
        ensures
            r == Interval::spec_empty(),
    {
        Interval::empty()
    }
}

/// A box with its sides along the axes: one interval for each.
#[derive(Clone, Copy, Debug, PartialEq, Eq, Structural)]
pub struct BBox {
    pub x: Interval,
    pub y: Interval,
    pub z: Interval,
}

/// The interval from the smaller of `a` and `b` to the larger.
pub open spec fn between(a: Scalar, b: Scalar) -> Interval {
    if a.raw <= b.raw {
        Interval { min: a, max: b }
    } else {
        Interval { min: b, max: a }
    }
}

impl BBox {
    /// The interval of the axis `index`: 1 for `y`, 2 for `z`, `x` for any
    /// other.
    pub open spec fn spec_axis(self, index: int) -> Interval {
        if index == 1 {
            self.y
        } else if index == 2 {
            self.z
        } else {
            self.x
        }
    }

    /// The smallest box that holds both points.
    pub open spec fn spec_from_points(a: Vec3, b: Vec3) -> BBox {
        BBox { x: between(a.x, b.x), y: between(a.y, b.y), z: between(a.z, b.z) }
    }

    /// What is left of `ray_t` after the slabs of the first `axes` axes:
    /// the parameters at which the ray is inside each of them.
    pub open spec fn narrowed(self, r: Ray, ray_t: Interval, axes: nat) -> Interval
        decreases axes,
    {
        if axes == 0 {
            ray_t
        } else {
            let axis = axes - 1;
            self.narrowed(r, ray_t, axis as nat).overlap(
                self.spec_axis(axis).crossing(r.origin.spec_get(axis), r.direction.spec_get(axis)),
            )
        }
    }

    /// The ray is inside the box at some parameter of `ray_t`: the slabs
    /// of the three axes leave an interval with its `max` above its `min`.
    pub open spec fn spec_hit(self, r: Ray, ray_t: Interval) -> bool {
        !self.narrowed(r, ray_t, 3).is_closed_off()
    }

    pub fn new(x: Interval, y: Interval, z: Interval) -> (r: BBox)
        ensures
            r == (BBox { x, y, z }),
    {
        BBox { x, y, z }
    }

    pub fn from_points(a: Vec3, b: Vec3) -> (r: BBox)
        ensures
            r == BBox::spec_from_points(a, b),
    {
        let x = if a.get(0).raw <= b.get(0).raw {
            Interval::new(a.get(0), b.get(0))
        } else {
            Interval::new(b.get(0), a.get(0))
        };
        let y = if a.get(1).raw <= b.get(1).raw {
            Interval::new(a.get(1), b.get(1))
        } else {
            Interval::new(b.get(1), a.get(1))
        };
        let z = if a.get(2).raw <= b.get(2).raw {
            Interval::new(a.get(2), b.get(2))
        } else {
            Interval::new(b.get(2), a.get(2))
        };
        BBox { x, y, z }
    }

    /// The interval of the axis `index`.
    pub fn axis(&self, index: usize) -> (r: Interval)
        ensures
            r == self.spec_axis(index as int),
    {
        if index == 1 {
            self.y
        } else if index == 2 {
            self.z
        } else {
            self.x
        }
    }

    /// The slab test: whether `r` is inside the box at some parameter of
    /// `ray_t`.
    pub fn hit(&self, r: &Ray, ray_t: Interval) -> (hit: bool)
        ensures
            hit == self.spec_hit(*r, ray_t),
    {
        let mut window = ray_t;
        let mut axis: usize = 0;
        while axis < 3
            invariant
                axis <= 3,
                window == self.narrowed(*r, ray_t, axis as nat),
                axis > 0 ==> !window.is_closed_off(),
            decreases 3 - axis,
        {
            let ax = self.axis(axis);
            let direction = r.direction.get(axis);
            let adinv = Scalar::one() / direction;

            let t0 = (ax.min - r.origin.get(axis)) * adinv;
            let t1 = (ax.max - r.origin.get(axis)) * adinv;

            if direction.raw >= 0 {
                if t0.raw > window.min.raw {
                    window.min = t0;
                }
                if t1.raw < window.max.raw {
                    window.max = t1;
                }
            } else {
                if t1.raw > window.min.raw {
                    window.min = t1;
                }
                if t0.raw < window.max.raw {
                    window.max = t0;
                }
            }
            axis = axis + 1;

            if window.max.raw <= window.min.raw {
                proof {
                    lemma_closed_off_stays(*self, *r, ray_t, axis as nat, 3);
                }
                return false;
            }
        }
        true
    }
}

impl Default for BBox {
    fn default() -> (r: BBox)
        ensures
            r == (BBox {
                x: Interval::spec_empty(),
                y: Interval::spec_empty(),
                z: Interval::spec_empty(),
            }),
    {
        BBox { x: Interval::default(), y: Interval::default(), z: Interval::default() }
    }
}

/// Each further slab only narrows what is left, so an interval that is
/// closed off after some axes is closed off after more.
pub proof fn lemma_closed_off_stays(b: BBox, r: Ray, ray_t: Interval, fewer: nat, more: nat)
    requires
        fewer <= more,
        b.narrowed(r, ray_t, fewer).is_closed_off(),
    ensures
        b.narrowed(r, ray_t, more).is_closed_off(),
    decreases more,
{
    if fewer < more {
        lemma_closed_off_stays(b, r, ray_t, fewer, (more - 1) as nat);
    }
}

} // verus!
