//! Points in machine space.

use vstd::prelude::*;

use crate::double::num;
use crate::double::Double;
use crate::double::ZERO;

verus! {

/// A point or direction in X, Y and Z.
#[derive(Clone, Copy, Debug)]
pub struct Vec3 {
    pub x: Double,
    pub y: Double,
    pub z: Double,
}

/// A point or direction in X, Y, Z and filament travel.
#[derive(Clone, Copy, Debug)]
pub struct Vec4 {
    pub x: Double,
    pub y: Double,
    pub z: Double,
    pub w: Double,
}

impl Vec3 {
    #[verifier::allow_in_spec]
    pub fn new(x: Double, y: Double, z: Double) -> Vec3
        returns
            (Vec3 { x, y, z }),
    {
        Vec3 { x, y, z }
    }

    #[verifier::allow_in_spec]
    pub fn dot(self, other: Vec3) -> Double
        returns
            self.x * other.x + self.y * other.y + self.z * other.z,
    {
        self.x * other.x + self.y * other.y + self.z * other.z
    }

    #[verifier::allow_in_spec]
    pub fn length(self) -> Double
        returns
            self.dot(self).sqrt(),
    {
        self.dot(self).sqrt()
    }

    /// Numeric equality of all components.
    #[verifier::allow_in_spec]
    pub fn matches(self, other: Vec3) -> bool
        returns
            self.x.equals(other.x) && self.y.equals(other.y) && self.z.equals(other.z),
    {
        self.x == other.x && self.y == other.y && self.z == other.z
    }

    /// The component with the index `axis`; Z for indices past one.
    #[verifier::allow_in_spec]
    pub fn axis(self, axis: usize) -> Double
        returns
            (if axis == 0 {
                self.x
            } else if axis == 1 {
                self.y
            } else {
                self.z
            }),
    {
        if axis == 0 {
            self.x
        } else if axis == 1 {
            self.y
        } else {
            self.z
        }
    }
}

impl Vec4 {
    #[verifier::allow_in_spec]
    pub fn new(x: Double, y: Double, z: Double, w: Double) -> Vec4
        returns
            (Vec4 { x, y, z, w }),
    {
        Vec4 { x, y, z, w }
    }

    #[verifier::allow_in_spec]
    pub fn zero() -> Vec4
        returns
            (Vec4 { x: num(ZERO), y: num(ZERO), z: num(ZERO), w: num(ZERO) }),
    {
        Vec4 { x: num(ZERO), y: num(ZERO), z: num(ZERO), w: num(ZERO) }
    }

    #[verifier::allow_in_spec]
    pub fn xyz(self) -> Vec3
        returns
            (Vec3 { x: self.x, y: self.y, z: self.z }),
    {
        Vec3 { x: self.x, y: self.y, z: self.z }
    }

    #[verifier::allow_in_spec]
    pub fn minus(self, other: Vec4) -> Vec4
        returns
            (Vec4 {
                x: self.x - other.x,
                y: self.y - other.y,
                z: self.z - other.z,
                w: self.w - other.w,
            }),
    {
        Vec4 {
            x: self.x - other.x,
            y: self.y - other.y,
            z: self.z - other.z,
            w: self.w - other.w,
        }
    }

    #[verifier::allow_in_spec]
    pub fn plus(self, other: Vec4) -> Vec4
        returns
            (Vec4 {
                x: self.x + other.x,
                y: self.y + other.y,
                z: self.z + other.z,
                w: self.w + other.w,
            }),
    {
        Vec4 {
            x: self.x + other.x,
            y: self.y + other.y,
            z: self.z + other.z,
            w: self.w + other.w,
        }
    }

    #[verifier::allow_in_spec]
    pub fn times(self, k: Double) -> Vec4
        returns
            (Vec4 { x: self.x * k, y: self.y * k, z: self.z * k, w: self.w * k }),
    {
        Vec4 { x: self.x * k, y: self.y * k, z: self.z * k, w: self.w * k }
    }

    #[verifier::allow_in_spec]
    pub fn divided_by(self, k: Double) -> Vec4
        returns
            (Vec4 { x: self.x / k, y: self.y / k, z: self.z / k, w: self.w / k }),
    {
        Vec4 { x: self.x / k, y: self.y / k, z: self.z / k, w: self.w / k }
    }

    /// The component with the index `axis`; filament travel for indices past two.
    #[verifier::allow_in_spec]
    pub fn axis(self, axis: usize) -> Double
        returns
            (if axis == 0 {
                self.x
            } else if axis == 1 {
                self.y
            } else if axis == 2 {
                self.z
            } else {
                self.w
            }),
    {
        if axis == 0 {
            self.x
        } else if axis == 1 {
            self.y
        } else if axis == 2 {
            self.z
        } else {
            self.w
        }
    }

    /// The point with one component replaced; filament travel for indices past two.
    #[verifier::allow_in_spec]
    pub fn with_axis(self, axis: usize, value: Double) -> Vec4
        returns
            (if axis == 0 {
                Vec4 { x: value, ..self }
            } else if axis == 1 {
                Vec4 { y: value, ..self }
            } else if axis == 2 {
                Vec4 { z: value, ..self }
            } else {
                Vec4 { w: value, ..self }
            }),
    {
        if axis == 0 {
            Vec4 { x: value, ..self }
        } else if axis == 1 {
            Vec4 { y: value, ..self }
        } else if axis == 2 {
            Vec4 { z: value, ..self }
        } else {
            Vec4 { w: value, ..self }
        }
    }
}

} // verus!
