use vstd::prelude::*;

verus! {

/// Stable identity of an animatable property, shared by tracks and shader layouts.
#[derive(Clone, Copy, Debug, PartialEq, Eq, Structural)]
pub struct LiveItemId(pub u64);

/// The kind of a shader property, as the shader layout reports it.
#[derive(Clone, Copy, Debug, PartialEq, Eq, Structural)]
pub enum Ty {
    Float,
    Vec2,
    Vec3,
    Vec4,
    Mat4,
}

impl Ty {
    /// Number of storage slots a value of this kind occupies.
    pub open spec fn width_spec(self) -> nat {
        match self {
            Ty::Float => 1,
            Ty::Vec2 => 2,
            Ty::Vec3 => 3,
            Ty::Vec4 => 4,
            Ty::Mat4 => 16,
        }
    }

    pub fn width(&self) -> (r: usize)
        ensures
            r == self.width_spec(),
    {
        match self {
            Ty::Float => 1,
            Ty::Vec2 => 2,
            Ty::Vec3 => 3,
            Ty::Vec4 => 4,
            Ty::Mat4 => 16,
        }
    }
}

/// A two-component value.
#[derive(Clone, Copy, Debug, PartialEq, Eq)]
pub struct Vec2<S> {
    pub x: S,
    pub y: S,
}

/// A three-component value.
#[derive(Clone, Copy, Debug, PartialEq, Eq)]
pub struct Vec3<S> {
    pub x: S,
    pub y: S,
    pub z: S,
}

/// A four-component value.
#[derive(Clone, Copy, Debug, PartialEq, Eq)]
pub struct Vec4<S> {
    pub x: S,
    pub y: S,
    pub z: S,
    pub w: S,
}

/// A color as red, green, blue and alpha.
#[derive(Clone, Copy, Debug, PartialEq, Eq)]
pub struct Color<S> {
    pub r: S,
    pub g: S,
    pub b: S,
    pub a: S,
}

/// A rectangle by its corner and size.
#[derive(Clone, Copy, Debug, PartialEq, Eq)]
pub struct Rect<S> {
    pub x: S,
    pub y: S,
    pub w: S,
    pub h: S,
}

/// A 4x4 matrix as sixteen scalars in storage order.
#[derive(Clone, Copy, Debug, PartialEq, Eq)]
pub struct Mat4<S> {
    pub v: [S; 16],
}

} // verus!
