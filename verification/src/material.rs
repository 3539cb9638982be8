use vstd::prelude::*;

verus! {

/// The closed set of surface behaviours a sphere can have: ideal diffuse
/// reflection, ideal mirror reflection, or a dielectric boundary with
/// Fresnel-weighted reflection and transmission.
#[derive(Clone, Copy, PartialEq, Eq, Structural, Debug)]
pub enum Material {
    Diffuse,
    Specular,
    Refractive,
}

} // verus!
