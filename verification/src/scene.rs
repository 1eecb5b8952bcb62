//! Plain descriptors shared by the renderer and its shading code: material
//! and medium kinds, pipeline kinds, and the like.
use vstd::prelude::*;

verus! {

/// The kind of surface a material describes.
#[derive(Clone, Copy, Debug, PartialEq, Eq, Structural)]
pub enum MaterialType {
    Lambertian,
    Conductor,
    Dielectric,
}

/// Which quantity a path carries.
#[derive(Clone, Copy, Debug, PartialEq, Eq, Structural)]
pub enum TransportMode {
    Radiance,
    Importance,
}

/// The reconstruction filter of a film.
#[derive(Clone, Copy, Debug, PartialEq, Eq, Structural)]
pub enum FilmFilter {
    BoxFilter,
    GaussianFilter,
    MitchellFilter,
    LanczosSincFilter,
    TriangleFilter,
}

/// The phase function of a medium.
#[derive(Clone, Copy, Debug, PartialEq, Eq, Structural)]
pub enum PhaseFunction {
    Hg,
}

/// The representation of a participating medium.
#[derive(Clone, Copy, Debug, PartialEq, Eq, Structural)]
pub enum Medium {
    Homogeneous,
    Grid,
    RgbGrid,
    Cloud,
    NanoVdb,
}

/// The media on the two sides of a surface; `None` stands for vacuum.
#[derive(Clone, Copy, Debug, PartialEq, Eq, Structural)]
pub struct MediumInterface {
    pub inside: Option<Medium>,
    pub outside: Option<Medium>,
}

/// The kind of a pipeline.
#[derive(Clone, Copy, Debug, PartialEq, Eq, Structural)]
pub enum PipelineType {
    Graphics,
    Compute,
    Raytracing,
}

/// The file format of a rendered image.
#[derive(Clone, Copy, Debug, PartialEq, Eq, Structural)]
pub enum OutputFormat {
    Png,
    Hdr,
}

/// How a descriptor is named: by the name of its binding, or by its index.
#[derive(Clone, Debug)]
pub enum DescriptorId {
    Name(String),
    Index(u32),
}

/// The number under which a material kind is handed to shading code.
pub open spec fn material_code(m: MaterialType) -> u32 {
    match m {
        MaterialType::Lambertian => 0,
        MaterialType::Conductor => 1,
        MaterialType::Dielectric => 2,
    }
}

impl MaterialType {
    /// The number under which this kind is handed to shading code.
    pub fn code(self) -> (r: u32)
        ensures
            r == material_code(self),
    {
        match self {
            MaterialType::Lambertian => 0,
            MaterialType::Conductor => 1,
            MaterialType::Dielectric => 2,
        }
    }

    /// The kind that a number stands for; numbers past 2 stand for none.
    pub fn from_code(value: u32) -> (r: Option<MaterialType>)
        ensures
            value > 2 ==> r.is_none(),
            value <= 2 ==> r.is_some() && material_code(r.unwrap()) == value,
    {
        match value {
            0 => Some(MaterialType::Lambertian),
            1 => Some(MaterialType::Conductor),
            2 => Some(MaterialType::Dielectric),
            _ => None,
        }
    }
}

impl Default for MaterialType {
    fn default() -> (r: Self)
        ensures
            r == MaterialType::Lambertian,
    {
        MaterialType::Lambertian
    }
}

impl MediumInterface {
    /// The interface between the medium `inside` and the medium `outside`.
    pub fn new(inside: Option<Medium>, outside: Option<Medium>) -> (r: Self)
        ensures
            r.inside == inside,
            r.outside == outside,
    {
        MediumInterface { inside, outside }
    }
}

impl Default for MediumInterface {
    fn default() -> (r: Self)
        ensures
            r.inside.is_none(),
            r.outside.is_none(),
    {
        MediumInterface { inside: None, outside: None }
    }
}

} // verus!
