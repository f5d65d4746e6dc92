//! The error taxonomy of the rendering core.

use vstd::prelude::*;

verus! {

/// Why a triangle was skipped or a setup step failed.
#[derive(Clone, Copy, Debug, PartialEq, Eq, Structural)]
pub enum RenderError {
    /// A zero-length normal, view or light vector: its direction is
    /// undefined, so the triangle (or setup step) is rejected instead of
    /// propagating a meaningless value.
    DegenerateGeometry,
    /// Perspective-projection parameters with a zero denominator or an
    /// empty field of view: no valid matrix exists for them.
    InvalidProjectionParameters,
    /// A vertex whose homogeneous `w` is zero after projection: the
    /// perspective divide is undefined, so the triangle is dropped.
    PerspectiveDivideByZero,
    /// A face referring to a vertex index outside the vertex list.
    MalformedMeshReference,
}

} // verus!
