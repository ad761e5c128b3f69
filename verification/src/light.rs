use vstd::prelude::*;

use crate::color::Color;
use crate::error::TracerError;
use crate::vec3::Vec3;

verus! {

/// A point light: a position and an intensity.
#[derive(Clone, Copy, Debug, PartialEq, Eq, Structural)]
pub struct Light {
    pub position: Vec3,
    pub intensity: Color,
}

impl Light {
    pub open spec fn wf(self) -> bool {
        self.position.is_point_spec()
    }

    /// The position must be a point; anything else is rejected.
    pub fn new(position: Vec3, intensity: Color) -> (r: Result<Light, TracerError>)
        ensures
            match r {
                Ok(light) => {
                    &&& position.is_point_spec()
                    &&& light == (Light { position, intensity })
                    &&& light.wf()
                },
                Err(e) => !position.is_point_spec() && e == TracerError::InvalidArgument,
            },
    {
        if !position.is_point() {
            return Err(TracerError::InvalidArgument);
        }
        Ok(Light { position, intensity })
    }
}

} // verus!
