use vstd::prelude::*;

use crate::color::{c_add, c_black, c_hadamard, c_scale, Color};
use crate::error::TracerError;
use crate::fx::{fx_floor, fx_powi, Fx, SCALE};
use crate::light::Light;
use crate::matrix::{det, Matrix};
use crate::pattern::{pattern_color_at, pattern_point, Pattern};
use crate::vec3::{v3_dot, v3_mag, v3_neg, v3_normalize, v3_reflect, v3_sub, Vec3};

verus! {

/// Phong reflectance parameters, with an optional procedural pattern that
/// replaces the flat color.
#[derive(Clone, Debug)]
pub struct Material {
    pub color: Color,
    pub pattern: Option<Pattern>,
    pub ambient: Fx,
    pub diffuse: Fx,
    pub specular: Fx,
    pub shininess: Fx,
    pub reflective: Fx,
}

/// The color of the surface itself at a world point: the pattern sampled in
/// pattern space if one is set, the flat color otherwise.
pub open spec fn surface_color(m: Material, obj_t: Seq<Seq<int>>, point: Vec3) -> Color {
    match m.pattern {
        Some(pat) => pattern_color_at(pat, pattern_point(pat.transform.grid(), obj_t, point)),
        None => m.color,
    }
}

/// The vector from the lit point toward the light, normalized.
pub open spec fn light_dir(light: Light, point: Vec3) -> Vec3 {
    v3_normalize(v3_sub(light.position, point))
}

/// The lighting computation succeeds: any pattern transform and the shape
/// transform invert, and the point does not coincide with the light.
pub open spec fn lighting_ok(m: Material, obj_t: Seq<Seq<int>>, light: Light, point: Vec3) -> bool {
    &&& (m.pattern matches Some(pat) ==> det(obj_t) != 0 && det(pat.transform.grid()) != 0)
    &&& v3_mag(v3_sub(light.position, point)) != 0
}

/// The Phong model: ambient always; diffuse and specular only when the
/// light faces the surface and the point is not shadowed; specular only
/// when the reflected light faces the eye.
#[verifier::opaque]
pub open spec fn spec_lighting(
    m: Material,
    obj_t: Seq<Seq<int>>,
    light: Light,
    point: Vec3,
    eye_v: Vec3,
    normal_v: Vec3,
    in_shadow: bool,
) -> Color {
    let effective = c_hadamard(surface_color(m, obj_t, point), light.intensity);
    let ambient = c_scale(effective, m.ambient.raw as int);
    let lv = light_dir(light, point);
    let ldn = v3_dot(lv, normal_v);
    if ldn < 0 || in_shadow {
        c_add(c_add(ambient, c_black()), c_black())
    } else {
        let diffuse = c_scale(c_scale(effective, m.diffuse.raw as int), ldn);
        let rde = v3_dot(v3_neg(v3_reflect(lv, normal_v)), eye_v);
        if rde <= 0 {
            c_add(c_add(ambient, diffuse), c_black())
        } else {
            let factor = fx_powi(rde, fx_floor(m.shininess.raw as int) as nat);
            let specular = c_scale(c_scale(light.intensity, m.specular.raw as int), factor);
            c_add(c_add(ambient, diffuse), specular)
        }
    }
}

/// The full lighting outcome: a singular pattern or shape transform is
/// rejected first, then a point coinciding with the light; otherwise the
/// Phong color. The eye vector is taken as already normalized.
#[verifier::opaque]
pub open spec fn spec_lighting_full(
    m: Material,
    g: Seq<Seq<int>>,
    light: Light,
    point: Vec3,
    eye_n: Vec3,
    normal_v: Vec3,
    in_shadow: bool,
) -> Result<Color, TracerError> {
    let pattern_bad = match m.pattern {
        Some(pat) => det(g) == 0 || det(pat.transform.grid()) == 0,
        None => false,
    };
    if pattern_bad {
        Err(TracerError::SingularMatrix)
    } else if v3_mag(v3_sub(light.position, point)) == 0 {
        Err(TracerError::DivisionByZero)
    } else {
        Ok(spec_lighting(m, g, light, point, eye_n, normal_v, in_shadow))
    }
}

/// Lighting as a shape performs it: the eye vector is normalized first; a
/// zero-length eye vector is rejected.
pub open spec fn spec_lighting_at(
    m: Material,
    g: Seq<Seq<int>>,
    light: Light,
    point: Vec3,
    eye_v: Vec3,
    normal_v: Vec3,
    in_shadow: bool,
) -> Result<Color, TracerError> {
    if v3_mag(eye_v) == 0 {
        Err(TracerError::DivisionByZero)
    } else {
        spec_lighting_full(m, g, light, point, v3_normalize(eye_v), normal_v, in_shadow)
    }
}

/// White, no pattern, ambient 0.1, diffuse 0.9, specular 0.9, shininess
/// 200, no reflection.
pub open spec fn default_material() -> Material {
    Material {
        color: crate::color::col(SCALE as int, SCALE as int, SCALE as int),
        pattern: None,
        ambient: crate::vec3::fx_val(100_000),
        diffuse: crate::vec3::fx_val(900_000),
        specular: crate::vec3::fx_val(900_000),
        shininess: crate::vec3::fx_val(200_000_000),
        reflective: crate::vec3::fx_val(0),
    }
}

impl Material {
    /// Ambient, diffuse, specular and reflective lie in [0, 1]; shininess
    /// in [10, 200]; a pattern, if set, is itself well formed.
    pub open spec fn wf(self) -> bool {
        &&& 0 <= self.ambient.raw <= SCALE
        &&& 0 <= self.diffuse.raw <= SCALE
        &&& 0 <= self.specular.raw <= SCALE
        &&& 10 * SCALE <= self.shininess.raw <= 200 * SCALE
        &&& 0 <= self.reflective.raw <= SCALE
        &&& (self.pattern matches Some(pat) ==> pat.wf())
    }

    /// White, no pattern, ambient 0.1, diffuse 0.9, specular 0.9,
    /// shininess 200, no reflection.
    pub fn default() -> (r: Material)
        ensures
            r == default_material(),
            r.wf(),
    {
        Material {
            color: Color::white(),
            pattern: None,
            ambient: Fx::new(100_000),
            diffuse: Fx::new(900_000),
            specular: Fx::new(900_000),
            shininess: Fx::new(200_000_000),
            reflective: Fx::zero(),
        }
    }

    /// Builds a material, rejecting parameters outside the invariants.
    pub fn new(
        color: Color,
        ambient: Fx,
        diffuse: Fx,
        specular: Fx,
        shininess: Fx,
        reflective: Fx,
        pattern: Option<Pattern>,
    ) -> (r: Result<Material, TracerError>)
        requires
            pattern matches Some(pat) ==> pat.wf(),
        ensures
            match r {
                Ok(m) => {
                    &&& m == (Material { color, pattern, ambient, diffuse, specular, shininess,
                    reflective })
                    &&& m.wf()
                },
                Err(e) => {
                    &&& e == TracerError::InvalidArgument
                    &&& !(0 <= ambient.raw <= SCALE && 0 <= diffuse.raw <= SCALE && 0
                        <= specular.raw <= SCALE && 10 * SCALE <= shininess.raw <= 200 * SCALE && 0
                        <= reflective.raw <= SCALE)
                },
            },
    {
        if ambient.raw < 0 || ambient.raw > SCALE {
            return Err(TracerError::InvalidArgument);
        }
        if diffuse.raw < 0 || diffuse.raw > SCALE {
            return Err(TracerError::InvalidArgument);
        }
        if specular.raw < 0 || specular.raw > SCALE {
            return Err(TracerError::InvalidArgument);
        }
        if shininess.raw < 10 * SCALE || shininess.raw > 200 * SCALE {
            return Err(TracerError::InvalidArgument);
        }
        if reflective.raw < 0 || reflective.raw > SCALE {
            return Err(TracerError::InvalidArgument);
        }
        Ok(Material { color, pattern, ambient, diffuse, specular, shininess, reflective })
    }

    /// Phong shading of a point on a surface with this material. Fails only
    /// when a pattern or shape transform is singular, or the point
    /// coincides with the light.
    pub fn lighting(
        &self,
        obj_transform: &Matrix,
        light: Light,
        point: Vec3,
        eye_v: Vec3,
        normal_v: Vec3,
        in_shadow: bool,
    ) -> (r: Result<Color, TracerError>)
        requires
            self.wf(),
            obj_transform.wf(),
            obj_transform.n_rows == 4,
            obj_transform.n_cols == 4,
            light.wf(),
            point.is_point_spec(),
            eye_v.is_vector_spec(),
            normal_v.is_vector_spec(),
        ensures
            r == spec_lighting_full(
                *self,
                obj_transform.grid(),
                light,
                point,
                eye_v,
                normal_v,
                in_shadow,
            ),
            r is Ok <==> lighting_ok(*self, obj_transform.grid(), light, point),
    {
        proof {
            reveal(spec_lighting);
            reveal(spec_lighting_full);
        }
        let material_color: Color = match &self.pattern {
            Some(pattern) => {
                match pattern.pattern_at(point, obj_transform) {
                    Ok(c) => c,
                    Err(e) => {
                        return Err(e);
                    },
                }
            },
            None => self.color,
        };
        let effective_color: Color = material_color.hadamard(light.intensity);
        let ambient: Color = effective_color.mul(self.ambient);

        let to_light: Vec3 = match light.position.sub(point) {
            Ok(v) => v,
            Err(_) => {
                proof {
                    assert(false);
                }
                return Err(TracerError::InvalidOperand);
            },
        };
        let light_v: Vec3 = match to_light.normalize() {
            Ok(v) => v,
            Err(_) => {
                return Err(TracerError::DivisionByZero);
            },
        };

        let light_dot_normal: Fx = match light_v.dot(normal_v) {
            Ok(d) => d,
            Err(_) => {
                proof {
                    assert(false);
                }
                return Err(TracerError::InvalidOperand);
            },
        };

        let black: Color = Color::black();
        let diffuse: Color;
        let specular: Color;
        if light_dot_normal.raw < 0 || in_shadow {
            diffuse = black;
            specular = black;
        } else {
            diffuse = effective_color.mul(self.diffuse).mul(light_dot_normal);
            let reflected: Vec3 = match light_v.reflect(normal_v) {
                Ok(v) => v,
                Err(_) => {
                    proof {
                        assert(false);
                    }
                    return Err(TracerError::InvalidOperand);
                },
            };
            let reflect_v: Vec3 = reflected.neg();
            let reflect_dot_eye: Fx = match reflect_v.dot(eye_v) {
                Ok(d) => d,
                Err(_) => {
                    proof {
                        assert(false);
                    }
                    return Err(TracerError::InvalidOperand);
                },
            };
            if reflect_dot_eye.raw <= 0 {
                specular = black;
            } else {
                let exponent: i64 = self.shininess.floor();
                let factor: Fx = reflect_dot_eye.powi(exponent as u32);
                specular = light.intensity.mul(self.specular).mul(factor);
            }
        }
        Ok(ambient.add(diffuse).add(specular))
    }
}

} // verus!
