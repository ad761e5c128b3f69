use vstd::prelude::*;

use crate::canvas::Canvas;
use crate::color::Color;
use crate::error::TracerError;
use crate::fx::{fx_add, fx_div, fx_mul, fx_of_int, fx_sub, Fx, SCALE};
use crate::matrix::{det, identity_grid, inv_grid, xform, Matrix};
use crate::ray::Ray;
use crate::vec3::{v3, v3_mag, v3_normalize, v3_sub, Vec3, Vec3Type};
use crate::world::{spec_color_at, World};

verus! {

/// How many reflection bounces a render follows before a reflected ray
/// contributes black.
pub const REFLECTION_DEPTH: u32 = 5;

/// The camera: a raster size, the tangent of half the field of view, a
/// world-to-camera transform, and the pixel geometry derived once at
/// construction.
#[derive(Clone, Debug)]
pub struct Camera {
    pub hsize: u32,
    pub vsize: u32,
    pub half_view: Fx,
    pub transform: Matrix,
    pub pixel_size: Fx,
    pub half_width: Fx,
    pub half_height: Fx,
}

pub open spec fn cam_aspect(h: int, v: int) -> int {
    fx_div(fx_of_int(h), fx_of_int(v))
}

pub open spec fn cam_half_width(h: int, v: int, half_view: int) -> int {
    if cam_aspect(h, v) >= SCALE as int {
        half_view
    } else {
        fx_mul(half_view, cam_aspect(h, v))
    }
}

pub open spec fn cam_half_height(h: int, v: int, half_view: int) -> int {
    if cam_aspect(h, v) >= SCALE as int {
        fx_div(half_view, cam_aspect(h, v))
    } else {
        half_view
    }
}

pub open spec fn cam_pixel_size(h: int, v: int, half_view: int) -> int {
    fx_div(fx_mul(cam_half_width(h, v, half_view), fx_of_int(2)), fx_of_int(h))
}

/// What computing a pixel's ray returns: the pixel center on the canvas
/// plane one unit in front of the camera and the camera origin, both
/// carried to world space by the inverse transform, joined and normalized.
#[verifier::opaque]
pub open spec fn spec_ray_for_pixel(c: Camera, px: int, py: int) -> Result<Ray, TracerError> {
    if det(c.transform.grid()) == 0 {
        Err(TracerError::SingularMatrix)
    } else {
        let ig = inv_grid(c.transform.grid());
        let xoffset = fx_mul(fx_add(fx_of_int(px), 500_000), c.pixel_size.raw as int);
        let yoffset = fx_mul(fx_add(fx_of_int(py), 500_000), c.pixel_size.raw as int);
        let wx = fx_sub(c.half_width.raw as int, xoffset);
        let wy = fx_sub(c.half_height.raw as int, yoffset);
        let pixel = xform(ig, v3(wx, wy, fx_of_int(-1), Vec3Type::Point));
        let origin = xform(ig, v3(0, 0, 0, Vec3Type::Point));
        if pixel.is_vector_spec() && origin.is_point_spec() {
            Err(TracerError::InvalidOperand)
        } else {
            let d = v3_sub(pixel, origin);
            if !d.is_vector_spec() {
                Err(TracerError::InvalidOperand)
            } else if v3_mag(d) == 0 {
                Err(TracerError::DivisionByZero)
            } else if !origin.is_point_spec() {
                Err(TracerError::InvalidArgument)
            } else {
                Ok(Ray { origin, direction: v3_normalize(d) })
            }
        }
    }
}

/// The color of the pixel at a linear raster index: the color seen along
/// its ray, with the bounce budget of a render.
pub open spec fn spec_pixel(c: Camera, w: World, idx: int) -> Result<Color, TracerError> {
    match spec_ray_for_pixel(c, idx % (c.hsize as int), idx / (c.hsize as int)) {
        Err(e) => Err(e),
        Ok(ray) => spec_color_at(w, ray, REFLECTION_DEPTH as nat),
    }
}

/// A linear index below the raster size has its row below the height.
proof fn lemma_row_in_range(i: int, h: int, v: int)
    requires
        0 <= i,
        0 < h,
        i < h * v,
    ensures
        i / h < v,
{
    vstd::arithmetic::div_mod::lemma_fundamental_div_mod(i, h);
    if i / h >= v {
        assert(h * (i / h) >= h * v) by (nonlinear_arith)
            requires
                i / h >= v,
                h > 0,
        ;
        assert(i % h >= 0);
    }
}

impl Camera {
    pub open spec fn wf(self) -> bool {
        &&& self.hsize >= 1
        &&& self.vsize >= 1
        &&& self.transform.wf()
        &&& self.transform.n_rows == 4
        &&& self.transform.n_cols == 4
    }

    /// Derives the pixel geometry from the raster size and the tangent of
    /// half the field of view: the wider raster axis spans the half view.
    pub fn new(hsize: u32, vsize: u32, half_view: Fx) -> (r: Camera)
        requires
            hsize >= 1,
            vsize >= 1,
        ensures
            r.hsize == hsize,
            r.vsize == vsize,
            r.half_view == half_view,
            r.half_width.raw as int == cam_half_width(
                hsize as int,
                vsize as int,
                half_view.raw as int,
            ),
            r.half_height.raw as int == cam_half_height(
                hsize as int,
                vsize as int,
                half_view.raw as int,
            ),
            r.pixel_size.raw as int == cam_pixel_size(
                hsize as int,
                vsize as int,
                half_view.raw as int,
            ),
            r.transform.grid() == identity_grid(4),
            r.wf(),
    {
        let aspect: Fx = Fx::from_int(hsize as i64).div(Fx::from_int(vsize as i64));
        let half_width: Fx;
        let half_height: Fx;
        if aspect.raw >= SCALE {
            half_width = half_view;
            half_height = half_view.div(aspect);
        } else {
            half_width = half_view.mul(aspect);
            half_height = half_view;
        }
        let pixel_size: Fx = half_width.mul(Fx::from_int(2)).div(Fx::from_int(hsize as i64));
        let transform: Matrix = Matrix::identity_matrix(4);
        let r = Camera { hsize, vsize, half_view, transform, pixel_size, half_width, half_height };
        proof {
            r.transform.lemma_grid();
            assert forall|i: int| 0 <= i < 4 implies r.transform.grid()[i] =~= identity_grid(4)[i]
                by {
                assert forall|j: int| 0 <= j < 4 implies r.transform.grid()[i][j] == identity_grid(
                    4,
                )[i][j] by {
                    assert(r.transform.grid()[i][j] == r.transform.at(i, j));
                }
            }
            assert(r.transform.grid() =~= identity_grid(4));
        }
        r
    }

    /// The world-space ray through the center of a pixel.
    pub fn ray_for_pixel(&self, px: u32, py: u32) -> (r: Result<Ray, TracerError>)
        requires
            self.wf(),
        ensures
            match r {
                Ok(ray) => ray.wf() && spec_ray_for_pixel(*self, px as int, py as int) == Ok::<
                    Ray,
                    TracerError,
                >(ray),
                Err(e) => spec_ray_for_pixel(*self, px as int, py as int) == Err::<Ray, TracerError>(
                    e,
                ),
            },
    {
        proof {
            reveal(spec_ray_for_pixel);
        }
        let half: Fx = Fx::new(500_000);
        let xoffset: Fx = Fx::from_int(px as i64).add(half).mul(self.pixel_size);
        let yoffset: Fx = Fx::from_int(py as i64).add(half).mul(self.pixel_size);
        let world_x: Fx = self.half_width.sub(xoffset);
        let world_y: Fx = self.half_height.sub(yoffset);
        let inv: Matrix = match self.transform.inverse_matrix() {
            Ok(m) => m,
            Err(e) => {
                return Err(e);
            },
        };
        let pixel: Vec3 = inv.mul_vec3(Vec3::point(world_x, world_y, Fx::from_int(-1)));
        let origin: Vec3 = inv.mul_vec3(Vec3::point(Fx::zero(), Fx::zero(), Fx::zero()));
        let d: Vec3 = match pixel.sub(origin) {
            Ok(v) => v,
            Err(_) => {
                return Err(TracerError::InvalidOperand);
            },
        };
        let direction: Vec3 = match d.normalize() {
            Ok(v) => v,
            Err(e) => {
                return Err(e);
            },
        };
        match Ray::new(origin, direction) {
            Ok(ray) => Ok(ray),
            Err(_) => Err(TracerError::InvalidArgument),
        }
    }

    /// The color of one pixel, by its linear row-major index.
    #[verifier::rlimit(100)]
    fn pixel_color(&self, world: &World, i: usize) -> (r: Result<Color, TracerError>)
        requires
            self.wf(),
            world.wf(),
            (i as int) < (self.hsize as int) * (self.vsize as int),
        ensures
            match r {
                Ok(c) => spec_pixel(*self, *world, i as int) == Ok::<Color, TracerError>(c),
                Err(e) => spec_pixel(*self, *world, i as int) == Err::<Color, TracerError>(e),
            },
    {
        proof {
            lemma_row_in_range(i as int, self.hsize as int, self.vsize as int);
        }
        let px: u32 = (i % (self.hsize as usize)) as u32;
        let py: u32 = (i / (self.hsize as usize)) as u32;
        proof {
            assert(px as int == (i as int) % (self.hsize as int));
            assert(py as int == (i as int) / (self.hsize as int));
        }
        let ray: Ray = match self.ray_for_pixel(px, py) {
            Ok(r) => r,
            Err(e) => {
                return Err(e);
            },
        };
        world.color_at(&ray, REFLECTION_DEPTH)
    }

    /// Renders the scene: one ray per pixel, each pixel independent, in a
    /// sequential row-major pass.
    pub fn render(&self, world: &World) -> (r: Result<Canvas, TracerError>)
        requires
            self.wf(),
            world.wf(),
            (self.hsize as int) * (self.vsize as int) <= usize::MAX as int,
        ensures
            match r {
                Ok(cv) => {
                    &&& cv.width == self.hsize
                    &&& cv.height == self.vsize
                    &&& cv.wf()
                    &&& forall|idx: int|
                        0 <= idx < cv.grid@.len() ==> spec_pixel(*self, *world, idx) == Ok::<
                            Color,
                            TracerError,
                        >(cv.grid@[idx])
                },
                Err(e) => exists|idx: int|
                    0 <= idx < (self.hsize as int) * (self.vsize as int) && spec_pixel(
                        *self,
                        *world,
                        idx,
                    ) == Err::<Color, TracerError>(e),
            },
    {
        proof {
            assert((self.hsize as int) * (self.vsize as int) >= 0) by (nonlinear_arith);
        }
        let total: usize = (self.hsize as usize) * (self.vsize as usize);
        let mut grid: Vec<Color> = Vec::new();
        let mut i: usize = 0;
        while i < total
            invariant
                i <= total,
                self.wf(),
                world.wf(),
                total == (self.hsize as int) * (self.vsize as int),
                grid@.len() == i,
                forall|k: int|
                    0 <= k < i ==> spec_pixel(*self, *world, k) == Ok::<Color, TracerError>(
                        grid@[k],
                    ),
            decreases total - i,
        {
            let color: Color = match self.pixel_color(world, i) {
                Ok(c) => c,
                Err(e) => {
                    return Err(e);
                },
            };
            grid.push(color);
            i = i + 1;
        }
        Ok(Canvas { width: self.hsize, height: self.vsize, grid })
    }
}

} // verus!
