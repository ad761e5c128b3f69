use vstd::prelude::*;

use crate::color::{c_add, c_black, c_scale, Color};
use crate::error::TracerError;
use crate::fx::{fx_eq, fx_of_int, Fx, EPSILON_RAW, SCALE};
use crate::intersection::{lower_bound, spec_hit, Intersection, Intersections};
use crate::light::Light;
use crate::material::{default_material, spec_lighting_at, Material};
use crate::matrix::{identity_grid, scaling_grid, Matrix};
use crate::ray::{ray_position, Ray};
use crate::shape::{spec_shape_intersect, spec_shape_normal, Shape};
use crate::sphere::Sphere;
use crate::vec3::{
    v3, v3_add, v3_dot, v3_mag, v3_neg, v3_normalize, v3_reflect, v3_scale, v3_sub, Vec3,
    Vec3Type,
};

verus! {

/// The local geometry of one hit, computed per shading call: the hit
/// parameters, the world point, the point nudged along the normal for
/// secondary rays, the eye, normal and reflection vectors, and whether the
/// ray started inside the shape.
#[derive(Clone, Copy, Debug, PartialEq, Eq, Structural)]
pub struct State {
    pub t: Fx,
    pub obj_id: usize,
    pub point: Vec3,
    pub over_point: Vec3,
    pub eyev: Vec3,
    pub normalv: Vec3,
    pub reflectv: Vec3,
    pub inside: bool,
}

impl State {
    pub open spec fn wf(self) -> bool {
        &&& self.point.is_point_spec()
        &&& self.over_point.is_point_spec()
        &&& self.eyev.is_vector_spec()
        &&& self.normalv.is_vector_spec()
        &&& self.reflectv.is_vector_spec()
    }
}

/// The scene: the shapes it owns, keyed by their ids, and its lights.
pub struct World {
    pub objects: Vec<Shape>,
    pub lights: Vec<Light>,
}

pub open spec fn contains_id(objs: Seq<Shape>, id: usize) -> bool {
    exists|i: int| 0 <= i < objs.len() && (#[trigger] objs[i]).id_of() == id
}

/// The shape carrying an id; well defined because ids are unique.
pub open spec fn shape_with_id(objs: Seq<Shape>, id: usize) -> Shape {
    objs[choose|i: int| 0 <= i < objs.len() && (#[trigger] objs[i]).id_of() == id]
}

/// Every item of a shape's intersections ordered-inserted into the
/// accumulated collection, first to last.
pub open spec fn push_all(acc: Seq<Intersection>, items: Seq<Intersection>) -> Seq<Intersection>
    decreases items.len(),
{
    if items.len() == 0 {
        acc
    } else {
        push_all(
            acc.insert(lower_bound(acc, items[0].t.raw as int), items[0]),
            items.drop_first(),
        )
    }
}

/// The union of every shape's intersections, merged in scene order into
/// one collection sorted by ray parameter; the first failing shape's error
/// wins.
#[verifier::opaque]
pub open spec fn spec_world_xs(objs: Seq<Shape>, ray: Ray, acc: Seq<Intersection>) -> Result<
    Seq<Intersection>,
    TracerError,
>
    decreases objs.len(),
{
    if objs.len() == 0 {
        Ok(acc)
    } else {
        match spec_shape_intersect(objs[0], ray) {
            Ok(items) => spec_world_xs(objs.drop_first(), ray, push_all(acc, items)),
            Err(e) => Err(e),
        }
    }
}

/// The hit geometry derived from an intersection: the reflection vector is
/// taken against the outward normal, which is then flipped toward the eye
/// for hits from inside; the over point is nudged along the (possibly
/// flipped) normal by fifteen tolerances.
#[verifier::opaque]
pub open spec fn spec_compute_state(x: Intersection, ray: Ray, w: World) -> Result<
    State,
    TracerError,
> {
    if !contains_id(w.objects@, x.obj_id) {
        Err(TracerError::IndexOutOfRange)
    } else {
        let shape = shape_with_id(w.objects@, x.obj_id);
        let point = ray_position(ray, x.t.raw as int);
        match spec_shape_normal(shape, point) {
            Err(e) => Err(e),
            Ok(n0) => {
                let eyev = v3_neg(ray.direction);
                let reflectv = v3_reflect(ray.direction, n0);
                let inside = v3_dot(n0, eyev) < 0;
                let normalv = if inside {
                    v3_neg(n0)
                } else {
                    n0
                };
                let over_point = v3_add(
                    point,
                    v3_scale(v3_scale(normalv, fx_of_int(15)), EPSILON_RAW as int),
                );
                Ok(
                    State {
                        t: x.t,
                        obj_id: x.obj_id,
                        point,
                        over_point,
                        eyev,
                        normalv,
                        reflectv,
                        inside,
                    },
                )
            },
        }
    }
}

/// A point is shadowed from a light when the nearest hit along the ray
/// toward the light lies strictly closer than the light.
#[verifier::opaque]
pub open spec fn spec_is_shadowed(w: World, point: Vec3, light: Light) -> Result<
    bool,
    TracerError,
> {
    let to_light = v3_sub(light.position, point);
    if v3_mag(to_light) == 0 {
        Err(TracerError::DivisionByZero)
    } else {
        let ray = Ray { origin: point, direction: v3_normalize(to_light) };
        match spec_world_xs(w.objects@, ray, Seq::empty()) {
            Err(e) => Err(e),
            Ok(xs) => Ok(
                match spec_hit(xs) {
                    Some(h) => h.t.raw < v3_mag(to_light),
                    None => false,
                },
            ),
        }
    }
}

/// The summed direct contributions of the first k lights, each with its
/// own shadow test.
pub open spec fn spec_light_sum(w: World, s: State, k: int) -> Result<Color, TracerError>
    decreases k,
{
    if k <= 0 {
        Ok(c_black())
    } else {
        match spec_light_sum(w, s, k - 1) {
            Err(e) => Err(e),
            Ok(acc) => {
                let light = w.lights@[k - 1];
                match spec_is_shadowed(w, s.over_point, light) {
                    Err(e) => Err(e),
                    Ok(in_shadow) => {
                        let shape = shape_with_id(w.objects@, s.obj_id);
                        match spec_lighting_at(
                            shape.material_of(),
                            shape.transform_of().grid(),
                            light,
                            s.point,
                            s.eyev,
                            s.normalv,
                            in_shadow,
                        ) {
                            Err(e) => Err(e),
                            Ok(c) => Ok(c_add(acc, c)),
                        }
                    },
                }
            },
        }
    }
}

/// The reflected contribution: black for a surface whose reflectivity is
/// within tolerance of zero and black once the bounce budget is spent;
/// otherwise the color of the reflected ray scaled by the reflectivity.
pub open spec fn spec_reflected(w: World, s: State, depth: nat) -> Result<Color, TracerError>
    decreases depth, 2int,
{
    if !contains_id(w.objects@, s.obj_id) {
        Err(TracerError::IndexOutOfRange)
    } else {
        let refl = shape_with_id(w.objects@, s.obj_id).material_of().reflective;
        if fx_eq(refl.raw as int, 0) {
            Ok(c_black())
        } else if depth == 0 {
            Ok(c_black())
        } else {
            match spec_color_at(
                w,
                Ray { origin: s.over_point, direction: s.reflectv },
                (depth - 1) as nat,
            ) {
                Err(e) => Err(e),
                Ok(c) => Ok(c_scale(c, refl.raw as int)),
            }
        }
    }
}

/// The shaded color of a hit: every light's direct contribution plus one
/// reflected contribution for the hit.
pub open spec fn spec_shade_hit(w: World, s: State, depth: nat) -> Result<Color, TracerError>
    decreases depth, 3int,
{
    if !contains_id(w.objects@, s.obj_id) {
        Err(TracerError::IndexOutOfRange)
    } else {
        match spec_light_sum(w, s, w.lights@.len() as int) {
            Err(e) => Err(e),
            Ok(sum) => match spec_reflected(w, s, depth) {
                Err(e) => Err(e),
                Ok(rc) => Ok(c_add(sum, rc)),
            },
        }
    }
}

/// The color seen along a ray: black where the ray hits nothing, else the
/// shaded color of the nearest visible hit.
pub open spec fn spec_color_at(w: World, ray: Ray, depth: nat) -> Result<Color, TracerError>
    decreases depth, 4int,
{
    match spec_world_xs(w.objects@, ray, Seq::empty()) {
        Err(e) => Err(e),
        Ok(xs) => match spec_hit(xs) {
            None => Ok(c_black()),
            Some(x) => match spec_compute_state(x, ray, w) {
                Err(e) => Err(e),
                Ok(st) => spec_shade_hit(w, st, depth),
            },
        },
    }
}

/// Once the running light sum has failed, every longer sum fails the same
/// way.
proof fn lemma_light_sum_err(w: World, s: State, k1: int, k2: int)
    requires
        spec_light_sum(w, s, k1) is Err,
        0 <= k1 <= k2,
    ensures
        spec_light_sum(w, s, k2) == spec_light_sum(w, s, k1),
    decreases k2 - k1,
{
    if k2 > k1 {
        lemma_light_sum_err(w, s, k1, k2 - 1);
    }
}

impl World {
    /// Shapes well formed with unique ids; lights well formed.
    pub open spec fn wf(self) -> bool {
        &&& forall|i: int| 0 <= i < self.objects@.len() ==> (#[trigger] self.objects@[i]).wf()
        &&& forall|i: int, j: int|
            0 <= i < j < self.objects@.len() ==> (#[trigger] self.objects@[i]).id_of() != (
            #[trigger] self.objects@[j]).id_of()
        &&& forall|i: int| 0 <= i < self.lights@.len() ==> (#[trigger] self.lights@[i]).wf()
    }

    pub fn new() -> (r: World)
        ensures
            r.objects@.len() == 0,
            r.lights@.len() == 0,
            r.wf(),
    {
        World { objects: Vec::new(), lights: Vec::new() }
    }

    /// The reference two-sphere scene: a white light in the upper left, an
    /// outer sphere with a green-tinted material, and an inner sphere at
    /// half scale.
    pub fn default() -> (r: World)
        ensures
            r.wf(),
            r.lights@.len() == 1,
            r.lights@[0] == (Light {
                position: v3(-10 * SCALE as int, 10 * SCALE as int, -10 * SCALE as int,
                Vec3Type::Point),
                intensity: crate::color::col(SCALE as int, SCALE as int, SCALE as int),
            }),
            r.objects@.len() == 2,
            r.objects@[0] is Sphere && r.objects@[1] is Sphere,
            r.objects@[0].id_of() == 0 && r.objects@[1].id_of() == 1,
            r.objects@[0].transform_of().grid() == identity_grid(4),
            r.objects@[1].transform_of().grid() == scaling_grid(
                SCALE as int / 2,
                SCALE as int / 2,
                SCALE as int / 2,
            ),
            r.objects@[0].material_of() == (Material {
                color: crate::color::col(800_000, 1_000_000, 600_000),
                pattern: None,
                ambient: crate::vec3::fx_val(100_000),
                diffuse: crate::vec3::fx_val(700_000),
                specular: crate::vec3::fx_val(700_000),
                shininess: crate::vec3::fx_val(200_000_000),
                reflective: crate::vec3::fx_val(0),
            }),
            r.objects@[1].material_of() == default_material(),
    {
        let mut world = World::new();
        let light_pos: Vec3 = Vec3::point(Fx::from_int(-10), Fx::from_int(10), Fx::from_int(-10));
        let light: Light = match Light::new(light_pos, Color::white()) {
            Ok(l) => l,
            Err(_) => {
                proof {
                    assert(false);
                }
                Light { position: light_pos, intensity: Color::white() }
            },
        };
        world.add_light(light);
        let mut s1: Sphere = Sphere::new(0);
        s1.material.color = Color::new(Fx::new(800_000), Fx::one(), Fx::new(600_000));
        s1.material.diffuse = Fx::new(700_000);
        s1.material.specular = Fx::new(700_000);
        let mut s2: Sphere = Sphere::new(1);
        let half: Fx = Fx::new(500_000);
        s2.set_transform(Matrix::scaling(half, half, half));
        let r1 = world.insert(Shape::Sphere(s1));
        proof {
            assert(r1 is Ok);
        }
        let r2 = world.insert(Shape::Sphere(s2));
        proof {
            assert(r2 is Ok);
            let t0 = world.objects@[0].transform_of();
            t0.lemma_grid();
            assert forall|i: int| 0 <= i < 4 implies t0.grid()[i] =~= identity_grid(4)[i] by {
                assert forall|j: int| 0 <= j < 4 implies t0.grid()[i][j] == identity_grid(4)[i][j]
                    by {
                    assert(t0.grid()[i][j] == t0.at(i, j));
                }
            }
            assert(t0.grid() =~= identity_grid(4));
        }
        world
    }

    pub fn add_light(&mut self, light: Light)
        requires
            old(self).wf(),
            light.wf(),
        ensures
            final(self).lights@ == old(self).lights@.push(light),
            final(self).objects@ == old(self).objects@,
            final(self).wf(),
    {
        self.lights.push(light);
    }

    /// Adds a shape to the scene; a shape whose id is already present is
    /// rejected.
    pub fn insert(&mut self, shape: Shape) -> (r: Result<(), TracerError>)
        requires
            old(self).wf(),
            shape.wf(),
        ensures
            match r {
                Ok(u) => {
                    &&& !contains_id(old(self).objects@, shape.id_of())
                    &&& final(self).objects@ == old(self).objects@.push(shape)
                    &&& final(self).lights@ == old(self).lights@
                    &&& final(self).wf()
                },
                Err(e) => {
                    &&& e == TracerError::InvalidArgument
                    &&& contains_id(old(self).objects@, shape.id_of())
                    &&& final(self).objects@ == old(self).objects@
                    &&& final(self).lights@ == old(self).lights@
                },
            },
    {
        let id: usize = shape.get_id();
        let mut i: usize = 0;
        while i < self.objects.len()
            invariant
                self == old(self),
                id == shape.id_of(),
                i <= self.objects@.len(),
                forall|k: int| 0 <= k < i ==> (#[trigger] self.objects@[k]).id_of() != id,
            decreases self.objects@.len() - i,
        {
            if self.objects[i].get_id() == id {
                proof {
                    assert(self.objects@[i as int].id_of() == id);
                    assert(id == shape.id_of());
                    assert(contains_id(self.objects@, shape.id_of()));
                    assert(contains_id(old(self).objects@, shape.id_of()));
                }
                return Err(TracerError::InvalidArgument);
            }
            i = i + 1;
        }
        self.objects.push(shape);
        Ok(())
    }

    /// The shape carrying an id, if the scene holds one.
    pub fn get_object(&self, id: usize) -> (r: Option<&Shape>)
        requires
            self.wf(),
        ensures
            match r {
                Some(s) => contains_id(self.objects@, id) && *s == shape_with_id(
                    self.objects@,
                    id,
                ) && s.wf(),
                None => !contains_id(self.objects@, id),
            },
    {
        let mut i: usize = 0;
        while i < self.objects.len()
            invariant
                i <= self.objects@.len(),
                self.wf(),
                forall|k: int| 0 <= k < i ==> (#[trigger] self.objects@[k]).id_of() != id,
            decreases self.objects@.len() - i,
        {
            let s: &Shape = &self.objects[i];
            if s.get_id() == id {
                proof {
                    let w = choose|k: int|
                        0 <= k < self.objects@.len() && (#[trigger] self.objects@[k]).id_of()
                            == id;
                    assert(self.objects@[i as int].id_of() == id);
                    assert(contains_id(self.objects@, id));
                    if w != i as int {
                        assert(self.objects@[w].id_of() != self.objects@[i as int].id_of());
                    }
                }
                return Some(s);
            }
            i = i + 1;
        }
        None
    }

    /// Intersects a ray against every shape of the scene, merged into one
    /// collection sorted by ray parameter.
    pub fn intersect_with(&self, ray: &Ray) -> (r: Result<Intersections, TracerError>)
        requires
            self.wf(),
        ensures
            match r {
                Ok(xs) => xs.wf() && spec_world_xs(self.objects@, *ray, Seq::empty()) == Ok::<
                    Seq<Intersection>,
                    TracerError,
                >(xs.crossings@),
                Err(e) => spec_world_xs(self.objects@, *ray, Seq::empty()) == Err::<
                    Seq<Intersection>,
                    TracerError,
                >(e),
            },
    {
        let mut intersections: Intersections = Intersections::new();
        proof {
            reveal(spec_world_xs);
            assert(self.objects@.skip(0) =~= self.objects@);
            assert(intersections.crossings@ =~= Seq::<Intersection>::empty());
        }
        let mut i: usize = 0;
        while i < self.objects.len()
            invariant
                i <= self.objects@.len(),
                self.wf(),
                intersections.wf(),
                spec_world_xs(self.objects@, *ray, Seq::empty()) == spec_world_xs(
                    self.objects@.skip(i as int),
                    *ray,
                    intersections.crossings@,
                ),
            decreases self.objects@.len() - i,
        {
            let shape: &Shape = &self.objects[i];
            proof {
                reveal(spec_world_xs);
                assert(self.objects@.skip(i as int)[0] == self.objects@[i as int]);
            }
            let xs: Intersections = match shape.intersection(ray) {
                Ok(x) => x,
                Err(e) => {
                    return Err(e);
                },
            };
            let ghost items = xs.crossings@;
            let ghost acc0 = intersections.crossings@;
            let mut j: usize = 0;
            proof {
                assert(items.skip(0) =~= items);
            }
            while j < xs.len()
                invariant
                    j <= items.len(),
                    xs.crossings@ == items,
                    intersections.wf(),
                    push_all(acc0, items) == push_all(
                        intersections.crossings@,
                        items.skip(j as int),
                    ),
                decreases items.len() - j,
            {
                let x: Intersection = xs.get(j);
                proof {
                    assert(items.skip(j as int)[0] == items[j as int]);
                }
                intersections.push(x);
                proof {
                    assert(items.skip(j as int).drop_first() =~= items.skip(j as int + 1));
                }
                j = j + 1;
            }
            proof {
                assert(items.skip(items.len() as int) =~= Seq::<Intersection>::empty());
                assert(push_all(acc0, items) == intersections.crossings@);
                assert(self.objects@.skip(i as int).drop_first() =~= self.objects@.skip(
                    i as int + 1,
                ));
            }
            i = i + 1;
        }
        proof {
            reveal(spec_world_xs);
            assert(self.objects@.skip(self.objects@.len() as int) =~= Seq::<Shape>::empty());
        }
        Ok(intersections)
    }

    /// Whether a point is occluded from the light at an index: a ray is
    /// cast toward the light and the nearest hit compared with the
    /// distance.
    pub fn is_shadowed(&self, point: Vec3, light_index: usize) -> (r: Result<bool, TracerError>)
        requires
            self.wf(),
            point.is_point_spec(),
        ensures
            match r {
                Ok(b) => light_index < self.lights@.len() && spec_is_shadowed(
                    *self,
                    point,
                    self.lights@[light_index as int],
                ) == Ok::<bool, TracerError>(b),
                Err(e) => {
                    ||| (light_index >= self.lights@.len() && e == TracerError::IndexOutOfRange)
                    ||| (light_index < self.lights@.len() && spec_is_shadowed(
                        *self,
                        point,
                        self.lights@[light_index as int],
                    ) == Err::<bool, TracerError>(e))
                },
            },
    {
        proof {
            reveal(spec_is_shadowed);
        }
        if light_index >= self.lights.len() {
            return Err(TracerError::IndexOutOfRange);
        }
        let light: Light = self.lights[light_index];
        let point_to_light: Vec3 = match light.position.sub(point) {
            Ok(v) => v,
            Err(_) => {
                proof {
                    assert(false);
                }
                return Err(TracerError::InvalidOperand);
            },
        };
        let distance: Fx = match point_to_light.magnitude() {
            Ok(d) => d,
            Err(_) => {
                proof {
                    assert(false);
                }
                return Err(TracerError::InvalidOperand);
            },
        };
        let direction: Vec3 = match point_to_light.normalize() {
            Ok(d) => d,
            Err(_) => {
                return Err(TracerError::DivisionByZero);
            },
        };
        let shadow_ray: Ray = match Ray::new(point, direction) {
            Ok(r) => r,
            Err(_) => {
                proof {
                    assert(false);
                }
                return Err(TracerError::InvalidArgument);
            },
        };
        let xs: Intersections = match self.intersect_with(&shadow_ray) {
            Ok(x) => x,
            Err(e) => {
                return Err(e);
            },
        };
        match xs.hit() {
            Some(hit) => Ok(hit.t.raw < distance.raw),
            None => Ok(false),
        }
    }

    /// The shaded color of a hit state: one direct contribution per light,
    /// each with its own shadow test, plus one reflected contribution for
    /// the whole hit.
    #[verifier::rlimit(100)]
    pub fn shade_hit(&self, state: &State, depth: u32) -> (r: Result<Color, TracerError>)
        requires
            self.wf(),
            state.wf(),
        ensures
            match r {
                Ok(c) => spec_shade_hit(*self, *state, depth as nat) == Ok::<Color, TracerError>(c),
                Err(e) => spec_shade_hit(*self, *state, depth as nat) == Err::<Color, TracerError>(
                    e,
                ),
            },
        decreases depth, 3int,
    {
        let shape: &Shape = match self.get_object(state.obj_id) {
            Some(s) => s,
            None => {
                return Err(TracerError::IndexOutOfRange);
            },
        };
        let mut color: Color = Color::black();
        let mut i: usize = 0;
        while i < self.lights.len()
            invariant
                i <= self.lights@.len(),
                self.wf(),
                state.wf(),
                contains_id(self.objects@, state.obj_id),
                *shape == shape_with_id(self.objects@, state.obj_id),
                shape.wf(),
                spec_light_sum(*self, *state, i as int) == Ok::<Color, TracerError>(color),
            decreases self.lights@.len() - i,
        {
            let in_shadow: bool = match self.is_shadowed(state.over_point, i) {
                Ok(b) => b,
                Err(e) => {
                    proof {
                        lemma_light_sum_err(
                            *self,
                            *state,
                            i as int + 1,
                            self.lights@.len() as int,
                        );
                    }
                    return Err(e);
                },
            };
            let light: Light = self.lights[i];
            let c: Color = match shape.lighting_at(
                state.point,
                state.eyev,
                state.normalv,
                light,
                in_shadow,
            ) {
                Ok(c) => c,
                Err(e) => {
                    proof {
                        lemma_light_sum_err(
                            *self,
                            *state,
                            i as int + 1,
                            self.lights@.len() as int,
                        );
                    }
                    return Err(e);
                },
            };
            let new_color: Color = color.add(c);
            proof {
                assert(self.lights@[i as int] == light);
                assert(spec_light_sum(*self, *state, i as int + 1) == Ok::<Color, TracerError>(
                    new_color,
                ));
            }
            color = new_color;
            i = i + 1;
        }
        let reflected: Color = match self.reflected_color(state, depth) {
            Ok(c) => c,
            Err(e) => {
                return Err(e);
            },
        };
        Ok(color.add(reflected))
    }

    /// The reflected contribution of a hit: black for a surface whose
    /// reflectivity is within tolerance of zero, and black once the bounce
    /// budget is spent, so that reflection between facing mirrors
    /// terminates.
    #[verifier::rlimit(100)]
    pub fn reflected_color(&self, state: &State, depth: u32) -> (r: Result<Color, TracerError>)
        requires
            self.wf(),
            state.wf(),
        ensures
            match r {
                Ok(c) => spec_reflected(*self, *state, depth as nat) == Ok::<Color, TracerError>(
                    c,
                ),
                Err(e) => spec_reflected(*self, *state, depth as nat) == Err::<Color, TracerError>(
                    e,
                ),
            },
        decreases depth, 2int,
    {
        let shape: &Shape = match self.get_object(state.obj_id) {
            Some(s) => s,
            None => {
                return Err(TracerError::IndexOutOfRange);
            },
        };
        let reflectivity: Fx = shape.material().reflective;
        if reflectivity.equals(Fx::zero()) {
            return Ok(Color::black());
        }
        if depth == 0 {
            return Ok(Color::black());
        }
        let reflected_ray: Ray = match Ray::new(state.over_point, state.reflectv) {
            Ok(r) => r,
            Err(_) => {
                proof {
                    assert(false);
                }
                return Err(TracerError::InvalidArgument);
            },
        };
        let color: Color = match self.color_at(&reflected_ray, depth - 1) {
            Ok(c) => c,
            Err(e) => {
                return Err(e);
            },
        };
        Ok(color.mul(reflectivity))
    }

    /// The color seen along a ray: black where the ray hits nothing, else
    /// the shaded color of the nearest visible hit, with reflection
    /// recursion bounded by the depth budget.
    pub fn color_at(&self, ray: &Ray, depth: u32) -> (r: Result<Color, TracerError>)
        requires
            self.wf(),
            ray.wf(),
        ensures
            match r {
                Ok(c) => spec_color_at(*self, *ray, depth as nat) == Ok::<Color, TracerError>(c),
                Err(e) => spec_color_at(*self, *ray, depth as nat) == Err::<Color, TracerError>(e),
            },
        decreases depth, 4int,
    {
        proof {
        }
        let xs: Intersections = match self.intersect_with(ray) {
            Ok(x) => x,
            Err(e) => {
                return Err(e);
            },
        };
        match xs.hit() {
            Some(x) => {
                let state: State = match x.compute_state(ray, self) {
                    Ok(st) => st,
                    Err(e) => {
                        proof {
                                }
                        return Err(e);
                    },
                };
                proof {
                    assert(spec_world_xs(self.objects@, *ray, Seq::empty()) == Ok::<
                        Seq<Intersection>,
                        TracerError,
                    >(xs.crossings@));
                    assert(spec_hit(xs.crossings@) == Some(x));
                    assert(spec_compute_state(x, *ray, *self) == Ok::<State, TracerError>(state));
                }
                let shaded = self.shade_hit(&state, depth);
                proof {
                    assert(shaded matches Ok(c) ==> spec_shade_hit(*self, state, depth as nat)
                        == Ok::<Color, TracerError>(c));
                    assert(shaded matches Ok(c) ==> spec_color_at(*self, *ray, depth as nat)
                        == Ok::<Color, TracerError>(c));
                }
                shaded
            },
            None => {
                proof {
                    assert(spec_world_xs(self.objects@, *ray, Seq::empty()) == Ok::<
                        Seq<Intersection>,
                        TracerError,
                    >(xs.crossings@));
                    assert(spec_hit(xs.crossings@) is None);
                    assert(spec_color_at(*self, *ray, depth as nat) == Ok::<Color, TracerError>(
                        c_black(),
                    ));
                }
                Ok(Color::black())
            },
        }
    }
}

impl Intersection {
    /// Derives the local hit geometry used by the shading engine.
    pub fn compute_state(&self, ray: &Ray, world: &World) -> (r: Result<State, TracerError>)
        requires
            ray.wf(),
            world.wf(),
        ensures
            match r {
                Ok(st) => st.wf() && spec_compute_state(*self, *ray, *world) == Ok::<
                    State,
                    TracerError,
                >(st),
                Err(e) => spec_compute_state(*self, *ray, *world) == Err::<State, TracerError>(e),
            },
    {
        proof {
            reveal(spec_compute_state);
        }
        let point: Vec3 = ray.position(self.t);
        let shape: &Shape = match world.get_object(self.obj_id) {
            Some(s) => s,
            None => {
                return Err(TracerError::IndexOutOfRange);
            },
        };
        let normal0: Vec3 = match shape.normal_at(point) {
            Ok(n) => n,
            Err(e) => {
                return Err(e);
            },
        };
        let eyev: Vec3 = ray.direction.neg();
        let reflectv: Vec3 = match ray.direction.reflect(normal0) {
            Ok(v) => v,
            Err(_) => {
                proof {
                    assert(false);
                }
                return Err(TracerError::InvalidOperand);
            },
        };
        let n_dot_eye: Fx = match normal0.dot(eyev) {
            Ok(d) => d,
            Err(_) => {
                proof {
                    assert(false);
                }
                return Err(TracerError::InvalidOperand);
            },
        };
        let inside: bool;
        let normalv: Vec3;
        if n_dot_eye.raw < 0 {
            inside = true;
            normalv = normal0.neg();
        } else {
            inside = false;
            normalv = normal0;
        }
        let offset: Vec3 = normalv.mul(Fx::from_int(15)).mul(Fx::new(EPSILON_RAW));
        let over_point: Vec3 = match point.add(offset) {
            Ok(p) => p,
            Err(_) => {
                proof {
                    assert(false);
                }
                return Err(TracerError::InvalidOperand);
            },
        };
        Ok(
            State {
                t: self.t,
                obj_id: self.obj_id,
                point,
                over_point,
                eyev,
                normalv,
                reflectv,
                inside,
            },
        )
    }
}

} // verus!
