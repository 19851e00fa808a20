//! The scene model and the intersection resolver.
//!
//! A scene is an ordered sequence of spheres and a sequence of point
//! lights, all immutable for the duration of a render.  `ray_intersect`
//! is the analytic quadratic sphere test by the geometric method, and
//! `scene_intersect` the linear scan that keeps the strictly nearest hit.

use vstd::prelude::*;

use crate::fx::{
    fx_mul, fx_sub, lemma_sqrt_floor_is, mul_fx, sqrt_floor, sqrt_scaled_i128, sub_fx, tdiv,
    RANGE, SCALE,
};
use crate::vec3::{
    raw_norm_sq, spec_add, spec_dot, spec_norm, spec_normalize, spec_scale, spec_sub, Vec3,
};

verus! {

/// The four weights of the shading sum: how much the diffuse, specular,
/// reflected and refracted terms contribute to the final color.
#[derive(Clone, Copy, Debug, PartialEq, Eq, Structural)]
pub struct Albedo {
    pub diffuse: i64,
    pub specular: i64,
    pub reflect: i64,
    pub refract: i64,
}

impl Albedo {
    /// All weights non-negative and in the fixed-point range.
    pub open spec fn wf(self) -> bool {
        &&& 0 <= self.diffuse <= RANGE as int
        &&& 0 <= self.specular <= RANGE as int
        &&& 0 <= self.reflect <= RANGE as int
        &&& 0 <= self.refract <= RANGE as int
    }
}

/// A surface description, shared by value among the spheres that use it.
#[derive(Clone, Copy, Debug, PartialEq, Eq, Structural)]
pub struct Material {
    pub diffuse_color: Vec3,
    pub albedo: Albedo,
    /// Shininess: the exponent of the specular power law.
    pub specular_exponent: u32,
    /// At least one, in fixed-point steps.
    pub refractive_index: i64,
}

impl Material {
    pub open spec fn wf(self) -> bool {
        &&& self.diffuse_color.wf()
        &&& self.albedo.wf()
        &&& 1 <= self.specular_exponent
        &&& SCALE as int <= self.refractive_index <= RANGE as int
    }
}

/// A sphere primitive: center, positive radius, material by value.
#[derive(Clone, Copy, Debug, PartialEq, Eq, Structural)]
pub struct Sphere {
    pub center: Vec3,
    pub radius: i64,
    pub material: Material,
}

impl Sphere {
    pub open spec fn wf(self) -> bool {
        &&& self.center.wf()
        &&& 0 < self.radius <= RANGE as int
        &&& self.material.wf()
    }
}

/// A point light of positive scalar intensity.
#[derive(Clone, Copy, Debug, PartialEq, Eq, Structural)]
pub struct Light {
    pub position: Vec3,
    pub intensity: i64,
}

impl Light {
    pub open spec fn wf(self) -> bool {
        &&& self.position.wf()
        &&& 0 < self.intensity <= RANGE as int
    }
}

pub open spec fn spheres_wf(spheres: Seq<Sphere>) -> bool {
    forall|i: int| 0 <= i < spheres.len() ==> (#[trigger] spheres[i]).wf()
}

pub open spec fn lights_wf(lights: Seq<Light>) -> bool {
    forall|i: int| 0 <= i < lights.len() ==> (#[trigger] lights[i]).wf()
}

/// The distance along the ray to the sphere, if the ray hits it: the
/// center is projected onto the ray, the squared half-chord is compared
/// with the squared radius, and of the two roots the nearest non-negative
/// one is taken.  A hit at distance exactly zero counts.
pub open spec fn spec_ray_intersect(s: Sphere, orig: Vec3, dir: Vec3) -> Option<i64> {
    let l = spec_sub(s.center, orig);
    let tca = spec_dot(l, dir);
    let d2 = fx_sub(spec_dot(l, l), fx_mul(tca, tca));
    let r2 = fx_mul(s.radius as int, s.radius as int);
    if d2 > r2 {
        None
    } else {
        let thc = sqrt_floor((r2 - d2) * (SCALE as int));
        let t0 = tca - thc;
        let t1 = tca + thc;
        if t0 >= 0 {
            Some(t0 as i64)
        } else if t1 >= 0 {
            Some(t1 as i64)
        } else {
            None
        }
    }
}

impl Sphere {
    /// The nearest non-negative root along the ray, or `None` when the ray
    /// misses or the sphere lies wholly behind the origin.
    pub fn ray_intersect(&self, orig: &Vec3, dir: &Vec3) -> (r: Option<i64>)
        requires
            orig.wf(),
            dir.wf(),
            self.center.wf(),
        ensures
            r == spec_ray_intersect(*self, *orig, *dir),
            r matches Some(t) ==> 0 <= t,
    {
        let l = self.center.sub(orig);
        let tca = l.dot(dir);
        let d2 = sub_fx(l.dot(&l), mul_fx(tca, tca));
        let r2 = mul_fx(self.radius, self.radius);
        if d2 > r2 {
            None
        } else {
            let rd: i128 = r2 as i128 - d2 as i128;
            let thc = sqrt_scaled_i128(rd);
            let t0 = tca - thc;
            let t1 = tca + thc;
            if t0 >= 0 {
                Some(t0)
            } else if t1 >= 0 {
                Some(t1)
            } else {
                None
            }
        }
    }
}

/// The nearest hit among the first `n` spheres, with its index; of equally
/// near hits the earliest sphere wins, since a later one replaces the
/// current best only when strictly nearer.
pub open spec fn spec_best_hit(spheres: Seq<Sphere>, orig: Vec3, dir: Vec3, n: int) -> Option<
    (i64, int),
>
    decreases n,
{
    if n <= 0 {
        None
    } else {
        let prev = spec_best_hit(spheres, orig, dir, n - 1);
        match spec_ray_intersect(spheres[n - 1], orig, dir) {
            None => prev,
            Some(t) => match prev {
                None => Some((t, n - 1)),
                Some((pt, pi)) => if t < pt {
                    Some((t, n - 1))
                } else {
                    Some((pt, pi))
                },
            },
        }
    }
}

/// What the resolver reports of a sphere the ray strikes at distance `t`:
/// the hit point along the ray, the outward unit normal there, and the
/// sphere's material.
pub open spec fn spec_scene_hit(orig: Vec3, dir: Vec3, s: Sphere, t: i64) -> (Vec3, Vec3, Material) {
    let hit = spec_add(orig, spec_scale(dir, t as int));
    (hit, spec_normalize(spec_sub(hit, s.center)), s.material)
}

/// What the intersection resolver returns for a hit: the hit point along
/// the ray, the outward unit normal there, and the winning material.
pub open spec fn spec_scene_intersect(orig: Vec3, dir: Vec3, spheres: Seq<Sphere>) -> Option<
    (Vec3, Vec3, Material),
> {
    match spec_best_hit(spheres, orig, dir, spheres.len() as int) {
        None => None,
        Some((t, i)) => Some(spec_scene_hit(orig, dir, spheres[i], t)),
    }
}

/// The nearest-hit scan is sound and complete over the first `n` spheres:
/// a `None` means no sphere among them intersects the ray at all, and a
/// `Some((t, i))` names a sphere that the ray hits at distance `t`, with no
/// sphere hit strictly nearer.
pub proof fn lemma_best_hit_props(spheres: Seq<Sphere>, orig: Vec3, dir: Vec3, n: int)
    requires
        0 <= n <= spheres.len(),
    ensures
        match spec_best_hit(spheres, orig, dir, n) {
            None => forall|j: int|
                0 <= j < n ==> #[trigger] spec_ray_intersect(spheres[j], orig, dir) is None,
            Some(best) => {
                &&& 0 <= best.1 < n
                &&& spec_ray_intersect(spheres[best.1], orig, dir) == Some(best.0)
                &&& forall|j: int|
                    0 <= j < n && #[trigger] spec_ray_intersect(spheres[j], orig, dir) is Some
                        ==> best.0 <= spec_ray_intersect(spheres[j], orig, dir)->Some_0
            },
        },
    decreases n,
{
    if n > 0 {
        lemma_best_hit_props(spheres, orig, dir, n - 1);
    }
}

/// The resolver always answers with the globally nearest hit: it is
/// `None` exactly when no sphere intersects the ray, and a hit comes from
/// a sphere the ray strikes no farther than any other.
pub proof fn lemma_scene_intersect_nearest(orig: Vec3, dir: Vec3, spheres: Seq<Sphere>)
    ensures
        spec_scene_intersect(orig, dir, spheres) is None <==> (forall|j: int|
            0 <= j < spheres.len() ==> #[trigger] spec_ray_intersect(spheres[j], orig, dir)
                is None),
        spec_scene_intersect(orig, dir, spheres) matches Some(h) ==> exists|i: int|
            {
                &&& 0 <= i < spheres.len()
                &&& #[trigger] spec_ray_intersect(spheres[i], orig, dir) is Some
                &&& h == spec_scene_hit(
                    orig,
                    dir,
                    spheres[i],
                    spec_ray_intersect(spheres[i], orig, dir)->Some_0,
                )
                &&& forall|j: int|
                    0 <= j < spheres.len() && #[trigger] spec_ray_intersect(spheres[j], orig, dir)
                        is Some ==> spec_ray_intersect(spheres[i], orig, dir)->Some_0
                        <= spec_ray_intersect(spheres[j], orig, dir)->Some_0
            },
{
    lemma_best_hit_props(spheres, orig, dir, spheres.len() as int);
    match spec_best_hit(spheres, orig, dir, spheres.len() as int) {
        None => {
        },
        Some(best) => {
            let i = best.1;
            assert({
                &&& 0 <= i < spheres.len()
                &&& spec_ray_intersect(spheres[i], orig, dir) is Some
                &&& spec_scene_intersect(orig, dir, spheres)->Some_0 == spec_scene_hit(
                    orig,
                    dir,
                    spheres[i],
                    spec_ray_intersect(spheres[i], orig, dir)->Some_0,
                )
                &&& forall|j: int|
                    0 <= j < spheres.len() && #[trigger] spec_ray_intersect(spheres[j], orig, dir)
                        is Some ==> spec_ray_intersect(spheres[i], orig, dir)->Some_0
                        <= spec_ray_intersect(spheres[j], orig, dir)->Some_0
            });
        },
    }
}

/// No two hit distances agree: of any two spheres the ray intersects,
/// the distances differ.
pub open spec fn distinct_hit_distances(spheres: Seq<Sphere>, orig: Vec3, dir: Vec3) -> bool {
    forall|i: int, j: int|
        0 <= i < j < spheres.len() && #[trigger] spec_ray_intersect(spheres[i], orig, dir) is Some
            && #[trigger] spec_ray_intersect(spheres[j], orig, dir) is Some
            ==> spec_ray_intersect(spheres[i], orig, dir)->Some_0 != spec_ray_intersect(
            spheres[j],
            orig,
            dir,
        )->Some_0
}

/// The intersection resolver is independent of the order the spheres are
/// listed in: two scenes holding the same spheres give the same nearest
/// hit, provided no two hits are equidistant.
pub proof fn lemma_scene_intersect_order_independent(
    s1: Seq<Sphere>,
    s2: Seq<Sphere>,
    orig: Vec3,
    dir: Vec3,
)
    requires
        s1.to_multiset() == s2.to_multiset(),
        distinct_hit_distances(s1, orig, dir),
    ensures
        spec_scene_intersect(orig, dir, s1) == spec_scene_intersect(orig, dir, s2),
{
    s1.to_multiset_ensures();
    s2.to_multiset_ensures();
    assert forall|x: Sphere| #[trigger] s1.contains(x) implies s2.contains(x) by {
        assert(s1.to_multiset().count(x) > 0);
        assert(s2.to_multiset().count(x) > 0);
    }
    assert forall|x: Sphere| #[trigger] s2.contains(x) implies s1.contains(x) by {
        assert(s2.to_multiset().count(x) > 0);
        assert(s1.to_multiset().count(x) > 0);
    }
    lemma_best_hit_props(s1, orig, dir, s1.len() as int);
    lemma_best_hit_props(s2, orig, dir, s2.len() as int);
    let b1 = spec_best_hit(s1, orig, dir, s1.len() as int);
    let b2 = spec_best_hit(s2, orig, dir, s2.len() as int);
    if b1 is Some {
        let (t1, i1) = b1->Some_0;
        let w1 = s1[i1];
        assert(s1.contains(w1));
        let j2 = choose|j: int| 0 <= j < s2.len() && s2[j] == w1;
        assert(spec_ray_intersect(s2[j2], orig, dir) == Some(t1));
        assert(b2 is Some);
        let (t2, i2) = b2->Some_0;
        assert(t2 <= t1);
        let w2 = s2[i2];
        assert(s2.contains(w2));
        let j1 = choose|j: int| 0 <= j < s1.len() && s1[j] == w2;
        assert(spec_ray_intersect(s1[j1], orig, dir) == Some(t2));
        assert(t1 <= t2);
        assert(t1 == t2);
        if j1 != i1 {
            if j1 < i1 {
                assert(spec_ray_intersect(s1[j1], orig, dir)->Some_0 != spec_ray_intersect(
                    s1[i1],
                    orig,
                    dir,
                )->Some_0);
            } else {
                assert(spec_ray_intersect(s1[i1], orig, dir)->Some_0 != spec_ray_intersect(
                    s1[j1],
                    orig,
                    dir,
                )->Some_0);
            }
            assert(false);
        }
        assert(w2 == s1[j1] && s1[j1] == w1);
        assert(s1[i1].center == s2[i2].center && s1[i1].material == s2[i2].material);
    } else {
        if b2 is Some {
            let (t2, i2) = b2->Some_0;
            let w2 = s2[i2];
            assert(s2.contains(w2));
            let j1 = choose|j: int| 0 <= j < s1.len() && s1[j] == w2;
            assert(spec_ray_intersect(s1[j1], orig, dir) is Some);
            assert(false);
        }
    }
}

/// A ray aimed from outside a sphere straight at its center intersects at
/// exactly the center's distance less the radius.  The hypotheses make the
/// fixed-point arithmetic exact: the direction is exactly unit, the center
/// stands an integer multiple of the direction from the origin with room
/// to spare, and the squared radius is a whole number of fixed-point steps.
pub proof fn lemma_aimed_at_center(s: Sphere, orig: Vec3, dir: Vec3, k: int)
    requires
        orig.wf(),
        dir.wf(),
        s.wf(),
        raw_norm_sq(dir) == (SCALE as int) * (SCALE as int),
        0 < k <= 0x80_0000,
        s.center.x as int == orig.x as int + k * (dir.x as int),
        s.center.y as int == orig.y as int + k * (dir.y as int),
        s.center.z as int == orig.z as int + k * (dir.z as int),
        (s.radius as int) * (s.radius as int) % (SCALE as int) == 0,
        s.radius <= 0x80_0000_0000,
        s.radius as int <= k * (SCALE as int),
    ensures
        spec_norm(spec_sub(s.center, orig)) == k * (SCALE as int),
        spec_ray_intersect(s, orig, dir) == Some(
            (k * (SCALE as int) - s.radius as int) as i64,
        ),
{
    let sc = SCALE as int;
    let dx = dir.x as int;
    let dy = dir.y as int;
    let dz = dir.z as int;
    let rad = s.radius as int;
    assert(dx * dx >= 0 && dy * dy >= 0 && dz * dz >= 0) by (nonlinear_arith);
    assert(dx * dx <= sc * sc && dy * dy <= sc * sc && dz * dz <= sc * sc);
    assert(-sc <= dx <= sc && -sc <= dy <= sc && -sc <= dz <= sc) by (nonlinear_arith)
        requires
            dx * dx <= sc * sc,
            dy * dy <= sc * sc,
            dz * dz <= sc * sc,
            sc == 65536,
    ;
    assert(-(k * sc) <= k * dx <= k * sc && -(k * sc) <= k * dy <= k * sc && -(k * sc) <= k * dz
        <= k * sc) by (nonlinear_arith)
        requires
            0 < k,
            -sc <= dx <= sc,
            -sc <= dy <= sc,
            -sc <= dz <= sc,
    ;
    assert(k * sc <= 0x80_0000_0000);
    let l = spec_sub(s.center, orig);
    assert(l.x as int == k * dx && l.y as int == k * dy && l.z as int == k * dz);
    // raw dot of l with dir, and of l with itself
    assert((k * dx) * dx == k * (dx * dx) && (k * dy) * dy == k * (dy * dy) && (k * dz) * dz == k
        * (dz * dz)) by (nonlinear_arith);
    assert(k * (dx * dx) + k * (dy * dy) + k * (dz * dz) == k * (dx * dx + dy * dy + dz * dz))
        by (nonlinear_arith);
    assert((k * dx) * (k * dx) == (k * k) * (dx * dx) && (k * dy) * (k * dy) == (k * k) * (dy
        * dy) && (k * dz) * (k * dz) == (k * k) * (dz * dz)) by (nonlinear_arith);
    assert((k * k) * (dx * dx) + (k * k) * (dy * dy) + (k * k) * (dz * dz) == (k * k) * (dx * dx
        + dy * dy + dz * dz)) by (nonlinear_arith);
    let raw_ld = (l.x as int) * dx + (l.y as int) * dy + (l.z as int) * dz;
    assert(raw_ld == k * (sc * sc));
    let raw_ll = raw_norm_sq(l);
    assert(raw_ll == (k * k) * (sc * sc));
    // tca == k * SCALE
    assert(k * (sc * sc) == (k * sc) * sc) by (nonlinear_arith);
    vstd::arithmetic::div_mod::lemma_div_multiples_vanish(k * sc, sc);
    assert(tdiv(raw_ld, sc) == k * sc);
    assert(0 <= k * sc <= RANGE as int);
    let tca = spec_dot(l, dir);
    assert(tca == k * sc);
    // dot(l, l) == k*k*SCALE
    assert((k * k) * (sc * sc) == ((k * k) * sc) * sc) by (nonlinear_arith);
    vstd::arithmetic::div_mod::lemma_div_multiples_vanish((k * k) * sc, sc);
    assert(tdiv(raw_ll, sc) == (k * k) * sc);
    assert(0 <= (k * k) * sc <= RANGE as int) by (nonlinear_arith)
        requires
            0 < k <= 0x80_0000,
            sc == 65536,
            RANGE as int == 0x4000_0000_0000_0000,
    ;
    assert(spec_dot(l, l) == (k * k) * sc);
    // fx_mul(tca, tca) == k*k*SCALE
    assert((k * sc) * (k * sc) == ((k * k) * sc) * sc) by (nonlinear_arith);
    assert(fx_mul(tca, tca) == (k * k) * sc) by {
        vstd::arithmetic::div_mod::lemma_div_multiples_vanish((k * k) * sc, sc);
    }
    // d2 == 0
    assert(fx_sub(spec_dot(l, l), fx_mul(tca, tca)) == 0);
    // r2 == radius^2 / SCALE, exactly
    assert(0 <= rad * rad) by (nonlinear_arith);
    assert(rad * rad <= 0x80_0000_0000 * 0x80_0000_0000) by (nonlinear_arith)
        requires
            0 < rad <= 0x80_0000_0000,
    ;
    let r2 = fx_mul(rad, rad);
    vstd::arithmetic::div_mod::lemma_fundamental_div_mod(rad * rad, sc);
    assert(rad * rad == sc * (rad * rad / sc));
    assert(0 <= rad * rad / sc <= RANGE as int) by (nonlinear_arith)
        requires
            0 <= rad * rad <= 0x80_0000_0000 * 0x80_0000_0000,
            sc == 65536,
            rad * rad == sc * (rad * rad / sc),
            RANGE as int == 0x4000_0000_0000_0000,
    ;
    assert(r2 == rad * rad / sc);
    assert(r2 >= 0);
    // thc == radius
    assert((r2 - 0) * sc == rad * rad) by (nonlinear_arith)
        requires
            rad * rad == sc * (rad * rad / sc),
            r2 == rad * rad / sc,
    ;
    assert(rad * rad < (rad + 1) * (rad + 1)) by (nonlinear_arith)
        requires
            0 < rad,
    ;
    lemma_sqrt_floor_is(rad * rad, rad);
    assert(sqrt_floor((r2 - 0) * sc) == rad);
    // norm of l == k * SCALE
    assert((k * sc) * (k * sc) == (k * k) * (sc * sc)) by (nonlinear_arith);
    assert((k * k) * (sc * sc) < (k * sc + 1) * (k * sc + 1)) by (nonlinear_arith)
        requires
            0 < k * sc,
            (k * sc) * (k * sc) == (k * k) * (sc * sc),
    ;
    lemma_sqrt_floor_is(raw_ll, k * sc);
    assert(spec_norm(l) == k * sc);
}

/// The linear scan over the scene for the nearest hit.
pub fn scene_intersect(orig: &Vec3, dir: &Vec3, spheres: &Vec<Sphere>) -> (r: Option<
    (Vec3, Vec3, Material),
>)
    requires
        orig.wf(),
        dir.wf(),
        spheres_wf(spheres@),
    ensures
        r == spec_scene_intersect(*orig, *dir, spheres@),
        r matches Some(h) ==> h.0.wf() && h.1.wf() && h.2.wf(),
{
    let ghost g_orig = *orig;
    let ghost g_dir = *dir;
    let mut best: Option<(i64, usize)> = None;
    let mut i: usize = 0;
    while i < spheres.len()
        invariant
            i <= spheres.len(),
            orig.wf(),
            dir.wf(),
            spheres_wf(spheres@),
            *orig == g_orig,
            *dir == g_dir,
            match best {
                None => spec_best_hit(spheres@, g_orig, g_dir, i as int) is None,
                Some((t, j)) => j < i && spec_best_hit(spheres@, g_orig, g_dir, i as int)
                    == Some((t, j as int)),
            },
        decreases spheres.len() - i,
    {
        match spheres[i].ray_intersect(orig, dir) {
            None => {},
            Some(t) => {
                match best {
                    None => {
                        best = Some((t, i));
                    },
                    Some((pt, _)) => {
                        if t < pt {
                            best = Some((t, i));
                        }
                    },
                }
            },
        }
        i = i + 1;
    }
    match best {
        None => None,
        Some((t, j)) => {
            let sphere = &spheres[j];
            let hit = orig.add(&dir.mul(t));
            let normal = hit.sub(&sphere.center).normalize();
            Some((hit, normal, sphere.material))
        },
    }
}

} // verus!
