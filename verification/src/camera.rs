//! The camera: maps normalized image-plane coordinates to world-space
//! rays.

use vstd::prelude::*;
use crate::fixed::fp_add;
use crate::fixed::fp_add_spec;
use crate::ray::Ray;
use crate::ray::ray_wf;
use crate::vec::Point3;
use crate::vec::Vec3;
use crate::vec::add_spec;
use crate::vec::cross_term_spec;
use crate::vec::in_range;
use crate::vec::normalized_spec;
use crate::vec::scale_spec;
use crate::vec::sub_spec;

verus! {

/// The image-plane rectangle, derived once at construction.
#[derive(Clone, Copy, PartialEq, Eq, Structural, Debug)]
pub struct Camera {
    pub origin: Point3,
    pub lower_left_corner: Point3,
    pub horizontal: Vec3,
    pub vertical: Vec3,
}

pub open spec fn camera_wf(c: Camera) -> bool {
    &&& in_range(c.origin)
    &&& in_range(c.lower_left_corner)
    &&& in_range(c.horizontal)
    &&& in_range(c.vertical)
}

pub open spec fn cross_spec(a: Vec3, b: Vec3) -> Vec3 {
    Vec3 {
        x: cross_term_spec(a.y as int, b.z as int, a.z as int, b.y as int) as i64,
        y: cross_term_spec(a.z as int, b.x as int, a.x as int, b.z as int) as i64,
        z: cross_term_spec(a.x as int, b.y as int, a.y as int, b.x as int) as i64,
    }
}

/// The camera a look-from/look-at specification determines, in fixed
/// point.
pub open spec fn camera_spec(
    lookfrom: Point3,
    lookat: Point3,
    vup: Vec3,
    tan_half_vfov: int,
    aspect_ratio: int,
) -> Camera {
    let viewport_height = fp_add_spec(tan_half_vfov, tan_half_vfov);
    let viewport_width = crate::fixed::fp_mul_spec(aspect_ratio, viewport_height);
    let cw = normalized_spec(sub_spec(lookfrom, lookat));
    let cu = normalized_spec(cross_spec(vup, cw));
    let cv = cross_spec(cw, cu);
    let horizontal = scale_spec(cu, viewport_width);
    let vertical = scale_spec(cv, viewport_height);
    let half = crate::fixed::SCALE as int / 2;
    let lower_left_corner = sub_spec(
        sub_spec(sub_spec(lookfrom, scale_spec(horizontal, half)), scale_spec(vertical, half)),
        cw,
    );
    Camera { origin: lookfrom, lower_left_corner, horizontal, vertical }
}

/// The direction a camera assigns to normalized image coordinates
/// `(u, v)`.
pub open spec fn get_ray_dir_spec(c: Camera, u: int, v: int) -> Vec3 {
    sub_spec(
        add_spec(add_spec(c.lower_left_corner, scale_spec(c.horizontal, u)), scale_spec(c.vertical, v)),
        c.origin,
    )
}

impl Camera {
    /// Build from look-from/look-at geometry with the given vertical
    /// field of view and aspect ratio.  The field of view enters as
    /// the tangent of its half angle, a plain fixed-point value, so
    /// that the whole construction stays exact; the viewport is
    /// `2 tan(vfov/2)` high and `aspect_ratio` times as wide, at unit
    /// focal length.
    pub fn new(
        lookfrom: Point3,
        lookat: Point3,
        vup: Vec3,
        tan_half_vfov: i64,
        aspect_ratio: i64,
    ) -> (c: Camera)
        requires
            in_range(lookfrom),
            in_range(lookat),
            in_range(vup),
        ensures
            c == camera_spec(lookfrom, lookat, vup, tan_half_vfov as int, aspect_ratio as int),
            camera_wf(c),
            c.origin == lookfrom,
    {
        let viewport_height: i64 = fp_add(tan_half_vfov, tan_half_vfov);
        let viewport_width: i64 = crate::fixed::fp_mul(aspect_ratio, viewport_height);

        let cw: Vec3 = lookfrom.sub(lookat).normalized();
        let cu: Vec3 = vup.cross(cw).normalized();
        let cv: Vec3 = cw.cross(cu);

        let horizontal: Vec3 = cu.scale(viewport_width);
        let vertical: Vec3 = cv.scale(viewport_height);
        let half: i64 = crate::fixed::SCALE / 2;
        let lower_left_corner: Point3 = lookfrom
            .sub(horizontal.scale(half))
            .sub(vertical.scale(half))
            .sub(cw);

        Camera { origin: lookfrom, lower_left_corner, horizontal, vertical }
    }

    /// The ray through normalized image-plane coordinates `(u, v)`,
    /// with `(0, 0)` the lower-left corner.
    pub fn get_ray(&self, u: i64, v: i64) -> (r: Ray)
        requires
            camera_wf(*self),
        ensures
            r.origin == self.origin,
            r.direction == get_ray_dir_spec(*self, u as int, v as int),
            ray_wf(r),
    {
        let direction: Vec3 = self
            .lower_left_corner
            .add(self.horizontal.scale(u))
            .add(self.vertical.scale(v))
            .sub(self.origin);
        Ray::new(self.origin, direction)
    }
}

} // verus!
