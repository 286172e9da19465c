//! A wrapper moving a child object by a fixed offset.
use vstd::prelude::*;
use crate::vec3::{Vec3, in_range};
use crate::hittable::{Hittable, wf_h};
use crate::INFINITY;

verus! {

/// A hittable object shifted by an offset
#[derive(Debug)]
pub struct Translate {
    /// The wrapped object
    pub object: Box<Hittable>,
    /// How far the object is moved
    pub offset: Vec3,
}

impl Translate {
    /// Wraps an object with a positional offset, wrapped in the Hittable enum
    pub fn new(object: Hittable, offset: Vec3) -> (r: Hittable)
        requires
            wf_h(object),
            in_range(offset, INFINITY as int),
        ensures
            r matches Hittable::Translate(tr) && *tr.object == object && tr.offset == offset,
            wf_h(r),
    {
        Hittable::Translate(Translate { object: Box::new(object), offset })
    }
}


/// Translating a sphere by an offset and hitting it with a ray selects the
/// same root as hitting the untranslated sphere with the ray moved back by
/// the offset, and the hit points differ by exactly the offset.
pub proof fn lemma_translate_round_trip(cx: int, cy: int, cz: int, offx: int, offy: int,
    offz: int, radius: int, ray: crate::ray::Ray, moved: crate::ray::Ray, tmin: int, tmax: int)
    requires
        moved.origin.x == ray.origin.x - offx,
        moved.origin.y == ray.origin.y - offy,
        moved.origin.z == ray.origin.z - offz,
        moved.direction == ray.direction,
    ensures
        crate::sphere::sphere_root(moved.origin.x - cx, moved.origin.y - cy,
            moved.origin.z - cz, moved.direction, radius, tmin, tmax)
            == crate::sphere::sphere_root(ray.origin.x - (cx + offx),
                ray.origin.y - (cy + offy), ray.origin.z - (cz + offz), ray.direction,
                radius, tmin, tmax),
        forall|root: int| crate::ray::at_comp(moved.origin.x as int,
            moved.direction.x as int, root) + offx
            == #[trigger] crate::ray::at_comp(ray.origin.x as int, ray.direction.x as int,
                root),
{
}

} // verus!
