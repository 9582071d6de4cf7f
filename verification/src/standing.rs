//! Scenes of objects, each with its own mesh, surface and place.

use vstd::prelude::*;

use crate::bits::Vec3;
use crate::changeset::Kind;
use crate::formula;
use crate::formula::{Answer, Formula};
use crate::media::Medium;
use crate::prep;
use crate::prep::{Object, Scene};
use crate::scene;
use crate::scene::{Camera, TriangleLight};

verus! {

/// Every object is placed once, in order: with its own mesh, where it stands, with its
/// medium and its priority; and with its surface, unless it bounds a medium.
pub proof fn objects_stand_where_they_are<M: Fn(Formula) -> Answer>(
    maths: M,
    shown: Scene,
    objects: Seq<Object>,
    camera: Camera,
    global: Option<Medium>,
    i: int,
)
    requires
        shown.shows(maths, objects, camera, global),
        0 <= i < objects.len(),
    ensures
        shown@.placements.len() == objects.len(),
        ({
            let placement = shown@.placements[i];
            let mesh = shown@.geometry[placement.geometry@];
            &&& shown@.geometry.contains_key(placement.geometry@)
            &&& mesh.positions@ == objects[i].mesh.positions@
            &&& mesh.normals@ == objects[i].mesh.normals@
            &&& mesh.uvs@ == objects[i].mesh.uvs@
            &&& mesh.triangles@ == objects[i].mesh.triangles@
            &&& placement.transform == objects[i].transform
            &&& placement.medium == objects[i].medium
            &&& placement.priority == objects[i].interior_priority
            &&& placement.camera_visible
            &&& objects[i].medium is None ==> placement.material == objects[i].material
        }),
        shown@.camera == camera,
        shown@.global == global,
        shown@.delta_lights.len() == 0,
{
    assert(prep::places(shown@.placements[i], objects[i], i));
    assert(shown@.geometry.contains_key((Kind::Mesh, prep::object_name(i))));
}

/// A light is a triangle of an object: it has the object's number and what its surface
/// emits, and its corners are those of the triangle where the object stands.
pub open spec fn lights<M: Fn(Formula) -> Answer>(
    maths: M,
    objects: Seq<Object>,
    i: int,
    t: int,
    light: TriangleLight,
) -> bool {
    let object = objects[i];
    let corners = object.mesh.triangles@[t];
    &&& light.instance == i
    &&& light.emission == prep::surface(object).emission
    &&& light.first == formula::vector(
        maths,
        Formula::Moved(object.transform, object.mesh.positions@[corners[0] as int]),
    )
    &&& light.second == formula::vector(
        maths,
        Formula::Moved(object.transform, object.mesh.positions@[corners[1] as int]),
    )
    &&& light.third == formula::vector(
        maths,
        Formula::Moved(object.transform, object.mesh.positions@[corners[2] as int]),
    )
}

/// The surface of an object emits something.
pub open spec fn glows(object: Object) -> bool {
    !prep::surface(object).emission.equal(Vec3::new(0, 0, 0))
}

/// Every triangle of an object that emits something is a light.
pub proof fn glowing_objects_are_lights<M: Fn(Formula) -> Answer>(
    maths: M,
    objects: Seq<Object>,
    n: int,
    i: int,
    t: int,
) -> (at: int)
    requires
        0 <= i < n <= objects.len() <= u32::MAX,
        glows(objects[i]),
        0 <= t < objects[i].mesh.triangles@.len(),
    ensures
        0 <= at < prep::objects_lit(maths, objects, n).len(),
        lights(maths, objects, i, t, prep::objects_lit(maths, objects, n)[at]),
    decreases n,
{
    let all = prep::objects_lit(maths, objects, n);
    let before = prep::objects_lit(maths, objects, n - 1);
    if i < n - 1 {
        let at = glowing_objects_are_lights(maths, objects, n - 1, i, t);
        assert(all[at] == before[at]);
        at
    } else {
        let own = scene::lit_triangles(
            maths,
            objects[i].mesh.positions@,
            objects[i].mesh.triangles@,
            objects[i].transform,
            prep::surface(objects[i]).emission,
            i as u32,
        );
        assert(all == before + own);
        assert(all[before.len() + t] == own[t]);
        before.len() + t
    }
}

/// Every light is a triangle of an object that emits something.
pub proof fn lights_are_of_glowing_objects<M: Fn(Formula) -> Answer>(
    maths: M,
    objects: Seq<Object>,
    n: int,
    at: int,
) -> (found: (int, int))
    requires
        0 <= n <= objects.len() <= u32::MAX,
        0 <= at < prep::objects_lit(maths, objects, n).len(),
    ensures
        0 <= found.0 < n,
        glows(objects[found.0]),
        0 <= found.1 < objects[found.0].mesh.triangles@.len(),
        lights(maths, objects, found.0, found.1, prep::objects_lit(maths, objects, n)[at]),
    decreases n,
{
    let all = prep::objects_lit(maths, objects, n);
    let before = prep::objects_lit(maths, objects, n - 1);
    if at < before.len() {
        assert(all[at] == before[at]);
        lights_are_of_glowing_objects(maths, objects, n - 1, at)
    } else {
        let object = objects[n - 1];
        let own = scene::lit_triangles(
            maths,
            object.mesh.positions@,
            object.mesh.triangles@,
            object.transform,
            prep::surface(object).emission,
            (n - 1) as u32,
        );
        assert(all == before + own);
        assert(all[at] == own[at - before.len()]);
        (n - 1, at - before.len())
    }
}

} // verus!
