//! Insertion of objects into their stores.

use crate::objects::stores::{appended, same_but, Kind};
use crate::objects::{
    Curve, Cycle, Edge, Face, Objects, Region, Shell, Sketch, Solid, Surface, Vertex,
};
use crate::storage::{Handle, Store};
use vstd::prelude::*;

verus! {

/// Reserves a slot of the store and fills it with the object
fn place<T>(store: &mut Store<T>, object: T) -> (handle: Handle<T>)
    ensures
        appended(*old(store), *final(store), object, handle),
{
    let handle = store.reserve();
    store.insert(handle, object);
    assert(store@ =~= old(store)@.push(Some(object)));
    handle
}

/// Insert an object into its respective store
///
/// All other operations that put objects into stores are built on top of it.
pub trait Insert: Sized {
    /// The type of `Self`, once it has been inserted
    ///
    /// Usually this is just `Handle<Self>`, but there are some more complex
    /// cases where this type needs to be customized.
    type Inserted;

    /// What the insertion of `self` does to the stores, and what it returns
    spec fn inserted(self, before: Objects, after: Objects, result: Self::Inserted) -> bool;

    /// Insert the object into its respective store
    #[must_use]
    fn insert(self, objects: &mut Objects) -> (result: Self::Inserted)
        ensures
            old(objects).surfaces.wf() ==> final(objects).surfaces.wf(),
            self.inserted(*old(objects), *final(objects), result),
    ;
}

impl Insert for Curve {
    type Inserted = Handle<Self>;

    /// The store of curves has one more slot, which holds the curve
    open spec fn inserted(self, before: Objects, after: Objects, result: Handle<Self>) -> bool {
        appended(before.curves, after.curves, self, result) && same_but(
            before,
            after,
            set![Kind::Curve],
        )
    }

    fn insert(self, objects: &mut Objects) -> (result: Handle<Self>) {
        place(&mut objects.curves, self)
    }
}

impl Insert for Cycle {
    type Inserted = Handle<Self>;

    /// The store of cycles has one more slot, which holds the cycle
    open spec fn inserted(self, before: Objects, after: Objects, result: Handle<Self>) -> bool {
        appended(before.cycles, after.cycles, self, result) && same_but(
            before,
            after,
            set![Kind::Cycle],
        )
    }

    fn insert(self, objects: &mut Objects) -> (result: Handle<Self>) {
        place(&mut objects.cycles, self)
    }
}

impl Insert for Face {
    type Inserted = Handle<Self>;

    /// The store of faces has one more slot, which holds the face
    open spec fn inserted(self, before: Objects, after: Objects, result: Handle<Self>) -> bool {
        appended(before.faces, after.faces, self, result) && same_but(
            before,
            after,
            set![Kind::Face],
        )
    }

    fn insert(self, objects: &mut Objects) -> (result: Handle<Self>) {
        place(&mut objects.faces, self)
    }
}

impl Insert for Edge {
    type Inserted = Handle<Self>;

    /// The store of edges has one more slot, which holds the edge
    open spec fn inserted(self, before: Objects, after: Objects, result: Handle<Self>) -> bool {
        appended(before.edges, after.edges, self, result) && same_but(
            before,
            after,
            set![Kind::Edge],
        )
    }

    fn insert(self, objects: &mut Objects) -> (result: Handle<Self>) {
        place(&mut objects.edges, self)
    }
}

impl Insert for Region {
    type Inserted = Handle<Self>;

    /// The store of regions has one more slot, which holds the region
    open spec fn inserted(self, before: Objects, after: Objects, result: Handle<Self>) -> bool {
        appended(before.regions, after.regions, self, result) && same_but(
            before,
            after,
            set![Kind::Region],
        )
    }

    fn insert(self, objects: &mut Objects) -> (result: Handle<Self>) {
        place(&mut objects.regions, self)
    }
}

impl Insert for Shell {
    type Inserted = Handle<Self>;

    /// The store of shells has one more slot, which holds the shell
    open spec fn inserted(self, before: Objects, after: Objects, result: Handle<Self>) -> bool {
        appended(before.shells, after.shells, self, result) && same_but(
            before,
            after,
            set![Kind::Shell],
        )
    }

    fn insert(self, objects: &mut Objects) -> (result: Handle<Self>) {
        place(&mut objects.shells, self)
    }
}

impl Insert for Sketch {
    type Inserted = Handle<Self>;

    /// The store of sketches has one more slot, which holds the sketch
    open spec fn inserted(self, before: Objects, after: Objects, result: Handle<Self>) -> bool {
        appended(before.sketches, after.sketches, self, result) && same_but(
            before,
            after,
            set![Kind::Sketch],
        )
    }

    fn insert(self, objects: &mut Objects) -> (result: Handle<Self>) {
        place(&mut objects.sketches, self)
    }
}

impl Insert for Solid {
    type Inserted = Handle<Self>;

    /// The store of solids has one more slot, which holds the solid
    open spec fn inserted(self, before: Objects, after: Objects, result: Handle<Self>) -> bool {
        appended(before.solids, after.solids, self, result) && same_but(
            before,
            after,
            set![Kind::Solid],
        )
    }

    fn insert(self, objects: &mut Objects) -> (result: Handle<Self>) {
        place(&mut objects.solids, self)
    }
}

impl Insert for Surface {
    type Inserted = Handle<Self>;

    /// The store of surfaces has one more slot, which holds the surface, and
    /// the handles of its three planes are what they were
    open spec fn inserted(self, before: Objects, after: Objects, result: Handle<Self>) -> bool {
        &&& after.surfaces.arena() == before.surfaces.arena()
        &&& after.surfaces@ == before.surfaces@.push(Some(self))
        &&& result@@ == (before.surfaces.arena(), before.surfaces@.len())
        &&& after.surfaces.spec_xy_plane() == before.surfaces.spec_xy_plane()
        &&& after.surfaces.spec_xz_plane() == before.surfaces.spec_xz_plane()
        &&& after.surfaces.spec_yz_plane() == before.surfaces.spec_yz_plane()
        &&& same_but(before, after, set![Kind::Surface])
    }

    fn insert(self, objects: &mut Objects) -> (result: Handle<Self>) {
        let handle = objects.surfaces.reserve();
        objects.surfaces.insert(handle, self);
        assert(objects.surfaces@ =~= old(objects).surfaces@.push(Some(self)));
        handle
    }
}

impl Insert for Vertex {
    type Inserted = Handle<Self>;

    /// The store of vertices has one more slot, which holds the vertex
    open spec fn inserted(self, before: Objects, after: Objects, result: Handle<Self>) -> bool {
        appended(before.vertices, after.vertices, self, result) && same_but(
            before,
            after,
            set![Kind::Vertex],
        )
    }

    fn insert(self, objects: &mut Objects) -> (result: Handle<Self>) {
        place(&mut objects.vertices, self)
    }
}

/// A polygon with `D` corners: a face, with its edges and vertices at hand
///
/// `F` is `Face` as long as the face has not been inserted, and
/// `Handle<Face>` once it has.
#[derive(Debug)]
pub struct Polygon<const D: usize, F> {
    /// The face that forms the polygon
    pub face: F,
    /// The edges of the polygon
    pub edges: [Handle<Edge>; D],
    /// The vertices of the polygon
    pub vertices: [Handle<Vertex>; D],
}

impl<const D: usize> Insert for Polygon<D, Face> {
    type Inserted = Polygon<D, Handle<Face>>;

    /// The face is inserted; the polygon holds its handle, and its edges and
    /// vertices as before
    open spec fn inserted(
        self,
        before: Objects,
        after: Objects,
        result: Polygon<D, Handle<Face>>,
    ) -> bool {
        &&& self.face.inserted(before, after, result.face)
        &&& result.edges == self.edges
        &&& result.vertices == self.vertices
    }

    fn insert(self, objects: &mut Objects) -> (result: Polygon<D, Handle<Face>>) {
        Polygon { face: self.face.insert(objects), edges: self.edges, vertices: self.vertices }
    }
}

/// A shell of four triangles, with the triangles at hand
///
/// `S` is `Shell` as long as the shell has not been inserted, and
/// `Handle<Shell>` once it has.
#[derive(Debug)]
pub struct TetrahedronShell<S> {
    /// The shell that forms the tetrahedron
    pub shell: S,
    /// The face formed by the points `a`, `b`, and `c`
    pub abc: Polygon<3, Handle<Face>>,
    /// The face formed by the points `b`, `a`, and `d`
    pub bad: Polygon<3, Handle<Face>>,
    /// The face formed by the points `d`, `a`, and `c`
    pub dac: Polygon<3, Handle<Face>>,
    /// The face formed by the points `c`, `b`, and `d`
    pub cbd: Polygon<3, Handle<Face>>,
}

impl Insert for TetrahedronShell<Shell> {
    type Inserted = TetrahedronShell<Handle<Shell>>;

    /// The shell is inserted; the tetrahedron holds its handle, and its four
    /// faces as before
    open spec fn inserted(
        self,
        before: Objects,
        after: Objects,
        result: TetrahedronShell<Handle<Shell>>,
    ) -> bool {
        &&& self.shell.inserted(before, after, result.shell)
        &&& result.abc == self.abc
        &&& result.bad == self.bad
        &&& result.dac == self.dac
        &&& result.cbd == self.cbd
    }

    fn insert(self, objects: &mut Objects) -> (result: TetrahedronShell<Handle<Shell>>) {
        TetrahedronShell {
            shell: self.shell.insert(objects),
            abc: self.abc,
            bad: self.bad,
            dac: self.dac,
            cbd: self.cbd,
        }
    }
}

} // verus!
