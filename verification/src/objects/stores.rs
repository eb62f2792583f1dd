//! The stores of a model: one for each kind of object.

use super::kinds::{Curve, Cycle, Edge, Face, Region, Shell, Sketch, Solid, Surface, Vertex};
use crate::geometry::path::{GlobalPath, SurfaceGeometry};
use crate::math::{unit, Axis};
use crate::storage::{Handle, Store};
use vstd::prelude::*;

verus! {

/// The available object stores
#[derive(Debug)]
pub struct Objects {
    /// Store for [`Curve`]s
    pub curves: Store<Curve>,
    /// Store for [`Cycle`]s
    pub cycles: Store<Cycle>,
    /// Store for [`Edge`]s
    pub edges: Store<Edge>,
    /// Store for [`Face`]s
    pub faces: Store<Face>,
    /// Store for [`Region`]s
    pub regions: Store<Region>,
    /// Store for [`Shell`]s
    pub shells: Store<Shell>,
    /// Store for [`Sketch`]es
    pub sketches: Store<Sketch>,
    /// Store for [`Solid`]s
    pub solids: Store<Solid>,
    /// Store for [`Surface`]s
    pub surfaces: Surfaces,
    /// Store for [`Vertex`] objects
    pub vertices: Store<Vertex>,
}

/// The kinds of object, one for each store
#[derive(Clone, Copy, Debug, PartialEq, Eq, Structural, Hash)]
pub enum Kind {
    Curve,
    Cycle,
    Edge,
    Face,
    Region,
    Shell,
    Sketch,
    Solid,
    Surface,
    Vertex,
}

/// In `after` every store is what it is in `before`, but the stores of the
/// given kinds
pub open spec fn same_but(before: Objects, after: Objects, kinds: Set<Kind>) -> bool {
    &&& kinds.contains(Kind::Curve) || after.curves == before.curves
    &&& kinds.contains(Kind::Cycle) || after.cycles == before.cycles
    &&& kinds.contains(Kind::Edge) || after.edges == before.edges
    &&& kinds.contains(Kind::Face) || after.faces == before.faces
    &&& kinds.contains(Kind::Region) || after.regions == before.regions
    &&& kinds.contains(Kind::Shell) || after.shells == before.shells
    &&& kinds.contains(Kind::Sketch) || after.sketches == before.sketches
    &&& kinds.contains(Kind::Solid) || after.solids == before.solids
    &&& kinds.contains(Kind::Surface) || after.surfaces == before.surfaces
    &&& kinds.contains(Kind::Vertex) || after.vertices == before.vertices
}

/// `after` is `before` with one more slot, which holds `object` and which
/// `handle` refers to
pub open spec fn appended<T>(before: Store<T>, after: Store<T>, object: T, handle: Handle<T>) -> bool {
    &&& after.arena() == before.arena()
    &&& after@ == before@.push(Some(object))
    &&& handle@@ == (before.arena(), before@.len())
}

impl Objects {
    /// Construct a new instance of `Objects`
    ///
    /// Every store is empty but for the three planes of the surface store,
    /// and each has an arena number of its own: the ids of two objects of one
    /// `Objects` differ, of whatever kind they are.
    pub fn new() -> (objects: Self)
        ensures
            objects.curves@.len() == 0 && objects.curves.arena() == 0,
            objects.cycles@.len() == 0 && objects.cycles.arena() == 1,
            objects.edges@.len() == 0 && objects.edges.arena() == 2,
            objects.faces@.len() == 0 && objects.faces.arena() == 3,
            objects.regions@.len() == 0 && objects.regions.arena() == 4,
            objects.shells@.len() == 0 && objects.shells.arena() == 5,
            objects.sketches@.len() == 0 && objects.sketches.arena() == 6,
            objects.solids@.len() == 0 && objects.solids.arena() == 7,
            objects.surfaces.wf() && objects.surfaces.initial() && objects.surfaces.arena() == 8,
            objects.vertices@.len() == 0 && objects.vertices.arena() == 9,
    {
        Objects {
            curves: Store::with_arena(0),
            cycles: Store::with_arena(1),
            edges: Store::with_arena(2),
            faces: Store::with_arena(3),
            regions: Store::with_arena(4),
            shells: Store::with_arena(5),
            sketches: Store::with_arena(6),
            solids: Store::with_arena(7),
            surfaces: Surfaces::with_arena(8),
            vertices: Store::with_arena(9),
        }
    }
}

/// Store for [`Surface`]s
///
/// It holds the three planes that the axes of model space span from the
/// start, in its first three slots.
#[derive(Debug)]
pub struct Surfaces {
    store: Store<Surface>,
    xy_plane: Handle<Surface>,
    xz_plane: Handle<Surface>,
    yz_plane: Handle<Surface>,
}

impl View for Surfaces {
    type V = Seq<Option<Surface>>;

    /// The slots of the store
    closed spec fn view(&self) -> Seq<Option<Surface>> {
        self.store@
    }
}

impl Surfaces {
    /// The arena number of the store
    pub closed spec fn arena(&self) -> u64 {
        self.store.arena()
    }

    /// The handle of the xy-plane
    pub closed spec fn spec_xy_plane(&self) -> Handle<Surface> {
        self.xy_plane
    }

    /// The handle of the xz-plane
    pub closed spec fn spec_xz_plane(&self) -> Handle<Surface> {
        self.xz_plane
    }

    /// The handle of the yz-plane
    pub closed spec fn spec_yz_plane(&self) -> Handle<Surface> {
        self.yz_plane
    }

    /// Whether `handle` refers to a slot of this store
    pub open spec fn reserved(&self, handle: Handle<Surface>) -> bool {
        handle@@.0 == self.arena() && handle@@.1 < self@.len()
    }

    /// Whether `handle` refers to a slot of this store that holds a surface
    pub open spec fn filled(&self, handle: Handle<Surface>) -> bool {
        self.reserved(handle) && self@[handle@@.1 as int] is Some
    }

    /// The surface in the slot that `handle` refers to
    pub open spec fn object(&self, handle: Handle<Surface>) -> Surface {
        self@[handle@@.1 as int]->0
    }

    /// The handles of the three planes refer to the first three slots
    pub open spec fn wf(&self) -> bool {
        &&& self@.len() >= 3
        &&& self.spec_xy_plane()@@ == (self.arena(), 0nat)
        &&& self.spec_xz_plane()@@ == (self.arena(), 1nat)
        &&& self.spec_yz_plane()@@ == (self.arena(), 2nat)
    }

    /// The store holds the three planes and nothing else
    pub open spec fn initial(&self) -> bool {
        &&& self@.len() == 3
        &&& self@[0] is Some && self@[0]->0.spec_geometry() == SurfaceGeometry::plane(
            Axis::X,
            Axis::Y,
        )
        &&& self@[1] is Some && self@[1]->0.spec_geometry() == SurfaceGeometry::plane(
            Axis::X,
            Axis::Z,
        )
        &&& self@[2] is Some && self@[2]->0.spec_geometry() == SurfaceGeometry::plane(
            Axis::Y,
            Axis::Z,
        )
    }

    /// Construct the store of a model of its own, with the arena number 0
    pub fn new() -> (surfaces: Self)
        ensures
            surfaces.wf(),
            surfaces.initial(),
            surfaces.arena() == 0,
    {
        Surfaces::with_arena(0)
    }

    /// Construct the store with the given arena number: it reserves and fills
    /// a slot for each of the three planes
    pub fn with_arena(arena: u64) -> (surfaces: Self)
        ensures
            surfaces.wf(),
            surfaces.initial(),
            surfaces.arena() == arena,
    {
        let mut store: Store<Surface> = Store::with_arena(arena);

        let xy_plane = store.reserve();
        store.insert(
            xy_plane,
            Surface::new(SurfaceGeometry { u: GlobalPath::x_axis(), v: unit(Axis::Y) }),
        );

        let xz_plane = store.reserve();
        store.insert(
            xz_plane,
            Surface::new(SurfaceGeometry { u: GlobalPath::x_axis(), v: unit(Axis::Z) }),
        );
        let yz_plane = store.reserve();
        store.insert(
            yz_plane,
            Surface::new(SurfaceGeometry { u: GlobalPath::y_axis(), v: unit(Axis::Z) }),
        );

        Surfaces { store, xy_plane, xz_plane, yz_plane }
    }

    /// Reserve a slot for an object in the store
    pub fn reserve(&mut self) -> (handle: Handle<Surface>)
        ensures
            old(self).wf() ==> final(self).wf(),
            final(self).arena() == old(self).arena(),
            final(self)@ == old(self)@.push(None),
            handle@@ == (old(self).arena(), old(self)@.len()),
            final(self).spec_xy_plane() == old(self).spec_xy_plane(),
            final(self).spec_xz_plane() == old(self).spec_xz_plane(),
            final(self).spec_yz_plane() == old(self).spec_yz_plane(),
    {
        self.store.reserve()
    }

    /// Insert an object into the store, in the slot that was reserved for it
    pub fn insert(&mut self, handle: Handle<Surface>, surface: Surface)
        requires
            old(self).reserved(handle),
        ensures
            old(self).wf() ==> final(self).wf(),
            final(self).arena() == old(self).arena(),
            final(self)@ == old(self)@.update(handle@@.1 as int, Some(surface)),
            final(self).spec_xy_plane() == old(self).spec_xy_plane(),
            final(self).spec_xz_plane() == old(self).spec_xz_plane(),
            final(self).spec_yz_plane() == old(self).spec_yz_plane(),
    {
        self.store.insert(handle, surface);
    }

    /// The surface that `handle` refers to, which must have been inserted
    pub fn get(&self, handle: &Handle<Surface>) -> (surface: &Surface)
        requires
            self.filled(*handle),
        ensures
            *surface == self.object(*handle),
    {
        self.store.get(handle)
    }

    /// Access the xy-plane
    pub fn xy_plane(&self) -> (handle: Handle<Surface>)
        ensures
            handle == self.spec_xy_plane(),
            self.wf() ==> handle@@ == (self.arena(), 0nat) && self.reserved(handle),
    {
        self.xy_plane
    }

    /// Access the xz-plane
    pub fn xz_plane(&self) -> (handle: Handle<Surface>)
        ensures
            handle == self.spec_xz_plane(),
            self.wf() ==> handle@@ == (self.arena(), 1nat) && self.reserved(handle),
    {
        self.xz_plane
    }

    /// Access the yz-plane
    pub fn yz_plane(&self) -> (handle: Handle<Surface>)
        ensures
            handle == self.spec_yz_plane(),
            self.wf() ==> handle@@ == (self.arena(), 2nat) && self.reserved(handle),
    {
        self.yz_plane
    }
}

impl Default for Surfaces {
    fn default() -> (surfaces: Self)
        ensures
            surfaces.wf(),
            surfaces.initial(),
            surfaces.arena() == 0,
    {
        Surfaces::new()
    }
}

impl Default for Objects {
    fn default() -> (objects: Self)
        ensures
            objects.surfaces.wf() && objects.surfaces.initial(),
    {
        Objects::new()
    }
}

} // verus!
