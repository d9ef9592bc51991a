use vstd::prelude::*;
use core::any::TypeId;

verus! {

#[verifier::external_type_specification]
#[verifier::external_body]
pub struct ExTypeId(core::any::TypeId);

/// `core::any::TypeId::of`: the identifier of the type `T`. Nothing is
/// claimed of its value.
#[verifier::external_body]
fn type_id_of<T: ?Sized + 'static>() -> (id: TypeId) {
    TypeId::of::<T>()
}

/// `PartialEq::eq` on type identifiers: whether they are the same.
#[verifier::external_body]
fn same_type_id(a: &TypeId, b: &TypeId) -> (r: bool)
    ensures
        r == (*a == *b),
{
    *a == *b
}

/// The entities a `hecs::World` holds, by the bits of their handles.
pub uninterp spec fn world_entities(w: hecs::World) -> Set<u64>;

/// `hecs::World::new`: a world that holds no entity, as its documentation
/// ("Create an empty world") says.
#[verifier::external_body]
fn hecs_world_new() -> (w: hecs::World)
    ensures
        world_entities(w) == Set::<u64>::empty(),
{
    hecs::World::new()
}

/// A component type the world knows how to clone: its identifier and the
/// hooks that copy its column of an archetype.
pub struct CloneEntry<H> {
    pub type_id: TypeId,
    pub hooks: H,
}

/// The component types a world can clone, each once.
pub struct CloneRegistry<H> {
    pub entries: Vec<CloneEntry<H>>,
}

/// The registry holds an entry for the type `id`.
pub open spec fn registered<H>(entries: Seq<CloneEntry<H>>, id: TypeId) -> bool {
    exists|i: int| 0 <= i < entries.len() && (#[trigger] entries[i]).type_id == id
}

/// No type is registered twice.
pub open spec fn registry_wf<H>(entries: Seq<CloneEntry<H>>) -> bool {
    forall|i: int, j: int|
        0 <= i < entries.len() && 0 <= j < entries.len() && (#[trigger] entries[i]).type_id
            == (#[trigger] entries[j]).type_id ==> i == j
}

impl<H> Default for CloneRegistry<H> {
    /// A registry that knows no type.
    fn default() -> (r: CloneRegistry<H>)
        ensures
            r.entries@.len() == 0,
    {
        CloneRegistry { entries: Vec::new() }
    }
}

impl<H> CloneRegistry<H> {
    /// Registers the type `type_id` with its hooks, unless it is registered
    /// already (then the registry stays as it is).
    pub fn register_type(self, type_id: TypeId, hooks: H) -> (r: CloneRegistry<H>)
        ensures
            registered(self.entries@, type_id) ==> r.entries@ == self.entries@,
            !registered(self.entries@, type_id) ==> {
                &&& r.entries@.len() == self.entries@.len() + 1
                &&& r.entries@.subrange(0, self.entries@.len() as int) == self.entries@
                &&& r.entries@.last().type_id == type_id
                &&& r.entries@.last().hooks == hooks
            },
            registry_wf(self.entries@) ==> registry_wf(r.entries@),
    {
        let ghost old_entries = self.entries@;
        let mut entries = self.entries;
        let mut i: usize = 0;
        let mut found: bool = false;
        while i < entries.len()
            invariant
                i <= entries@.len(),
                entries@ == old_entries,
                found == exists|j: int| 0 <= j < i && (#[trigger] old_entries[j]).type_id == type_id,
            decreases entries@.len() - i,
        {
            if same_type_id(&entries[i].type_id, &type_id) {
                found = true;
            }
            i = i + 1;
        }
        if !found {
            entries.push(CloneEntry { type_id, hooks });
            proof {
                assert(entries@.subrange(0, old_entries.len() as int) =~= old_entries);
                if registry_wf(old_entries) {
                    assert forall|a: int, b: int|
                        0 <= a < entries@.len() && 0 <= b < entries@.len() && (#[trigger] entries@[a]).type_id
                            == (#[trigger] entries@[b]).type_id implies a == b by {
                        if a < old_entries.len() && b < old_entries.len() {
                            assert(old_entries[a] == entries@[a]);
                            assert(old_entries[b] == entries@[b]);
                        } else if a < old_entries.len() {
                            assert(old_entries[a] == entries@[a]);
                        } else if b < old_entries.len() {
                            assert(old_entries[b] == entries@[b]);
                        }
                    }
                }
            }
        }
        CloneRegistry { entries }
    }

    /// Registers the type `T` with its hooks, unless it is registered
    /// already: the registry either stays as it is, or gains one entry, for a type it did
    /// not hold.
    pub fn register<T: ?Sized + 'static>(self, hooks: H) -> (r: CloneRegistry<H>)
        ensures
            r.entries@ == self.entries@ || {
                &&& r.entries@.len() == self.entries@.len() + 1
                &&& r.entries@.subrange(0, self.entries@.len() as int) == self.entries@
                &&& !registered(self.entries@, r.entries@.last().type_id)
                &&& r.entries@.last().hooks == hooks
            },
            registry_wf(self.entries@) ==> registry_wf(r.entries@),
    {
        let id = type_id_of::<T>();
        self.register_type(id, hooks)
    }
}

/// An entity world that can clone itself: the component types it holds
/// are registered with their hooks.
pub struct CloneableWorld<H> {
    inner: hecs::World,
    clone_registry: CloneRegistry<H>,
}

impl<H> CloneableWorld<H> {
    pub closed spec fn registry(&self) -> Seq<CloneEntry<H>> {
        self.clone_registry.entries@
    }

    /// The entities and their components that the world holds.
    pub closed spec fn entities(&self) -> hecs::World {
        self.inner
    }

    /// An empty world that clones the types of `clone_registry`.
    pub fn new(clone_registry: CloneRegistry<H>) -> (w: CloneableWorld<H>)
        ensures
            w.registry() == clone_registry.entries@,
            world_entities(w.entities()) == Set::<u64>::empty(),
    {
        CloneableWorld { inner: hecs_world_new(), clone_registry }
    }

    /// The entities and their components.
    pub fn inner(&self) -> (w: &hecs::World)
        ensures
            *w == self.entities(),
    {
        &self.inner
    }

    /// The entities and their components, to change.
    pub fn inner_mut(&mut self) -> (w: &mut hecs::World)
        ensures
            *w == old(self).entities(),
            final(self).entities() == *final(w),
            final(self).registry() == old(self).registry(),
    {
        &mut self.inner
    }

    /// The registered component types.
    pub fn clone_registry(&self) -> (r: &CloneRegistry<H>)
        ensures
            r.entries@ == self.registry(),
    {
        &self.clone_registry
    }
}

} // verus!
