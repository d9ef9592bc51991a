use vstd::prelude::*;
use std::collections::HashMap;

verus! {

broadcast use vstd::std_specs::hash::group_hash_axioms;

/// What the physics pipeline still has to look at on a rigid body.
#[derive(Debug, Clone, Copy, PartialEq, Eq, Structural)]
pub struct RigidBodyChanges {
    pub modified: bool,
    pub position: bool,
    pub sleep: bool,
    pub colliders: bool,
    pub body_type: bool,
}

/// What the physics pipeline still has to look at on a collider.
#[derive(Debug, Clone, Copy, PartialEq, Eq, Structural)]
pub struct ColliderChanges {
    pub modified: bool,
    pub parent: bool,
    pub position: bool,
    pub groups: bool,
    pub shape: bool,
    pub collider_type: bool,
}

impl RigidBodyChanges {
    pub open spec fn spec_none() -> RigidBodyChanges {
        RigidBodyChanges {
            modified: false,
            position: false,
            sleep: false,
            colliders: false,
            body_type: false,
        }
    }

    /// No change pending.
    pub fn none() -> (c: RigidBodyChanges)
        ensures
            c == Self::spec_none(),
    {
        RigidBodyChanges {
            modified: false,
            position: false,
            sleep: false,
            colliders: false,
            body_type: false,
        }
    }
}

impl ColliderChanges {
    pub open spec fn spec_none() -> ColliderChanges {
        ColliderChanges {
            modified: false,
            parent: false,
            position: false,
            groups: false,
            shape: false,
            collider_type: false,
        }
    }

    /// No change pending.
    pub fn none() -> (c: ColliderChanges)
        ensures
            c == Self::spec_none(),
    {
        ColliderChanges {
            modified: false,
            parent: false,
            position: false,
            groups: false,
            shape: false,
            collider_type: false,
        }
    }
}

/// The bookkeeping between the entity world and the physics pipeline:
/// which bodies and colliders changed or went away since the last step, and
/// which colliders hang on which body. Handles are the bits of the entity
/// that holds the body or collider.
pub struct ModificationTracker {
    pub modified_bodies: Vec<u64>,
    pub modified_colliders: Vec<u64>,
    pub removed_bodies: Vec<u64>,
    pub removed_colliders: Vec<u64>,
    pub removed_joints: Vec<u64>,
    pub body_colliders: HashMap<u64, Vec<u64>>,
    pub colliders_parent: HashMap<u64, u64>,
}

pub struct TrackerView {
    pub modified_bodies: Seq<u64>,
    pub modified_colliders: Seq<u64>,
    pub removed_bodies: Seq<u64>,
    pub removed_colliders: Seq<u64>,
    pub removed_joints: Seq<u64>,
    pub body_colliders: Map<u64, Seq<u64>>,
    pub colliders_parent: Map<u64, u64>,
}

impl View for ModificationTracker {
    type V = TrackerView;

    open spec fn view(&self) -> TrackerView {
        TrackerView {
            modified_bodies: self.modified_bodies@,
            modified_colliders: self.modified_colliders@,
            removed_bodies: self.removed_bodies@,
            removed_colliders: self.removed_colliders@,
            removed_joints: self.removed_joints@,
            body_colliders: self.body_colliders@.map_values(|v: Vec<u64>| v@),
            colliders_parent: self.colliders_parent@,
        }
    }
}

impl Default for ModificationTracker {
    fn default() -> (t: ModificationTracker)
        ensures
            t@.modified_bodies == Seq::<u64>::empty(),
            t@.modified_colliders == Seq::<u64>::empty(),
            t@.removed_bodies == Seq::<u64>::empty(),
            t@.removed_colliders == Seq::<u64>::empty(),
            t@.removed_joints == Seq::<u64>::empty(),
            t@.body_colliders == Map::<u64, Seq<u64>>::empty(),
            t@.colliders_parent == Map::<u64, u64>::empty(),
    {
        let t = ModificationTracker {
            modified_bodies: Vec::new(),
            modified_colliders: Vec::new(),
            removed_bodies: Vec::new(),
            removed_colliders: Vec::new(),
            removed_joints: Vec::new(),
            body_colliders: HashMap::new(),
            colliders_parent: HashMap::new(),
        };
        assert(t@.body_colliders =~= Map::<u64, Seq<u64>>::empty());
        t
    }
}

impl ModificationTracker {
    /// Forgets the bodies and colliders that were modified or removed; the
    /// attachment maps stay.
    pub fn clear_modified_and_removed(&mut self)
        ensures
            final(self)@.modified_bodies == Seq::<u64>::empty(),
            final(self)@.modified_colliders == Seq::<u64>::empty(),
            final(self)@.removed_bodies == Seq::<u64>::empty(),
            final(self)@.removed_colliders == Seq::<u64>::empty(),
            final(self)@.removed_joints == Seq::<u64>::empty(),
            final(self)@.body_colliders == old(self)@.body_colliders,
            final(self)@.colliders_parent == old(self)@.colliders_parent,
    {
        self.modified_colliders.clear();
        self.modified_bodies.clear();
        self.removed_bodies.clear();
        self.removed_colliders.clear();
        self.removed_joints.clear();
    }
}

/// Which components of a rigid body's entity changed since the trackers
/// were last cleared.
#[derive(Debug, Clone, Copy, PartialEq, Eq, Structural)]
pub struct BodyComponentChanges {
    pub activation: bool,
    pub position: bool,
    pub velocity: bool,
    pub forces: bool,
    pub body_type: bool,
    pub colliders: bool,
}

/// Which components of a collider's entity changed since the trackers were
/// last cleared; `parent` is `None` where the entity has no parent component.
#[derive(Debug, Clone, Copy, PartialEq, Eq, Structural)]
pub struct ColliderComponentChanges {
    pub position: bool,
    pub flags: bool,
    pub shape: bool,
    pub collider_type: bool,
    pub parent: Option<bool>,
}

/// A rigid body as change detection sees it.
#[derive(Debug, Clone, Copy, PartialEq, Eq, Structural)]
pub struct BodyRecord {
    pub handle: u64,
    pub changes: RigidBodyChanges,
    pub sleeping: bool,
    pub changed: BodyComponentChanges,
}

/// A collider as change detection sees it.
#[derive(Debug, Clone, Copy, PartialEq, Eq, Structural)]
pub struct ColliderRecord {
    pub handle: u64,
    pub changes: ColliderChanges,
    pub changed: ColliderComponentChanges,
}

pub open spec fn no_body_component_changed() -> BodyComponentChanges {
    BodyComponentChanges {
        activation: false,
        position: false,
        velocity: false,
        forces: false,
        body_type: false,
        colliders: false,
    }
}

pub open spec fn no_collider_component_changed(c: ColliderComponentChanges) -> ColliderComponentChanges {
    ColliderComponentChanges {
        position: false,
        flags: false,
        shape: false,
        collider_type: false,
        parent: match c.parent {
            Some(_) => Some(false),
            None => None,
        },
    }
}

pub open spec fn body_touched(c: BodyComponentChanges) -> bool {
    c.activation || c.position || c.velocity || c.forces || c.body_type || c.colliders
}

pub open spec fn collider_touched(c: ColliderComponentChanges) -> bool {
    c.position || c.flags || c.shape || c.collider_type || c.parent == Some(true)
}

/// A body after change detection: a touched body is flagged modified (and
/// by what), woken up; the change trackers are cleared either way.
pub open spec fn detect_body(r: BodyRecord) -> BodyRecord {
    if body_touched(r.changed) {
        BodyRecord {
            handle: r.handle,
            changes: RigidBodyChanges {
                modified: true,
                position: r.changes.position || r.changed.position,
                sleep: true,
                colliders: r.changes.colliders || r.changed.colliders,
                body_type: r.changes.body_type || r.changed.body_type,
            },
            sleeping: false,
            changed: no_body_component_changed(),
        }
    } else {
        BodyRecord { changed: no_body_component_changed(), ..r }
    }
}

/// A collider after change detection.
pub open spec fn detect_collider(r: ColliderRecord) -> ColliderRecord {
    if collider_touched(r.changed) {
        ColliderRecord {
            handle: r.handle,
            changes: ColliderChanges {
                modified: true,
                parent: r.changes.parent || r.changed.parent == Some(true),
                position: r.changes.position || r.changed.position,
                groups: r.changes.groups || r.changed.flags,
                shape: r.changes.shape || r.changed.shape,
                collider_type: r.changes.collider_type || r.changed.collider_type,
            },
            changed: no_collider_component_changed(r.changed),
        }
    } else {
        ColliderRecord { changed: no_collider_component_changed(r.changed), ..r }
    }
}

/// Handles of the bodies that change detection newly lists as modified:
/// touched, and not flagged modified before.
pub open spec fn newly_modified_bodies(s: Seq<BodyRecord>) -> Seq<u64>
    decreases s.len(),
{
    if s.len() == 0 {
        Seq::empty()
    } else {
        let r = s.last();
        let rest = newly_modified_bodies(s.drop_last());
        if body_touched(r.changed) && !r.changes.modified {
            rest.push(r.handle)
        } else {
            rest
        }
    }
}

pub open spec fn newly_modified_colliders(s: Seq<ColliderRecord>) -> Seq<u64>
    decreases s.len(),
{
    if s.len() == 0 {
        Seq::empty()
    } else {
        let r = s.last();
        let rest = newly_modified_colliders(s.drop_last());
        if collider_touched(r.changed) && !r.changes.modified {
            rest.push(r.handle)
        } else {
            rest
        }
    }
}

impl ModificationTracker {
    /// Flags every body and collider whose components changed, lists the
    /// ones not yet flagged, wakes the bodies up and clears the change
    /// trackers.
    pub fn detect_modifications(&mut self, bodies: &mut Vec<BodyRecord>, colliders: &mut Vec<ColliderRecord>)
        ensures
            final(self)@.modified_bodies == old(self)@.modified_bodies + newly_modified_bodies(old(bodies)@),
            final(self)@.modified_colliders == old(self)@.modified_colliders + newly_modified_colliders(old(colliders)@),
            final(self)@.removed_bodies == old(self)@.removed_bodies,
            final(self)@.removed_colliders == old(self)@.removed_colliders,
            final(self)@.removed_joints == old(self)@.removed_joints,
            final(self)@.body_colliders == old(self)@.body_colliders,
            final(self)@.colliders_parent == old(self)@.colliders_parent,
            final(bodies)@ == old(bodies)@.map_values(|r: BodyRecord| detect_body(r)),
            final(colliders)@ == old(colliders)@.map_values(|r: ColliderRecord| detect_collider(r)),
    {
        let n: usize = bodies.len();
        let mut i: usize = 0;
        while i < n
            invariant
                n == bodies.len(),
                n == old(bodies).len(),
                i <= n,
                self@.modified_bodies == old(self)@.modified_bodies + newly_modified_bodies(old(bodies)@.subrange(0, i as int)),
                self.modified_colliders == old(self).modified_colliders,
                self.removed_bodies == old(self).removed_bodies,
                self.removed_colliders == old(self).removed_colliders,
                self.removed_joints == old(self).removed_joints,
                self.body_colliders == old(self).body_colliders,
                self.colliders_parent == old(self).colliders_parent,
                forall|j: int| 0 <= j < i ==> bodies@[j] == detect_body(old(bodies)@[j]),
                forall|j: int| i <= j < n ==> bodies@[j] == old(bodies)@[j],
            decreases n - i,
        {
            let r: BodyRecord = bodies[i];
            let c = r.changed;
            let mut nr: BodyRecord = r;
            if c.activation || c.position || c.velocity || c.forces || c.body_type || c.colliders {
                if !r.changes.modified {
                    self.modified_bodies.push(r.handle);
                }
                nr.changes.modified = true;
                if c.position {
                    nr.changes.position = true;
                }
                if c.body_type {
                    nr.changes.body_type = true;
                }
                if c.colliders {
                    nr.changes.colliders = true;
                }
                nr.changes.sleep = true;
                nr.sleeping = false;
            }
            nr.changed = BodyComponentChanges {
                activation: false,
                position: false,
                velocity: false,
                forces: false,
                body_type: false,
                colliders: false,
            };
            bodies.set(i, nr);
            proof {
                let s = old(bodies)@.subrange(0, i as int + 1);
                assert(s.drop_last() =~= old(bodies)@.subrange(0, i as int));
                assert(s.last() == r);
            }
            i = i + 1;
        }
        proof {
            assert(old(bodies)@.subrange(0, n as int) =~= old(bodies)@);
            assert(bodies@ =~= old(bodies)@.map_values(|r: BodyRecord| detect_body(r)));
        }

        let m: usize = colliders.len();
        let mut k: usize = 0;
        while k < m
            invariant
                m == colliders.len(),
                m == old(colliders).len(),
                k <= m,
                self@.modified_colliders == old(self)@.modified_colliders + newly_modified_colliders(old(colliders)@.subrange(0, k as int)),
                self@.modified_bodies == old(self)@.modified_bodies + newly_modified_bodies(old(bodies)@),
                self.removed_bodies == old(self).removed_bodies,
                self.removed_colliders == old(self).removed_colliders,
                self.removed_joints == old(self).removed_joints,
                self.body_colliders == old(self).body_colliders,
                self.colliders_parent == old(self).colliders_parent,
                forall|j: int| 0 <= j < k ==> colliders@[j] == detect_collider(old(colliders)@[j]),
                forall|j: int| k <= j < m ==> colliders@[j] == old(colliders)@[j],
            decreases m - k,
        {
            let r: ColliderRecord = colliders[k];
            let c = r.changed;
            let parent_changed: bool = match c.parent {
                Some(b) => b,
                None => false,
            };
            let mut nr: ColliderRecord = r;
            if c.position || c.flags || c.shape || c.collider_type || parent_changed {
                if !r.changes.modified {
                    self.modified_colliders.push(r.handle);
                }
                nr.changes.modified = true;
                if c.position {
                    nr.changes.position = true;
                }
                if c.flags {
                    nr.changes.groups = true;
                }
                if c.shape {
                    nr.changes.shape = true;
                }
                if c.collider_type {
                    nr.changes.collider_type = true;
                }
                if parent_changed {
                    nr.changes.parent = true;
                }
            }
            nr.changed = ColliderComponentChanges {
                position: false,
                flags: false,
                shape: false,
                collider_type: false,
                parent: match c.parent {
                    Some(_) => Some(false),
                    None => None,
                },
            };
            colliders.set(k, nr);
            proof {
                let s = old(colliders)@.subrange(0, k as int + 1);
                assert(s.drop_last() =~= old(colliders)@.subrange(0, k as int));
                assert(s.last() == r);
            }
            k = k + 1;
        }
        proof {
            assert(old(colliders)@.subrange(0, m as int) =~= old(colliders)@);
            assert(colliders@ =~= old(colliders)@.map_values(|r: ColliderRecord| detect_collider(r)));
        }
    }
}

/// No two bodies share a handle.
pub open spec fn body_handles_unique(bodies: Seq<BodyRecord>) -> bool {
    forall|i: int, j: int|
        0 <= i < bodies.len() && 0 <= j < bodies.len() && bodies[i].handle == bodies[j].handle ==> i == j
}

/// No two colliders share a handle.
pub open spec fn collider_handles_unique(colliders: Seq<ColliderRecord>) -> bool {
    forall|i: int, j: int|
        0 <= i < colliders.len() && 0 <= j < colliders.len() && colliders[i].handle == colliders[j].handle
            ==> i == j
}

pub open spec fn has_flagged_body(bodies: Seq<BodyRecord>, h: u64) -> bool {
    exists|j: int| 0 <= j < bodies.len() && bodies[j].handle == h && bodies[j].changes.modified
}

pub open spec fn has_flagged_collider(colliders: Seq<ColliderRecord>, h: u64) -> bool {
    exists|j: int| 0 <= j < colliders.len() && colliders[j].handle == h && colliders[j].changes.modified
}

/// The list names each body flagged modified once, and nothing else.
pub open spec fn bodies_listed_exactly(list: Seq<u64>, bodies: Seq<BodyRecord>) -> bool {
    &&& list.no_duplicates()
    &&& forall|h: u64| list.contains(h) <==> has_flagged_body(bodies, h)
}

/// The list names each collider flagged modified once, and nothing else.
pub open spec fn colliders_listed_exactly(list: Seq<u64>, colliders: Seq<ColliderRecord>) -> bool {
    &&& list.no_duplicates()
    &&& forall|h: u64| list.contains(h) <==> has_flagged_collider(colliders, h)
}

proof fn lemma_newly_modified_bodies(s: Seq<BodyRecord>)
    ensures
        forall|h: u64|
            newly_modified_bodies(s).contains(h) <==> exists|j: int|
                0 <= j < s.len() && s[j].handle == h && body_touched(s[j].changed) && !s[j].changes.modified,
        body_handles_unique(s) ==> newly_modified_bodies(s).no_duplicates(),
    decreases s.len(),
{
    if s.len() > 0 {
        let p = s.drop_last();
        lemma_newly_modified_bodies(p);
        let r = s.last();
        assert forall|h: u64|
            newly_modified_bodies(s).contains(h) <==> exists|j: int|
                0 <= j < s.len() && s[j].handle == h && body_touched(s[j].changed) && !s[j].changes.modified by {
            if newly_modified_bodies(s).contains(h) {
                if body_touched(r.changed) && !r.changes.modified {
                    assert(newly_modified_bodies(s) == newly_modified_bodies(p).push(r.handle));
                    let k = choose|k: int| 0 <= k < newly_modified_bodies(s).len() && newly_modified_bodies(s)[k] == h;
                    if k < newly_modified_bodies(p).len() {
                        assert(newly_modified_bodies(p)[k] == h);
                    }
                } else {
                    assert(newly_modified_bodies(s) == newly_modified_bodies(p));
                }
                if newly_modified_bodies(p).contains(h) {
                    let j = choose|j: int|
                        0 <= j < p.len() && p[j].handle == h && body_touched(p[j].changed) && !p[j].changes.modified;
                    assert(s[j] == p[j]);
                } else {
                    assert(s[s.len() - 1] == r);
                }
            }
            if exists|j: int|
                0 <= j < s.len() && s[j].handle == h && body_touched(s[j].changed) && !s[j].changes.modified {
                let j = choose|j: int|
                    0 <= j < s.len() && s[j].handle == h && body_touched(s[j].changed) && !s[j].changes.modified;
                if j < p.len() {
                    assert(p[j] == s[j]);
                    assert(newly_modified_bodies(p).contains(h));
                    let k = choose|k: int| 0 <= k < newly_modified_bodies(p).len() && newly_modified_bodies(p)[k] == h;
                    if body_touched(r.changed) && !r.changes.modified {
                        assert(newly_modified_bodies(s) == newly_modified_bodies(p).push(r.handle));
                        assert(newly_modified_bodies(s)[k] == h);
                    } else {
                        assert(newly_modified_bodies(s) == newly_modified_bodies(p));
                    }
                } else {
                    assert(s[j] == r);
                    assert(newly_modified_bodies(s) == newly_modified_bodies(p).push(r.handle));
                    assert(newly_modified_bodies(s)[newly_modified_bodies(p).len() as int] == h);
                }
            }
        }
        if body_handles_unique(s) {
            assert(body_handles_unique(p)) by {
                assert forall|i: int, j: int|
                    0 <= i < p.len() && 0 <= j < p.len() && p[i].handle == p[j].handle implies i == j by {
                    assert(s[i] == p[i] && s[j] == p[j]);
                }
            }
            if body_touched(r.changed) && !r.changes.modified {
                if newly_modified_bodies(p).contains(r.handle) {
                    let j = choose|j: int|
                        0 <= j < p.len() && p[j].handle == r.handle && body_touched(p[j].changed)
                            && !p[j].changes.modified;
                    assert(s[j] == p[j]);
                    assert(s[s.len() - 1] == r);
                }
            }
        }
    }
}

proof fn lemma_newly_modified_colliders(s: Seq<ColliderRecord>)
    ensures
        forall|h: u64|
            newly_modified_colliders(s).contains(h) <==> exists|j: int|
                0 <= j < s.len() && s[j].handle == h && collider_touched(s[j].changed) && !s[j].changes.modified,
        collider_handles_unique(s) ==> newly_modified_colliders(s).no_duplicates(),
    decreases s.len(),
{
    if s.len() > 0 {
        let p = s.drop_last();
        lemma_newly_modified_colliders(p);
        let r = s.last();
        assert forall|h: u64|
            newly_modified_colliders(s).contains(h) <==> exists|j: int|
                0 <= j < s.len() && s[j].handle == h && collider_touched(s[j].changed) && !s[j].changes.modified by {
            if newly_modified_colliders(s).contains(h) {
                if collider_touched(r.changed) && !r.changes.modified {
                    assert(newly_modified_colliders(s) == newly_modified_colliders(p).push(r.handle));
                    let k = choose|k: int| 0 <= k < newly_modified_colliders(s).len() && newly_modified_colliders(s)[k] == h;
                    if k < newly_modified_colliders(p).len() {
                        assert(newly_modified_colliders(p)[k] == h);
                    }
                } else {
                    assert(newly_modified_colliders(s) == newly_modified_colliders(p));
                }
                if newly_modified_colliders(p).contains(h) {
                    let j = choose|j: int|
                        0 <= j < p.len() && p[j].handle == h && collider_touched(p[j].changed)
                            && !p[j].changes.modified;
                    assert(s[j] == p[j]);
                } else {
                    assert(s[s.len() - 1] == r);
                }
            }
            if exists|j: int|
                0 <= j < s.len() && s[j].handle == h && collider_touched(s[j].changed) && !s[j].changes.modified {
                let j = choose|j: int|
                    0 <= j < s.len() && s[j].handle == h && collider_touched(s[j].changed) && !s[j].changes.modified;
                if j < p.len() {
                    assert(p[j] == s[j]);
                    assert(newly_modified_colliders(p).contains(h));
                    let k = choose|k: int| 0 <= k < newly_modified_colliders(p).len() && newly_modified_colliders(p)[k] == h;
                    if collider_touched(r.changed) && !r.changes.modified {
                        assert(newly_modified_colliders(s) == newly_modified_colliders(p).push(r.handle));
                        assert(newly_modified_colliders(s)[k] == h);
                    } else {
                        assert(newly_modified_colliders(s) == newly_modified_colliders(p));
                    }
                } else {
                    assert(s[j] == r);
                    assert(newly_modified_colliders(s) == newly_modified_colliders(p).push(r.handle));
                    assert(newly_modified_colliders(s)[newly_modified_colliders(p).len() as int] == h);
                }
            }
        }
        if collider_handles_unique(s) {
            assert(collider_handles_unique(p)) by {
                assert forall|i: int, j: int|
                    0 <= i < p.len() && 0 <= j < p.len() && p[i].handle == p[j].handle implies i == j by {
                    assert(s[i] == p[i] && s[j] == p[j]);
                }
            }
            if collider_touched(r.changed) && !r.changes.modified {
                if newly_modified_colliders(p).contains(r.handle) {
                    let j = choose|j: int|
                        0 <= j < p.len() && p[j].handle == r.handle && collider_touched(p[j].changed)
                            && !p[j].changes.modified;
                    assert(s[j] == p[j]);
                    assert(s[s.len() - 1] == r);
                }
            }
        }
    }
}

/// Change detection keeps the lists of modified bodies and colliders exact:
/// where each flagged body (collider) was listed once and nothing else was,
/// the same holds after `detect_modifications`, whatever changed.
pub proof fn lemma_detect_keeps_lists_exact(
    body_list: Seq<u64>,
    bodies: Seq<BodyRecord>,
    collider_list: Seq<u64>,
    colliders: Seq<ColliderRecord>,
)
    requires
        body_handles_unique(bodies),
        collider_handles_unique(colliders),
        bodies_listed_exactly(body_list, bodies),
        colliders_listed_exactly(collider_list, colliders),
    ensures
        bodies_listed_exactly(
            body_list + newly_modified_bodies(bodies),
            bodies.map_values(|r: BodyRecord| detect_body(r)),
        ),
        colliders_listed_exactly(
            collider_list + newly_modified_colliders(colliders),
            colliders.map_values(|r: ColliderRecord| detect_collider(r)),
        ),
{
    lemma_newly_modified_bodies(bodies);
    lemma_newly_modified_colliders(colliders);
    let nb = newly_modified_bodies(bodies);
    let db = bodies.map_values(|r: BodyRecord| detect_body(r));
    let all_b = body_list + nb;
    assert forall|i: int, j: int| 0 <= i < all_b.len() && 0 <= j < all_b.len() && i != j implies all_b[i] != all_b[j] by {
        if i < body_list.len() && j >= body_list.len() {
            assert(nb.contains(all_b[j]));
            assert(body_list.contains(all_b[i]));
        }
        if j < body_list.len() && i >= body_list.len() {
            assert(nb.contains(all_b[i]));
            assert(body_list.contains(all_b[j]));
        }
        if i >= body_list.len() && j >= body_list.len() {
            assert(nb[i - body_list.len()] == all_b[i]);
            assert(nb[j - body_list.len()] == all_b[j]);
        }
    }
    assert forall|h: u64| all_b.contains(h) <==> has_flagged_body(db, h) by {
        if all_b.contains(h) {
            let k = choose|k: int| 0 <= k < all_b.len() && all_b[k] == h;
            if k < body_list.len() {
                assert(body_list.contains(h));
                let j = choose|j: int|
                    0 <= j < bodies.len() && bodies[j].handle == h && bodies[j].changes.modified;
                assert(db[j] == detect_body(bodies[j]));
            } else {
                assert(nb[k - body_list.len()] == h);
                assert(nb.contains(h));
                let j = choose|j: int|
                    0 <= j < bodies.len() && bodies[j].handle == h && body_touched(bodies[j].changed)
                        && !bodies[j].changes.modified;
                assert(db[j] == detect_body(bodies[j]));
            }
        }
        if has_flagged_body(db, h) {
            let j = choose|j: int| 0 <= j < db.len() && db[j].handle == h && db[j].changes.modified;
            assert(db[j] == detect_body(bodies[j]));
            if bodies[j].changes.modified {
                assert(body_list.contains(h));
                let k = choose|k: int| 0 <= k < body_list.len() && body_list[k] == h;
                assert(all_b[k] == h);
            } else {
                assert(nb.contains(h));
                let k = choose|k: int| 0 <= k < nb.len() && nb[k] == h;
                assert(all_b[k + body_list.len()] == h);
            }
        }
    }
    let nc = newly_modified_colliders(colliders);
    let dc = colliders.map_values(|r: ColliderRecord| detect_collider(r));
    let all_c = collider_list + nc;
    assert forall|i: int, j: int| 0 <= i < all_c.len() && 0 <= j < all_c.len() && i != j implies all_c[i] != all_c[j] by {
        if i < collider_list.len() && j >= collider_list.len() {
            assert(nc.contains(all_c[j]));
            assert(collider_list.contains(all_c[i]));
        }
        if j < collider_list.len() && i >= collider_list.len() {
            assert(nc.contains(all_c[i]));
            assert(collider_list.contains(all_c[j]));
        }
        if i >= collider_list.len() && j >= collider_list.len() {
            assert(nc[i - collider_list.len()] == all_c[i]);
            assert(nc[j - collider_list.len()] == all_c[j]);
        }
    }
    assert forall|h: u64| all_c.contains(h) <==> has_flagged_collider(dc, h) by {
        if all_c.contains(h) {
            let k = choose|k: int| 0 <= k < all_c.len() && all_c[k] == h;
            if k < collider_list.len() {
                assert(collider_list.contains(h));
                let j = choose|j: int|
                    0 <= j < colliders.len() && colliders[j].handle == h && colliders[j].changes.modified;
                assert(dc[j] == detect_collider(colliders[j]));
            } else {
                assert(nc[k - collider_list.len()] == h);
                assert(nc.contains(h));
                let j = choose|j: int|
                    0 <= j < colliders.len() && colliders[j].handle == h && collider_touched(colliders[j].changed)
                        && !colliders[j].changes.modified;
                assert(dc[j] == detect_collider(colliders[j]));
            }
        }
        if has_flagged_collider(dc, h) {
            let j = choose|j: int| 0 <= j < dc.len() && dc[j].handle == h && dc[j].changes.modified;
            assert(dc[j] == detect_collider(colliders[j]));
            if colliders[j].changes.modified {
                assert(collider_list.contains(h));
                let k = choose|k: int| 0 <= k < collider_list.len() && collider_list[k] == h;
                assert(all_c[k] == h);
            } else {
                assert(nc.contains(h));
                let k = choose|k: int| 0 <= k < nc.len() && nc[k] == h;
                assert(all_c[k + collider_list.len()] == h);
            }
        }
    }
}

/// Change detection clears no pending change: every flag of a body or
/// collider that was set stays set.
pub proof fn lemma_detect_flags_only_grow(b: BodyRecord, c: ColliderRecord)
    ensures
        b.changes.modified ==> detect_body(b).changes.modified,
        b.changes.position ==> detect_body(b).changes.position,
        b.changes.sleep ==> detect_body(b).changes.sleep,
        b.changes.colliders ==> detect_body(b).changes.colliders,
        b.changes.body_type ==> detect_body(b).changes.body_type,
        c.changes.modified ==> detect_collider(c).changes.modified,
        c.changes.parent ==> detect_collider(c).changes.parent,
        c.changes.position ==> detect_collider(c).changes.position,
        c.changes.groups ==> detect_collider(c).changes.groups,
        c.changes.shape ==> detect_collider(c).changes.shape,
        c.changes.collider_type ==> detect_collider(c).changes.collider_type,
{
}

/// Change detection right after change detection changes nothing and lists
/// nothing new.
pub proof fn lemma_detect_twice(bodies: Seq<BodyRecord>, colliders: Seq<ColliderRecord>)
    ensures
        ({
            let b1 = bodies.map_values(|r: BodyRecord| detect_body(r));
            &&& b1.map_values(|r: BodyRecord| detect_body(r)) == b1
            &&& newly_modified_bodies(b1) == Seq::<u64>::empty()
        }),
        ({
            let c1 = colliders.map_values(|r: ColliderRecord| detect_collider(r));
            &&& c1.map_values(|r: ColliderRecord| detect_collider(r)) == c1
            &&& newly_modified_colliders(c1) == Seq::<u64>::empty()
        }),
{
    let b1 = bodies.map_values(|r: BodyRecord| detect_body(r));
    let c1 = colliders.map_values(|r: ColliderRecord| detect_collider(r));
    assert(b1.map_values(|r: BodyRecord| detect_body(r)) =~= b1);
    assert(c1.map_values(|r: ColliderRecord| detect_collider(r)) =~= c1);
    lemma_newly_modified_bodies(b1);
    lemma_newly_modified_colliders(c1);
    let nb = newly_modified_bodies(b1);
    if nb.len() > 0 {
        assert(nb.contains(nb[0]));
    }
    let nc = newly_modified_colliders(c1);
    if nc.len() > 0 {
        assert(nc.contains(nc[0]));
    }
}

/// An entity as the attach system sees it: its handle, whether it holds a
/// rigid body, the position in the same list of the entity its parent
/// component names (a position past the end names an entity that is gone),
/// and whether it holds a collider not yet attached to a body.
#[derive(Debug, Clone, Copy, PartialEq, Eq, Structural)]
pub struct EntityNode {
    pub id: u64,
    pub has_body: bool,
    pub parent: Option<usize>,
    pub unattached_collider: bool,
}

/// Walking up from entity `i` with at most `fuel` steps: `None` where the
/// fuel ran out, `Some(Some(j))` where `j` is the first entity with a body
/// (possibly `i` itself), `Some(None)` where the chain ends without one.
pub open spec fn walk(nodes: Seq<EntityNode>, i: int, fuel: nat) -> Option<Option<int>>
    decreases fuel,
{
    if !(0 <= i < nodes.len()) {
        Some(None)
    } else if nodes[i].has_body {
        Some(Some(i))
    } else {
        match nodes[i].parent {
            None => Some(None),
            Some(p) => if fuel == 0 {
                None
            } else {
                walk(nodes, p as int, (fuel - 1) as nat)
            },
        }
    }
}

/// The walk up from `i` ends: the parent chain holds no cycle.
pub open spec fn walk_ends(nodes: Seq<EntityNode>, i: int) -> bool {
    exists|n: nat| #[trigger] walk(nodes, i, n) is Some
}

/// The closest ancestor of `i` (possibly `i`) with a body, where the walk
/// ends.
pub open spec fn body_ancestor(nodes: Seq<EntityNode>, i: int) -> Option<int> {
    walk(nodes, i, choose|n: nat| #[trigger] walk(nodes, i, n) is Some).unwrap()
}

/// More fuel does not change a walk that ended.
pub proof fn lemma_walk_fuel(nodes: Seq<EntityNode>, i: int, a: nat, b: nat)
    requires
        walk(nodes, i, a) is Some,
        a <= b,
    ensures
        walk(nodes, i, b) == walk(nodes, i, a),
    decreases a,
{
    if 0 <= i < nodes.len() && !nodes[i].has_body {
        if let Some(p) = nodes[i].parent {
            lemma_walk_fuel(nodes, p as int, (a - 1) as nat, (b - 1) as nat);
        }
    }
}

/// Finds the closest ancestor of entity `start` (possibly itself) that holds
/// a rigid body, following parent components.
pub fn find_body_ancestor(nodes: &Vec<EntityNode>, start: usize) -> (r: Option<usize>)
    requires
        start < nodes.len(),
        walk_ends(nodes@, start as int),
    ensures
        body_ancestor(nodes@, start as int) == match r {
            Some(j) => Some(j as int),
            None => None::<int>,
        },
        match r {
            Some(j) => j < nodes.len() && nodes@[j as int].has_body,
            None => true,
        },
{
    let ghost n0: nat = choose|n: nat| #[trigger] walk(nodes@, start as int, n) is Some;
    let ghost mut fuel: nat = n0;
    let mut cur: usize = start;
    loop
        invariant
            cur < nodes.len(),
            walk(nodes@, cur as int, fuel) == walk(nodes@, start as int, n0),
            walk(nodes@, start as int, n0) is Some,
            n0 == choose|n: nat| #[trigger] walk(nodes@, start as int, n) is Some,
        decreases fuel,
    {
        let node: EntityNode = nodes[cur];
        if node.has_body {
            return Some(cur);
        }
        match node.parent {
            None => {
                return None;
            },
            Some(p) => {
                if p >= nodes.len() {
                    proof {
                        assert(walk(nodes@, p as int, (fuel - 1) as nat) == Some(None::<int>));
                    }
                    return None;
                }
                proof {
                    fuel = (fuel - 1) as nat;
                }
                cur = p;
            },
        }
    }
}

/// The colliders that `attach_bodies_and_colliders` attaches among the
/// first `k` entities, in order, each with the handle of its body.
pub open spec fn attach_list(nodes: Seq<EntityNode>, k: int) -> Seq<(usize, u64)>
    decreases k,
{
    if k <= 0 {
        Seq::empty()
    } else {
        let rest = attach_list(nodes, k - 1);
        if nodes[k - 1].unattached_collider {
            match body_ancestor(nodes, k - 1) {
                Some(j) => rest.push(((k - 1) as usize, nodes[j].id)),
                None => rest,
            }
        } else {
            rest
        }
    }
}

/// Every collider not yet attached to a body is attached to its closest
/// ancestor with a body; the result lists each such collider (its position
/// in `nodes`) with the handle of that body, in order. Colliders with no
/// such ancestor stay unattached.
pub fn attach_bodies_and_colliders(nodes: &Vec<EntityNode>) -> (r: Vec<(usize, u64)>)
    requires
        forall|i: int| 0 <= i < nodes.len() && (#[trigger] nodes@[i]).unattached_collider ==> walk_ends(nodes@, i),
    ensures
        r@ == attach_list(nodes@, nodes.len() as int),
{
    let mut out: Vec<(usize, u64)> = Vec::new();
    let mut i: usize = 0;
    while i < nodes.len()
        invariant
            i <= nodes.len(),
            out@ == attach_list(nodes@, i as int),
            forall|k: int| 0 <= k < nodes.len() && (#[trigger] nodes@[k]).unattached_collider ==> walk_ends(nodes@, k),
        decreases nodes.len() - i,
    {
        if nodes[i].unattached_collider {
            assert(nodes@[i as int].unattached_collider);
            match find_body_ancestor(nodes, i) {
                Some(j) => {
                    out.push((i, nodes[j].id));
                },
                None => {},
            }
        }
        i = i + 1;
    }
    out
}

/// A collider with a parent component, as the finalizing system sees it:
/// its handle, the handle of the body its parent names, its pending
/// changes, and whether the parent component was added since the trackers
/// were last cleared.
#[derive(Debug, Clone, Copy, PartialEq, Eq, Structural)]
pub struct ColliderAttach {
    pub handle: u64,
    pub parent: u64,
    pub changes: ColliderChanges,
    pub just_attached: bool,
}

/// A rigid body as the finalizing system sees it.
#[derive(Debug, Clone, Copy, PartialEq, Eq, Structural)]
pub struct BodyAttach {
    pub handle: u64,
    pub changes: RigidBodyChanges,
}

/// The position of the first body with handle `h`.
pub open spec fn find_body(bodies: Seq<BodyAttach>, h: u64) -> Option<int>
    decreases bodies.len(),
{
    if bodies.len() == 0 {
        None
    } else {
        match find_body(bodies.drop_last(), h) {
            Some(j) => Some(j),
            None => if bodies.last().handle == h {
                Some(bodies.len() - 1)
            } else {
                None
            },
        }
    }
}

/// Where finalizing stands: the tracker, the bodies, and the pairs
/// (collider position, body position) attached so far.
pub struct FinalizeState {
    pub tracker: TrackerView,
    pub bodies: Seq<BodyAttach>,
    pub attached: Seq<(usize, usize)>,
}

/// The tracker once collider `c` joined body `b`: the body is listed as
/// modified unless it was flagged already, the collider is appended to the
/// body's list, and its parent recorded.
pub open spec fn tracker_attach(t: TrackerView, c: u64, b: u64, body_flagged: bool) -> TrackerView {
    TrackerView {
        modified_bodies: if body_flagged {
            t.modified_bodies
        } else {
            t.modified_bodies.push(b)
        },
        body_colliders: t.body_colliders.insert(
            b,
            if t.body_colliders.contains_key(b) {
                t.body_colliders[b].push(c)
            } else {
                seq![c]
            },
        ),
        colliders_parent: t.colliders_parent.insert(c, b),
        ..t
    }
}

/// One collider handled: a collider just given a parent whose body exists is
/// attached; the body is then flagged modified and as having new colliders.
pub open spec fn finalize_step(st: FinalizeState, c: ColliderAttach, ci: int) -> FinalizeState {
    if c.just_attached {
        match find_body(st.bodies, c.parent) {
            Some(j) => {
                let b = st.bodies[j];
                FinalizeState {
                    tracker: tracker_attach(st.tracker, c.handle, c.parent, b.changes.modified),
                    bodies: st.bodies.update(
                        j,
                        BodyAttach {
                            handle: b.handle,
                            changes: RigidBodyChanges { modified: true, colliders: true, ..b.changes },
                        },
                    ),
                    attached: st.attached.push((ci as usize, j as usize)),
                }
            },
            None => st,
        }
    } else {
        st
    }
}

/// The state after the first `k` colliders.
pub open spec fn finalize_upto(
    tracker: TrackerView,
    bodies: Seq<BodyAttach>,
    colliders: Seq<ColliderAttach>,
    k: int,
) -> FinalizeState
    decreases k,
{
    if k <= 0 {
        FinalizeState { tracker, bodies, attached: Seq::empty() }
    } else {
        finalize_step(finalize_upto(tracker, bodies, colliders, k - 1), colliders[k - 1], k - 1)
    }
}

/// A collider after finalizing: its pending changes are reset where it was
/// attached.
pub open spec fn finalize_collider(bodies: Seq<BodyAttach>, c: ColliderAttach) -> ColliderAttach {
    if c.just_attached && find_body(bodies, c.parent) is Some {
        ColliderAttach { changes: ColliderChanges::spec_none(), ..c }
    } else {
        c
    }
}

proof fn lemma_find_body_handles(bodies: Seq<BodyAttach>, other: Seq<BodyAttach>, h: u64)
    requires
        bodies.len() == other.len(),
        forall|j: int| 0 <= j < bodies.len() ==> bodies[j].handle == other[j].handle,
    ensures
        find_body(bodies, h) == find_body(other, h),
    decreases bodies.len(),
{
    if bodies.len() > 0 {
        lemma_find_body_handles(bodies.drop_last(), other.drop_last(), h);
    }
}

proof fn lemma_find_body_found(bodies: Seq<BodyAttach>, h: u64)
    ensures
        match find_body(bodies, h) {
            Some(j) => 0 <= j < bodies.len() && bodies[j].handle == h,
            None => forall|j: int| 0 <= j < bodies.len() ==> bodies[j].handle != h,
        },
    decreases bodies.len(),
{
    if bodies.len() > 0 {
        lemma_find_body_found(bodies.drop_last(), h);
        if find_body(bodies.drop_last(), h) is None {
            assert forall|j: int| 0 <= j < bodies.len() - 1 implies bodies[j].handle != h by {
                assert(bodies.drop_last()[j] == bodies[j]);
            }
        } else {
            let j = find_body(bodies.drop_last(), h).unwrap();
            assert(bodies.drop_last()[j] == bodies[j]);
        }
    }
}

proof fn lemma_finalize_keeps_handles(
    tracker: TrackerView,
    bodies: Seq<BodyAttach>,
    colliders: Seq<ColliderAttach>,
    k: int,
)
    requires
        0 <= k <= colliders.len(),
    ensures
        finalize_upto(tracker, bodies, colliders, k).bodies.len() == bodies.len(),
        forall|j: int|
            0 <= j < bodies.len() ==> #[trigger] finalize_upto(tracker, bodies, colliders, k).bodies[j].handle
                == bodies[j].handle,
    decreases k,
{
    if k > 0 {
        lemma_finalize_keeps_handles(tracker, bodies, colliders, k - 1);
        let st = finalize_upto(tracker, bodies, colliders, k - 1);
        lemma_find_body_found(st.bodies, colliders[k - 1].parent);
    }
}

/// The first body with handle `h`.
fn find_body_index(bodies: &Vec<BodyAttach>, h: u64) -> (r: Option<usize>)
    ensures
        find_body(bodies@, h) == match r {
            Some(j) => Some(j as int),
            None => None::<int>,
        },
        match r {
            Some(j) => j < bodies.len() && bodies@[j as int].handle == h,
            None => true,
        },
{
    proof {
        lemma_find_body_found(bodies@, h);
    }
    let mut j: usize = 0;
    while j < bodies.len()
        invariant
            j <= bodies.len(),
            find_body(bodies@.subrange(0, j as int), h) is None,
        decreases bodies.len() - j,
    {
        let ghost pre = bodies@.subrange(0, j as int + 1);
        proof {
            assert(pre.drop_last() =~= bodies@.subrange(0, j as int));
        }
        if bodies[j].handle == h {
            proof {
                assert(find_body(pre, h) == Some(j as int));
                lemma_find_prefix(bodies@, j as int + 1, h);
            }
            return Some(j);
        }
        j = j + 1;
    }
    proof {
        assert(bodies@.subrange(0, j as int) =~= bodies@);
    }
    None
}

proof fn lemma_find_prefix(bodies: Seq<BodyAttach>, k: int, h: u64)
    requires
        0 <= k <= bodies.len(),
        find_body(bodies.subrange(0, k), h) is Some,
    ensures
        find_body(bodies, h) == find_body(bodies.subrange(0, k), h),
    decreases bodies.len() - k,
{
    if k < bodies.len() {
        let next = bodies.subrange(0, k + 1);
        assert(next.drop_last() =~= bodies.subrange(0, k));
        lemma_find_prefix(bodies, k + 1, h);
    } else {
        assert(bodies.subrange(0, k) =~= bodies);
    }
}

/// Finishes attaching the colliders that were just given a parent: each one
/// whose body exists is recorded in the tracker (see `finalize_step`), has its
/// pending changes reset, and is listed with its body's position so that
/// the body's own attach can run on the pair. The body's changes are
/// flagged as the attach flags them, so a body that takes several colliders
/// is listed as modified once.
pub fn finalize_collider_attach_to_bodies(
    tracker: &mut ModificationTracker,
    colliders: &mut Vec<ColliderAttach>,
    bodies: &mut Vec<BodyAttach>,
) -> (r: Vec<(usize, usize)>)
    ensures
        ({
            let st = finalize_upto(old(tracker)@, old(bodies)@, old(colliders)@, old(colliders)@.len() as int);
            &&& final(tracker)@ == st.tracker
            &&& final(bodies)@ == st.bodies
            &&& r@ == st.attached
        }),
        final(colliders)@ == old(colliders)@.map_values(|c: ColliderAttach| finalize_collider(old(bodies)@, c)),
{
    let mut out: Vec<(usize, usize)> = Vec::new();
    let n: usize = colliders.len();
    let mut i: usize = 0;
    while i < n
        invariant
            n == colliders.len(),
            n == old(colliders).len(),
            i <= n,
            ({
                let st = finalize_upto(old(tracker)@, old(bodies)@, old(colliders)@, i as int);
                &&& tracker@ == st.tracker
                &&& bodies@ == st.bodies
                &&& out@ == st.attached
            }),
            forall|j: int| 0 <= j < i ==> colliders@[j] == finalize_collider(old(bodies)@, old(colliders)@[j]),
            forall|j: int| i <= j < n ==> colliders@[j] == old(colliders)@[j],
        decreases n - i,
    {
        let c: ColliderAttach = colliders[i];
        proof {
            lemma_finalize_keeps_handles(old(tracker)@, old(bodies)@, old(colliders)@, i as int);
            lemma_find_body_handles(bodies@, old(bodies)@, c.parent);
        }
        if c.just_attached {
            match find_body_index(bodies, c.parent) {
                Some(j) => {
                    let b: BodyAttach = bodies[j];
                    if !b.changes.modified {
                        tracker.modified_bodies.push(c.parent);
                    }
                    let mut list: Vec<u64> = match tracker.body_colliders.remove(&c.parent) {
                        Some(v) => v,
                        None => Vec::new(),
                    };
                    list.push(c.handle);
                    tracker.body_colliders.insert(c.parent, list);
                    tracker.colliders_parent.insert(c.handle, c.parent);
                    let mut nb: BodyAttach = b;
                    nb.changes.modified = true;
                    nb.changes.colliders = true;
                    bodies.set(j, nb);
                    let mut nc: ColliderAttach = c;
                    nc.changes = ColliderChanges::none();
                    colliders.set(i, nc);
                    out.push((i, j));
                    proof {
                        let st = finalize_upto(old(tracker)@, old(bodies)@, old(colliders)@, i as int);
                        let st2 = finalize_step(st, c, i as int);
                        assert(tracker@.body_colliders =~= st2.tracker.body_colliders);
                        assert(tracker@.colliders_parent =~= st2.tracker.colliders_parent);
                        assert(tracker@ == st2.tracker);
                    }
                },
                None => {},
            }
        }
        i = i + 1;
    }
    proof {
        assert(colliders@ =~= old(colliders)@.map_values(|c: ColliderAttach| finalize_collider(old(bodies)@, c)));
    }
    out
}

/// The two attachment maps agree: a collider's recorded parent lists the
/// collider, and every collider a body lists records that body as parent.
pub open spec fn attachment_maps_agree(t: TrackerView) -> bool {
    &&& forall|c: u64| #[trigger]
        t.colliders_parent.contains_key(c) ==> t.body_colliders.contains_key(t.colliders_parent[c])
            && t.body_colliders[t.colliders_parent[c]].contains(c)
    &&& forall|b: u64, c: u64|
        t.body_colliders.contains_key(b) && #[trigger] t.body_colliders[b].contains(c)
            ==> t.colliders_parent.contains_key(c) && t.colliders_parent[c] == b
}

proof fn lemma_tracker_attach_agrees(t: TrackerView, c: u64, b: u64, flagged: bool)
    requires
        attachment_maps_agree(t),
        !t.colliders_parent.contains_key(c),
    ensures
        attachment_maps_agree(tracker_attach(t, c, b, flagged)),
{
    let t2 = tracker_attach(t, c, b, flagged);
    assert(t2.body_colliders[b].contains(c)) by {
        let l = t2.body_colliders[b];
        assert(l[l.len() - 1] == c);
    }
    assert forall|c2: u64| #[trigger] t2.colliders_parent.contains_key(c2) implies t2.body_colliders.contains_key(
        t2.colliders_parent[c2],
    ) && t2.body_colliders[t2.colliders_parent[c2]].contains(c2) by {
        if c2 != c {
            let p = t.colliders_parent[c2];
            assert(t.body_colliders[p].contains(c2));
            if p == b {
                let i = choose|i: int| 0 <= i < t.body_colliders[b].len() && t.body_colliders[b][i] == c2;
                assert(t2.body_colliders[b][i] == c2);
            }
        }
    }
    assert forall|b2: u64, c2: u64|
        t2.body_colliders.contains_key(b2) && #[trigger] t2.body_colliders[b2].contains(c2) implies t2.colliders_parent.contains_key(
        c2,
    ) && t2.colliders_parent[c2] == b2 by {
        if b2 == b {
            if c2 != c {
                let l = t2.body_colliders[b];
                let i = choose|i: int| 0 <= i < l.len() && l[i] == c2;
                assert(t.body_colliders.contains_key(b));
                assert(t.body_colliders[b][i] == c2);
                assert(t.body_colliders[b].contains(c2));
            }
        } else {
            assert(t.body_colliders[b2].contains(c2));
        }
    }
}

proof fn lemma_finalize_agrees_upto(
    tracker: TrackerView,
    bodies: Seq<BodyAttach>,
    colliders: Seq<ColliderAttach>,
    k: int,
)
    requires
        0 <= k <= colliders.len(),
        attachment_maps_agree(tracker),
        forall|i: int| 0 <= i < colliders.len() ==> !tracker.colliders_parent.contains_key(#[trigger] colliders[i].handle),
        forall|i: int, j: int|
            0 <= i < colliders.len() && 0 <= j < colliders.len() && colliders[i].handle == colliders[j].handle
                ==> i == j,
    ensures
        attachment_maps_agree(finalize_upto(tracker, bodies, colliders, k).tracker),
        forall|c: u64| #[trigger]
            finalize_upto(tracker, bodies, colliders, k).tracker.colliders_parent.contains_key(c)
                ==> tracker.colliders_parent.contains_key(c) || exists|j: int| 0 <= j < k && colliders[j].handle == c,
    decreases k,
{
    if k > 0 {
        lemma_finalize_agrees_upto(tracker, bodies, colliders, k - 1);
        let st = finalize_upto(tracker, bodies, colliders, k - 1);
        let c = colliders[k - 1];
        if c.just_attached {
            if let Some(j) = find_body(st.bodies, c.parent) {
                assert(!st.tracker.colliders_parent.contains_key(c.handle)) by {
                    if st.tracker.colliders_parent.contains_key(c.handle) {
                        if !tracker.colliders_parent.contains_key(c.handle) {
                            let j2 = choose|j2: int| 0 <= j2 < k - 1 && colliders[j2].handle == c.handle;
                        }
                    }
                }
                lemma_tracker_attach_agrees(st.tracker, c.handle, c.parent, st.bodies[j].changes.modified);
                let st2 = finalize_upto(tracker, bodies, colliders, k);
                assert forall|h: u64| #[trigger]
                    st2.tracker.colliders_parent.contains_key(h) implies tracker.colliders_parent.contains_key(h)
                        || exists|j2: int| 0 <= j2 < k && colliders[j2].handle == h by {
                    if h != c.handle && !tracker.colliders_parent.contains_key(h) {
                        assert(st.tracker.colliders_parent.contains_key(h));
                        let j2 = choose|j2: int| 0 <= j2 < k - 1 && colliders[j2].handle == h;
                        assert(0 <= j2 < k && colliders[j2].handle == h);
                    }
                }
            }
        }
        let st2 = finalize_upto(tracker, bodies, colliders, k);
        assert forall|h: u64| #[trigger]
            st2.tracker.colliders_parent.contains_key(h) implies tracker.colliders_parent.contains_key(h)
                || exists|j2: int| 0 <= j2 < k && colliders[j2].handle == h by {
            if !tracker.colliders_parent.contains_key(h) && st.tracker.colliders_parent.contains_key(h) {
                let j2 = choose|j2: int| 0 <= j2 < k - 1 && colliders[j2].handle == h;
                assert(0 <= j2 < k && colliders[j2].handle == h);
            }
        }
    }
}

/// Finalizing attachments keeps the tracker's two attachment maps in
/// agreement, where the colliders being attached are new to it.
pub proof fn lemma_finalize_keeps_maps_agreeing(
    tracker: TrackerView,
    bodies: Seq<BodyAttach>,
    colliders: Seq<ColliderAttach>,
)
    requires
        attachment_maps_agree(tracker),
        forall|i: int| 0 <= i < colliders.len() ==> !tracker.colliders_parent.contains_key(#[trigger] colliders[i].handle),
        forall|i: int, j: int|
            0 <= i < colliders.len() && 0 <= j < colliders.len() && colliders[i].handle == colliders[j].handle
                ==> i == j,
    ensures
        attachment_maps_agree(finalize_upto(tracker, bodies, colliders, colliders.len() as int).tracker),
{
    lemma_finalize_agrees_upto(tracker, bodies, colliders, colliders.len() as int);
}

} // verus!
