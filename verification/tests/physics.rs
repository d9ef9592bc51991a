use soldank::physics::{
    attach_bodies_and_colliders, finalize_collider_attach_to_bodies, find_body_ancestor, BodyAttach,
    BodyComponentChanges, BodyRecord, ColliderAttach, ColliderChanges, ColliderComponentChanges, ColliderRecord,
    EntityNode, ModificationTracker, RigidBodyChanges,
};

fn no_body_change() -> BodyComponentChanges {
    BodyComponentChanges {
        activation: false,
        position: false,
        velocity: false,
        forces: false,
        body_type: false,
        colliders: false,
    }
}

fn no_collider_change(parent: Option<bool>) -> ColliderComponentChanges {
    ColliderComponentChanges { position: false, flags: false, shape: false, collider_type: false, parent }
}

#[test]
fn fresh_tracker_is_empty() {
    let t = ModificationTracker::default();
    assert!(t.modified_bodies.is_empty());
    assert!(t.modified_colliders.is_empty());
    assert!(t.removed_bodies.is_empty());
    assert!(t.body_colliders.is_empty());
    assert!(t.colliders_parent.is_empty());
}

#[test]
fn clear_keeps_attachments() {
    let mut t = ModificationTracker::default();
    t.modified_bodies.push(1);
    t.removed_colliders.push(2);
    t.removed_joints.push(3);
    t.colliders_parent.insert(2, 1);
    t.clear_modified_and_removed();
    assert!(t.modified_bodies.is_empty());
    assert!(t.removed_colliders.is_empty());
    assert!(t.removed_joints.is_empty());
    assert_eq!(t.colliders_parent.get(&2), Some(&1));
}

#[test]
fn detect_body_changes() {
    let mut t = ModificationTracker::default();
    let moved = BodyComponentChanges { position: true, ..no_body_change() };
    let retyped = BodyComponentChanges { body_type: true, ..no_body_change() };
    let mut bodies = vec![
        BodyRecord { handle: 10, changes: RigidBodyChanges::none(), sleeping: true, changed: moved },
        BodyRecord { handle: 11, changes: RigidBodyChanges::none(), sleeping: true, changed: no_body_change() },
        BodyRecord {
            handle: 12,
            changes: RigidBodyChanges { modified: true, ..RigidBodyChanges::none() },
            sleeping: true,
            changed: retyped,
        },
    ];
    let mut colliders = vec![];
    t.detect_modifications(&mut bodies, &mut colliders);
    assert_eq!(t.modified_bodies, vec![10]);
    assert_eq!(
        bodies[0].changes,
        RigidBodyChanges { modified: true, position: true, sleep: true, colliders: false, body_type: false }
    );
    assert!(!bodies[0].sleeping);
    assert_eq!(bodies[0].changed, no_body_change());
    assert_eq!(bodies[1].changes, RigidBodyChanges::none());
    assert!(bodies[1].sleeping);
    assert_eq!(
        bodies[2].changes,
        RigidBodyChanges { modified: true, position: false, sleep: true, colliders: false, body_type: true }
    );
    // a second pass finds nothing new
    t.detect_modifications(&mut bodies, &mut colliders);
    assert_eq!(t.modified_bodies, vec![10]);
}

#[test]
fn detect_collider_changes() {
    let mut t = ModificationTracker::default();
    let mut bodies = vec![];
    let mut colliders = vec![
        ColliderRecord {
            handle: 20,
            changes: ColliderChanges::none(),
            changed: ColliderComponentChanges { shape: true, ..no_collider_change(None) },
        },
        ColliderRecord { handle: 21, changes: ColliderChanges::none(), changed: no_collider_change(Some(true)) },
        ColliderRecord { handle: 22, changes: ColliderChanges::none(), changed: no_collider_change(Some(false)) },
    ];
    t.detect_modifications(&mut bodies, &mut colliders);
    assert_eq!(t.modified_colliders, vec![20, 21]);
    assert!(colliders[0].changes.modified && colliders[0].changes.shape && !colliders[0].changes.parent);
    assert!(colliders[1].changes.modified && colliders[1].changes.parent);
    assert_eq!(colliders[1].changed.parent, Some(false));
    assert_eq!(colliders[0].changed.parent, None);
    assert_eq!(colliders[2].changes, ColliderChanges::none());
}

fn node(id: u64, has_body: bool, parent: Option<usize>, unattached_collider: bool) -> EntityNode {
    EntityNode { id, has_body, parent, unattached_collider }
}

#[test]
fn ancestor_search() {
    let nodes = vec![
        node(100, true, None, false),
        node(101, false, Some(0), false),
        node(102, false, Some(1), true),
        node(103, false, None, true),
        node(104, false, Some(9), true),
        node(105, true, Some(0), true),
    ];
    assert_eq!(find_body_ancestor(&nodes, 2), Some(0));
    assert_eq!(find_body_ancestor(&nodes, 3), None);
    assert_eq!(find_body_ancestor(&nodes, 4), None);
    assert_eq!(find_body_ancestor(&nodes, 5), Some(5));
    assert_eq!(attach_bodies_and_colliders(&nodes), vec![(2, 100), (5, 105)]);
}

#[test]
fn finalize_attach() {
    let mut t = ModificationTracker::default();
    let mut bodies = vec![
        BodyAttach { handle: 1, changes: RigidBodyChanges::none() },
        BodyAttach { handle: 2, changes: RigidBodyChanges { modified: true, ..RigidBodyChanges::none() } },
    ];
    let dirty = ColliderChanges { modified: true, shape: true, ..ColliderChanges::none() };
    let mut colliders = vec![
        ColliderAttach { handle: 30, parent: 1, changes: dirty, just_attached: true },
        ColliderAttach { handle: 31, parent: 1, changes: dirty, just_attached: true },
        ColliderAttach { handle: 32, parent: 2, changes: dirty, just_attached: true },
        ColliderAttach { handle: 33, parent: 7, changes: dirty, just_attached: true },
        ColliderAttach { handle: 34, parent: 2, changes: dirty, just_attached: false },
    ];
    let pairs = finalize_collider_attach_to_bodies(&mut t, &mut colliders, &mut bodies);
    assert_eq!(pairs, vec![(0, 0), (1, 0), (2, 1)]);
    assert_eq!(t.modified_bodies, vec![1]);
    assert_eq!(t.body_colliders.get(&1), Some(&vec![30, 31]));
    assert_eq!(t.body_colliders.get(&2), Some(&vec![32]));
    assert_eq!(t.colliders_parent.get(&31), Some(&1));
    assert_eq!(t.colliders_parent.get(&33), None);
    assert!(bodies[0].changes.modified && bodies[0].changes.colliders);
    assert_eq!(colliders[0].changes, ColliderChanges::none());
    assert_eq!(colliders[3].changes, dirty);
    assert_eq!(colliders[4].changes, dirty);
}
