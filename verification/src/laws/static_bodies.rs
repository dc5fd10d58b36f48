//! Bodies that are not dynamic are never changed.

use crate::components::Components;
use crate::fixed_step::{spec_fixed_step, spec_fixed_steps};
use crate::scalar::Scalar;
use crate::systems::apply_gravity::{spec_apply_gravity, Gravity};
use crate::systems::collision_system::{
    box_entries, circle_entries, spec_collider_data, spec_collision_pass, spec_collision_passes,
    spec_collision_system,
};
use crate::systems::contact::{CollisionInfo, EntityCollisionData, ITERATIONS};
use crate::systems::detection::{
    contacts_upto, row_contacts, spec_detect_collision, spec_detect_collisions, spec_pair_contact,
};
use crate::systems::resolution::{spec_resolve_collisions, spec_resolve_contact};
use crate::systems::update_physics::spec_update_physics;
use crate::world::spec_rows;
use vstd::prelude::*;

verus! {

/// Whether the entity is anything but a dynamic body.
pub open spec fn is_fixed(c: Components) -> bool {
    match c.body {
        Some(body) => !body.body_type.is_dynamic(),
        None => true,
    }
}

/// Whether the contact, wherever it names the entity, records it as not dynamic.
pub open spec fn spares(c: CollisionInfo, id: u64) -> bool {
    &&& c.entity1 == id ==> !c.body_type1.is_dynamic()
    &&& c.entity2 == id ==> !c.body_type2.is_dynamic()
}

/// Whether the detection data, if it is of the entity, records it as not dynamic.
pub open spec fn data_spares(d: EntityCollisionData, id: u64) -> bool {
    d.entity == id ==> !d.body_type.is_dynamic()
}

/// A contact carries the handles and the kinds of the two bodies it was
/// detected between, in their order.
pub proof fn lemma_contact_records_its_bodies(
    data1: EntityCollisionData,
    data2: EntityCollisionData,
)
    ensures
        match spec_detect_collision(data1, data2) {
            Some(c) => {
                &&& c.entity1 == data1.entity
                &&& c.entity2 == data2.entity
                &&& c.body_type1 == data1.body_type
                &&& c.body_type2 == data2.body_type
                &&& c.mass1 == data1.mass
                &&& c.mass2 == data2.mass
                &&& c.restitution == data1.restitution.min(data2.restitution)
            },
            None => true,
        },
{
}

/// Resolving a contact that spares an entity leaves every component of that
/// entity as it was, and never adds or removes an entity.
pub proof fn lemma_contact_spares(view: Map<u64, Components>, c: CollisionInfo, id: u64)
    requires
        spares(c, id),
    ensures
        spec_resolve_contact(view, c).dom() == view.dom(),
        spec_resolve_contact(view, c)[id] == view[id],
{
    assert(spec_resolve_contact(view, c).dom() =~= view.dom());
}

/// Resolving contacts that all spare an entity leaves every component of that
/// entity as it was.
pub proof fn lemma_contacts_spare(
    view: Map<u64, Components>,
    contacts: Seq<CollisionInfo>,
    id: u64,
)
    requires
        forall|k: int| 0 <= k < contacts.len() ==> spares(#[trigger] contacts[k], id),
    ensures
        spec_resolve_collisions(view, contacts).dom() == view.dom(),
        spec_resolve_collisions(view, contacts)[id] == view[id],
    decreases contacts.len(),
{
    if contacts.len() > 0 {
        let earlier = contacts.drop_last();
        assert forall|k: int| 0 <= k < earlier.len() implies spares(#[trigger] earlier[k], id) by {
            assert(earlier[k] == contacts[k]);
        }
        lemma_contacts_spare(view, earlier, id);
        assert(spares(contacts[contacts.len() - 1], id));
        lemma_contact_spares(spec_resolve_collisions(view, earlier), contacts.last(), id);
    }
}

/// Detection data gathered from rows that show the entity as fixed spare it.
proof fn lemma_entries_spare(rows: Seq<(u64, Components)>, n: int, id: u64)
    requires
        0 <= n <= rows.len(),
        forall|k: int| 0 <= k < rows.len() && (#[trigger] rows[k]).0 == id ==> is_fixed(rows[k].1),
    ensures
        forall|k: int|
            0 <= k < circle_entries(rows, n).len() ==> data_spares(
                #[trigger] circle_entries(rows, n)[k],
                id,
            ),
        forall|k: int|
            0 <= k < box_entries(rows, n).len() ==> data_spares(
                #[trigger] box_entries(rows, n)[k],
                id,
            ),
    decreases n,
{
    if n > 0 {
        lemma_entries_spare(rows, n - 1, id);
        assert(rows[n - 1].0 == id ==> is_fixed(rows[n - 1].1));
        let circles = circle_entries(rows, n);
        let earlier_circles = circle_entries(rows, n - 1);
        assert forall|k: int| 0 <= k < circles.len() implies data_spares(
            #[trigger] circles[k],
            id,
        ) by {
            if k < earlier_circles.len() {
                assert(circles[k] == earlier_circles[k]);
            }
        }
        let boxes = box_entries(rows, n);
        let earlier_boxes = box_entries(rows, n - 1);
        assert forall|k: int| 0 <= k < boxes.len() implies data_spares(#[trigger] boxes[k], id) by {
            if k < earlier_boxes.len() {
                assert(boxes[k] == earlier_boxes[k]);
            }
        }
    }
}

/// Contacts detected among data that spare the entity spare it too.
proof fn lemma_row_contacts_spare(data: Seq<EntityCollisionData>, i: int, end: int, id: u64)
    requires
        0 <= i < data.len(),
        end <= data.len(),
        forall|k: int| 0 <= k < data.len() ==> data_spares(#[trigger] data[k], id),
    ensures
        forall|k: int|
            0 <= k < row_contacts(data, i, end).len() ==> spares(
                #[trigger] row_contacts(data, i, end)[k],
                id,
            ),
    decreases end - i,
{
    if end > i + 1 {
        lemma_row_contacts_spare(data, i, end - 1, id);
        lemma_contact_records_its_bodies(data[i], data[end - 1]);
        assert(data_spares(data[i], id));
        assert(data_spares(data[end - 1], id));
        let contacts = row_contacts(data, i, end);
        let earlier = row_contacts(data, i, end - 1);
        assert forall|k: int| 0 <= k < contacts.len() implies spares(#[trigger] contacts[k], id) by {
            if k < earlier.len() {
                assert(contacts[k] == earlier[k]);
            }
        }
    }
}

/// Contacts detected among data that spare the entity spare it too.
proof fn lemma_contacts_upto_spare(data: Seq<EntityCollisionData>, n: int, id: u64)
    requires
        0 <= n <= data.len(),
        forall|k: int| 0 <= k < data.len() ==> data_spares(#[trigger] data[k], id),
    ensures
        forall|k: int|
            0 <= k < contacts_upto(data, n).len() ==> spares(
                #[trigger] contacts_upto(data, n)[k],
                id,
            ),
    decreases n,
{
    if n > 0 {
        lemma_contacts_upto_spare(data, n - 1, id);
        lemma_row_contacts_spare(data, n - 1, data.len() as int, id);
        let contacts = contacts_upto(data, n);
        let earlier = contacts_upto(data, n - 1);
        let row = row_contacts(data, n - 1, data.len() as int);
        assert forall|k: int| 0 <= k < contacts.len() implies spares(#[trigger] contacts[k], id) by {
            if k < earlier.len() {
                assert(contacts[k] == earlier[k]);
            } else {
                assert(contacts[k] == row[k - earlier.len()]);
            }
        }
    }
}

/// A collision pass leaves every component of a fixed entity as it was:
/// the entity is not moved and receives no impulse, whatever touches it.
pub proof fn lemma_pass_keeps_fixed(view: Map<u64, Components>, order: Seq<u64>, id: u64)
    requires
        is_fixed(view[id]),
    ensures
        spec_collision_pass(view, order).dom() == view.dom(),
        spec_collision_pass(view, order)[id] == view[id],
{
    let rows = spec_rows(view, order);
    let data = spec_collider_data(rows);
    let contacts = spec_detect_collisions(data);
    lemma_entries_spare(rows, rows.len() as int, id);
    lemma_contacts_upto_spare(data, data.len() as int, id);
    lemma_contacts_spare(view, contacts, id);
}

/// Any number of collision passes leaves every component of a fixed entity as it was.
pub proof fn lemma_passes_keep_fixed(
    view: Map<u64, Components>,
    order: Seq<u64>,
    n: nat,
    id: u64,
)
    requires
        is_fixed(view[id]),
    ensures
        spec_collision_passes(view, order, n).dom() == view.dom(),
        spec_collision_passes(view, order, n)[id] == view[id],
    decreases n,
{
    if n > 0 {
        lemma_passes_keep_fixed(view, order, (n - 1) as nat, id);
        lemma_pass_keeps_fixed(spec_collision_passes(view, order, (n - 1) as nat), order, id);
    }
}

/// One fixed step leaves every component of a fixed entity as it was.
pub proof fn lemma_fixed_step_keeps_fixed(
    view: Map<u64, Components>,
    order: Seq<u64>,
    gravity: Gravity,
    dt: Scalar,
    id: u64,
)
    requires
        view.dom().contains(id),
        is_fixed(view[id]),
    ensures
        spec_fixed_step(view, order, gravity, dt).dom() == view.dom(),
        spec_fixed_step(view, order, gravity, dt)[id] == view[id],
{
    let pulled = spec_apply_gravity(view, gravity);
    let moved = spec_update_physics(pulled, dt);
    assert(pulled.dom() =~= view.dom());
    assert(moved.dom() =~= view.dom());
    lemma_passes_keep_fixed(moved, order, ITERATIONS as nat, id);
}

/// Static invariance. A body that is not dynamic has the same transform, bit
/// for bit, after any number of fixed steps, whatever collides with it; its
/// other components are unchanged as well.
pub proof fn lemma_static_body_is_never_changed(
    view: Map<u64, Components>,
    order: Seq<u64>,
    gravity: Gravity,
    dt: Scalar,
    n: nat,
    id: u64,
)
    requires
        view.dom().contains(id),
        is_fixed(view[id]),
    ensures
        spec_fixed_steps(view, order, gravity, dt, n).dom() == view.dom(),
        spec_fixed_steps(view, order, gravity, dt, n)[id] == view[id],
        spec_fixed_steps(view, order, gravity, dt, n)[id].transform == view[id].transform,
    decreases n,
{
    if n > 0 {
        lemma_static_body_is_never_changed(view, order, gravity, dt, (n - 1) as nat, id);
        lemma_fixed_step_keeps_fixed(
            spec_fixed_steps(view, order, gravity, dt, (n - 1) as nat),
            order,
            gravity,
            dt,
            id,
        );
    }
}

} // verus!
