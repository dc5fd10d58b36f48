//! Pairs that already separate receive no impulse.

use crate::components::{Components, Velocity};
use crate::systems::contact::{CollisionInfo, SEPARATING_SPEED};
use crate::systems::resolution::{
    spec_correct_positions, spec_normal_speed, spec_resolve_contact,
};
use crate::world::view_velocity;
use vstd::prelude::*;

verus! {

/// Positional correction changes no velocity.
pub proof fn lemma_correction_keeps_velocities(view: Map<u64, Components>, c: CollisionInfo)
    ensures
        spec_correct_positions(view, c).dom() == view.dom(),
        forall|id: u64| #[trigger]
            view_velocity(spec_correct_positions(view, c), id) == view_velocity(view, id),
{
    assert(spec_correct_positions(view, c).dom() =~= view.dom());
}

/// Separating-pair skip. When the two bodies of a contact have velocities whose
/// difference along the normal is above the separating threshold, resolving
/// the contact changes no velocity in the world; positions may still be
/// corrected.
pub proof fn lemma_separating_pair_keeps_velocities(
    view: Map<u64, Components>,
    c: CollisionInfo,
    v1: Velocity,
    v2: Velocity,
)
    requires
        view_velocity(view, c.entity1) == Some(v1),
        view_velocity(view, c.entity2) == Some(v2),
        spec_normal_speed(c, v1, v2)@ > SEPARATING_SPEED as int,
    ensures
        spec_resolve_contact(view, c).dom() == view.dom(),
        forall|id: u64| #[trigger]
            view_velocity(spec_resolve_contact(view, c), id) == view_velocity(view, id),
{
    lemma_correction_keeps_velocities(view, c);
    let corrected = spec_correct_positions(view, c);
    assert(view_velocity(corrected, c.entity1) == Some(v1));
    assert(view_velocity(corrected, c.entity2) == Some(v2));
}

} // verus!
