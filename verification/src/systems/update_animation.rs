//! Sprite animation: frames advance as time passes.

use crate::components::{Animation, Sprite};
use crate::resources::delta_time::DeltaTime;
use crate::resources::resource_container::ResourceContainer;
use crate::scalar::{scalar, trunc_div, Scalar, SCALE};
use crate::systems::MissingResource;
use crate::world::{
    read_sprites, sprite_ids, world_order, world_sprites, world_view, write_sprite,
};
use hecs::World;
use vstd::prelude::*;

verus! {

/// The frame after `frame`, staying at the largest number there is.
pub open spec fn spec_next_frame(frame: u32) -> u32 {
    if frame == u32::MAX {
        frame
    } else {
        (frame + 1) as u32
    }
}

/// The texture coordinates `[u_min, u_max, v_min, v_max]` of a frame in an
/// atlas of `columns` by `rows` frames, numbered row by row.
pub open spec fn spec_frame_uv(frame: u32, columns: u32, rows: u32) -> [Scalar; 4]
    recommends
        columns > 0,
{
    let x = frame as int % columns as int;
    let y = frame as int / columns as int;
    [
        scalar(trunc_div(x * SCALE as int, columns as int)),
        scalar(trunc_div((x + 1) * SCALE as int, columns as int)),
        scalar(trunc_div(y * SCALE as int, rows as int)),
        scalar(trunc_div((y + 1) * SCALE as int, rows as int)),
    ]
}

/// A sprite after `dt` has passed. A finished animation that does not loop
/// stays as it is. Otherwise the time is added up; once it reaches the frame
/// duration it starts again from zero and the next frame is shown. Past the
/// last frame a looping animation starts over, and one that does not loop
/// stays on its last frame and is finished, its tile untouched. The tile takes
/// the new frame's texture coordinates, unless the atlas has no columns.
pub open spec fn spec_advance_sprite(sprite: Sprite, dt: Scalar) -> Sprite {
    let a = sprite.animation;
    if a.finished && !a.loop_animation {
        sprite
    } else {
        let elapsed = a.elapsed_time.add(dt);
        if elapsed@ >= a.frame_duration@ {
            let next = spec_next_frame(a.current_frame);
            if next >= a.frame_count && !a.loop_animation {
                Sprite {
                    uv: sprite.uv,
                    animation: Animation {
                        elapsed_time: scalar(0),
                        current_frame: if a.frame_count == 0 {
                            0
                        } else {
                            (a.frame_count - 1) as u32
                        },
                        finished: true,
                        ..a
                    },
                }
            } else {
                let shown = if next >= a.frame_count {
                    0
                } else {
                    next
                };
                Sprite {
                    uv: if a.atlas_columns == 0 {
                        sprite.uv
                    } else {
                        spec_frame_uv(shown, a.atlas_columns, a.atlas_rows)
                    },
                    animation: Animation { elapsed_time: scalar(0), current_frame: shown, ..a },
                }
            }
        } else {
            Sprite { uv: sprite.uv, animation: Animation { elapsed_time: elapsed, ..a } }
        }
    }
}

/// The sprites after `dt` has passed for each of them.
pub open spec fn spec_update_animation(sprites: Map<u64, Sprite>, dt: Scalar) -> Map<u64, Sprite> {
    Map::new(|id: u64| sprites.dom().contains(id), |id: u64| spec_advance_sprite(sprites[id], dt))
}

/// The texture coordinates of a frame in an atlas with at least one column.
pub fn frame_uv(frame: u32, columns: u32, rows: u32) -> (uv: [Scalar; 4])
    requires
        columns > 0,
    ensures
        uv == spec_frame_uv(frame, columns, rows),
{
    let x: u32 = frame % columns;
    let y: u32 = frame / columns;
    [
        Scalar::from_ratio(x as i64, columns as i64),
        Scalar::from_ratio(x as i64 + 1, columns as i64),
        Scalar::from_ratio(y as i64, rows as i64),
        Scalar::from_ratio(y as i64 + 1, rows as i64),
    ]
}

/// Advances one sprite by `dt`.
pub fn advance_sprite(sprite: Sprite, dt: Scalar) -> (next: Sprite)
    ensures
        next == spec_advance_sprite(sprite, dt),
{
    let a = sprite.animation;
    if a.finished && !a.loop_animation {
        return sprite;
    }
    let elapsed = a.elapsed_time.add(dt);
    if elapsed.raw >= a.frame_duration.raw {
        let next: u32 = if a.current_frame == u32::MAX {
            a.current_frame
        } else {
            a.current_frame + 1
        };
        if next >= a.frame_count && !a.loop_animation {
            let last: u32 = if a.frame_count == 0 {
                0
            } else {
                a.frame_count - 1
            };
            Sprite {
                uv: sprite.uv,
                animation: Animation {
                    current_frame: last,
                    frame_count: a.frame_count,
                    frame_duration: a.frame_duration,
                    elapsed_time: Scalar::zero(),
                    loop_animation: a.loop_animation,
                    finished: true,
                    atlas_columns: a.atlas_columns,
                    atlas_rows: a.atlas_rows,
                },
            }
        } else {
            let shown: u32 = if next >= a.frame_count {
                0
            } else {
                next
            };
            let uv = if a.atlas_columns == 0 {
                sprite.uv
            } else {
                frame_uv(shown, a.atlas_columns, a.atlas_rows)
            };
            Sprite {
                uv,
                animation: Animation {
                    current_frame: shown,
                    frame_count: a.frame_count,
                    frame_duration: a.frame_duration,
                    elapsed_time: Scalar::zero(),
                    loop_animation: a.loop_animation,
                    finished: a.finished,
                    atlas_columns: a.atlas_columns,
                    atlas_rows: a.atlas_rows,
                },
            }
        }
    } else {
        Sprite {
            uv: sprite.uv,
            animation: Animation {
                current_frame: a.current_frame,
                frame_count: a.frame_count,
                frame_duration: a.frame_duration,
                elapsed_time: elapsed,
                loop_animation: a.loop_animation,
                finished: a.finished,
                atlas_columns: a.atlas_columns,
                atlas_rows: a.atlas_rows,
            },
        }
    }
}

/// Advances every entity that has a tile and an animation by `dt`. The physics
/// components are not touched.
pub fn update_animation_with(world: &mut World, dt: DeltaTime)
    ensures
        world_sprites(*final(world)) == spec_update_animation(world_sprites(*old(world)), dt.0),
        world_view(*final(world)) == world_view(*old(world)),
        world_order(*final(world)) == world_order(*old(world)),
{
    let rows = read_sprites(world);
    let ghost before = world_sprites(*world);
    let mut i: usize = 0;
    while i < rows.len()
        invariant
            0 <= i <= rows.len(),
            world_order(*world) == world_order(*old(world)),
            world_view(*world) == world_view(*old(world)),
            before == world_sprites(*old(world)),
            sprite_ids(rows@).no_duplicates(),
            forall|id: u64| before.dom().contains(id) <==> sprite_ids(rows@).contains(id),
            forall|k: int| 0 <= k < rows.len() ==> (#[trigger] rows[k]).1 == before[rows[k].0],
            world_sprites(*world).dom() == before.dom(),
            forall|k: int|
                0 <= k < i ==> world_sprites(*world)[(#[trigger] rows[k]).0]
                    == spec_advance_sprite(before[rows[k].0], dt.0),
            forall|k: int|
                i <= k < rows.len() ==> world_sprites(*world)[(#[trigger] rows[k]).0]
                    == before[rows[k].0],
        decreases rows.len() - i,
    {
        let (id, sprite) = rows[i];
        assert(sprite_ids(rows@)[i as int] == id);
        assert(world_sprites(*world).dom().contains(id));
        write_sprite(world, id, advance_sprite(sprite, dt.0));
        assert forall|k: int| 0 <= k < rows.len() && k != i implies (#[trigger] rows[k]).0
            != id by {
            assert(sprite_ids(rows@)[k] == rows[k].0);
        }
        assert(world_sprites(*world).dom() =~= before.dom());
        i += 1;
    }
    assert(world_sprites(*world) =~= spec_update_animation(before, dt.0)) by {
        assert forall|id: u64| before.dom().contains(id) implies world_sprites(*world)[id]
            == spec_advance_sprite(before[id], dt.0) by {
            let k = choose|k: int| 0 <= k < rows.len() && sprite_ids(rows@)[k] == id;
            assert(rows[k].0 == id);
        }
    }
}

/// Reads the step length from the resources and advances every animation by
/// it. Without a step length among the resources nothing changes and the lack
/// is reported. Whether a type is among the resources is decided by the
/// resource store, so the contract covers both outcomes.
pub fn update_animation(world: &mut World, resources: &mut ResourceContainer) -> (r: Result<
    (),
    MissingResource,
>)
    ensures
        *final(resources) == *old(resources),
        world_view(*final(world)) == world_view(*old(world)),
        world_order(*final(world)) == world_order(*old(world)),
        match r {
            Ok(()) => exists|dt: Scalar|
                world_sprites(*final(world)) == spec_update_animation(
                    world_sprites(*old(world)),
                    dt,
                ),
            Err(e) => e == MissingResource::DeltaTime && world_sprites(*final(world))
                == world_sprites(*old(world)),
        },
{
    let found = match resources.get::<DeltaTime>() {
        Some(dt) => Some(*dt),
        None => None,
    };
    match found {
        Some(dt) => {
            update_animation_with(world, dt);
            Ok(())
        },
        None => Err(MissingResource::DeltaTime),
    }
}

} // verus!
