//! Drawing the entities through the camera: each entity's glyph and colors
//! are written to the entity layer at its position relative to the camera
//! window; entities that land outside the layer are dropped by the write
//! itself.

use vstd::prelude::*;

use crate::camera::Camera;
use crate::components::{Position, Render};
use crate::draw_context::DrawContext;
use crate::geometry::UVec2;
use crate::layer::DrawCommand;

verus! {

/// A signed screen offset folded into an unsigned coordinate, the way the
/// host's coordinate casts do: negative offsets wrap around, and then lie
/// far outside any layer, so the write for them is dropped.
pub open spec fn wrap_u32(v: int) -> u32
    recommends
        -0x8000_0000 <= v <= 0x7fff_ffff,
{
    if v < 0 {
        (v + 0x1_0000_0000) as u32
    } else {
        v as u32
    }
}

/// The queue after drawing the first `i` entities: each is written at its
/// position minus the camera offset, with its own colors and glyph.
pub open spec fn entities_rendered(
    queue: Seq<DrawCommand>,
    entities: Seq<(Position, Render)>,
    ox: int,
    oy: int,
    size: UVec2,
) -> Seq<DrawCommand>
    decreases entities.len(),
{
    if entities.len() == 0 {
        queue
    } else {
        let prev = entities_rendered(queue, entities.drop_last(), ox, oy, size);
        let (position, render) = entities.last();
        let screen_x = wrap_u32(position.0.x - ox);
        let screen_y = wrap_u32(position.0.y - oy);
        if screen_x < size.x && screen_y < size.y {
            prev.push(
                DrawCommand::DrawTile {
                    x: screen_x,
                    y: screen_y,
                    background: render.color.background,
                    foreground: render.color.foreground,
                    glyph: render.glyph,
                },
            )
        } else {
            prev
        }
    }
}

/// Whether every entity's screen offset stays within signed arithmetic.
pub open spec fn offsets_fit(entities: Seq<(Position, Render)>, camera: Camera) -> bool {
    forall|k: int|
        0 <= k < entities.len() ==> {
            &&& -0x8000_0000 <= (#[trigger] entities[k]).0.0.x - camera.left_x <= 0x7fff_ffff
            &&& -0x8000_0000 <= entities[k].0.0.y - camera.top_y <= 0x7fff_ffff
        }
}

/// Draws every entity on layer `1`, in order, at its position relative to
/// the camera's top-left corner.
pub fn entity_render(ctx: &mut DrawContext, camera: &Camera, entities: &Vec<(Position, Render)>)
    requires
        old(ctx).wf(),
        old(ctx).layers@.len() > 1,
        offsets_fit(entities@, *camera),
    ensures
        final(ctx).wf(),
        crate::map_render::layers_config_kept(*final(ctx), *old(ctx)),
        final(ctx).active_layer == (crate::draw_context::ActiveLayer(1)),
        forall|i: int|
            0 <= i < old(ctx).layers@.len() && i != 1 ==> final(ctx).layers@[i] == old(
                ctx,
            ).layers@[i],
        final(ctx).layers@[1].command_buffer@ == entities_rendered(
            old(ctx).layers@[1].command_buffer@,
            entities@,
            camera.left_x as int,
            camera.top_y as int,
            old(ctx).layers@[1].size,
        ),
{
    let ghost queue0 = old(ctx).layers@[1].command_buffer@;
    let ghost size = old(ctx).layers@[1].size;
    ctx.set_active_layer(1);
    let n = entities.len();
    let mut i: usize = 0;
    while i < n
        invariant
            ctx.wf(),
            crate::map_render::layers_config_kept(*ctx, *old(ctx)),
            ctx.active_layer == (crate::draw_context::ActiveLayer(1)),
            forall|k: int|
                0 <= k < old(ctx).layers@.len() && k != 1 ==> ctx.layers@[k] == old(
                    ctx,
                ).layers@[k],
            n == entities@.len(),
            i <= n,
            offsets_fit(entities@, *camera),
            size == ctx.layers@[1].size,
            queue0 == old(ctx).layers@[1].command_buffer@,
            ctx.layers@[1].command_buffer@ == entities_rendered(
                queue0,
                entities@.take(i as int),
                camera.left_x as int,
                camera.top_y as int,
                size,
            ),
        decreases n - i,
    {
        let (position, render) = entities[i];
        let screen_x = wrap_coordinate(position.0.x, camera.left_x);
        let screen_y = wrap_coordinate(position.0.y, camera.top_y);
        ctx.set(
            screen_x,
            screen_y,
            render.color.background,
            render.color.foreground,
            render.glyph,
        );
        proof {
            assert(entities@.take(i as int + 1).drop_last() =~= entities@.take(i as int));
            assert(entities@.take(i as int + 1).last() == entities@[i as int]);
        }
        i = i + 1;
    }
    proof {
        assert(entities@.take(n as int) =~= entities@);
    }
}

/// Folds a camera offset into an unsigned screen coordinate; a negative
/// offset wraps far outside any layer.
fn wrap_coordinate(coordinate: u32, offset: i32) -> (r: u32)
    requires
        -0x8000_0000 <= coordinate - offset <= 0x7fff_ffff,
    ensures
        r == wrap_u32(coordinate - offset),
{
    let diff: i64 = coordinate as i64 - offset as i64;
    if diff < 0 {
        (diff + 0x1_0000_0000i64) as u32
    } else {
        diff as u32
    }
}

} // verus!
