//! Drawing the dungeon map through the camera: every map cell visible in
//! the camera window is written to the map layer as `#` (wall) or `.`
//! (floor), in white on black, with the window's top-left at the origin.

use vstd::prelude::*;

use crate::camera::Camera;
use crate::color::Color;
use crate::draw_context::DrawContext;
use crate::geometry::UVec2;
use crate::layer::DrawCommand;
use crate::map::{DungeonMap, TileType};

verus! {

/// The glyph a map tile is drawn as.
pub open spec fn tile_glyph(tile: TileType) -> char {
    if tile == TileType::Wall {
        '#'
    } else {
        '.'
    }
}

/// The queue after drawing world cell `(x, y)`: a cell on the map's grid
/// is written at screen position `(x - ox, y - oy)` — and dropped there if
/// it falls outside the layer — while a cell off the map's grid is
/// skipped.
pub open spec fn map_rendered_cell(
    queue: Seq<DrawCommand>,
    map: DungeonMap,
    size: UVec2,
    ox: int,
    oy: int,
    x: int,
    y: int,
) -> Seq<DrawCommand> {
    if 0 <= x < map.width && 0 <= y < map.height {
        let glyph = tile_glyph(map.tiles@[y * map.width + x]);
        if x - ox < size.x && y - oy < size.y {
            queue.push(
                DrawCommand::DrawTile {
                    x: (x - ox) as u32,
                    y: (y - oy) as u32,
                    background: (Color { r: 0u8, g: 0u8, b: 0u8, a: 255u8 }),
                    foreground: (Color { r: 255u8, g: 255u8, b: 255u8, a: 255u8 }),
                    glyph,
                },
            )
        } else {
            queue
        }
    } else {
        queue
    }
}

/// The queue after drawing the first `i` cells of world row `y`, starting
/// at column `ox`.
pub open spec fn map_rendered_row(
    queue: Seq<DrawCommand>,
    map: DungeonMap,
    size: UVec2,
    ox: int,
    oy: int,
    y: int,
    i: int,
) -> Seq<DrawCommand>
    decreases i,
{
    if i <= 0 {
        queue
    } else {
        map_rendered_cell(
            map_rendered_row(queue, map, size, ox, oy, y, i - 1),
            map,
            size,
            ox,
            oy,
            ox + i - 1,
            y,
        )
    }
}

/// The queue after drawing the first `j` world rows, `ncols` cells each,
/// starting at row `oy`.
pub open spec fn map_rendered_rows(
    queue: Seq<DrawCommand>,
    map: DungeonMap,
    size: UVec2,
    ox: int,
    oy: int,
    ncols: int,
    j: int,
) -> Seq<DrawCommand>
    decreases j,
{
    if j <= 0 {
        queue
    } else {
        map_rendered_row(
            map_rendered_rows(queue, map, size, ox, oy, ncols, j - 1),
            map,
            size,
            ox,
            oy,
            oy + j - 1,
            ncols,
        )
    }
}

/// Everything but the layers' command queues and the active-layer
/// selector is unchanged.
pub open spec fn layers_config_kept(ctx: DrawContext, other: DrawContext) -> bool {
    &&& ctx.layers@.len() == other.layers@.len()
    &&& forall|i: int|
        0 <= i < other.layers@.len() ==> crate::draw_context::same_layer_config(
            #[trigger] ctx.layers@[i],
            other.layers@[i],
        )
}

/// Draws the camera's window of the map on layer `0`: rows
/// `top_y ..= bottom_y`, columns `left_x .. right_x`, each visible map
/// cell as its wall or floor glyph in white on black.
pub fn map_render(ctx: &mut DrawContext, map: &DungeonMap, camera: &Camera)
    requires
        old(ctx).wf(),
        map.wf(),
        camera.left_x <= camera.right_x,
        camera.top_y <= camera.bottom_y,
    ensures
        final(ctx).wf(),
        layers_config_kept(*final(ctx), *old(ctx)),
        final(ctx).active_layer == (crate::draw_context::ActiveLayer(0)),
        forall|i: int|
            0 < i < old(ctx).layers@.len() ==> final(ctx).layers@[i] == old(ctx).layers@[i],
        final(ctx).layers@[0].command_buffer@ == map_rendered_rows(
            old(ctx).layers@[0].command_buffer@,
            *map,
            old(ctx).layers@[0].size,
            camera.left_x as int,
            camera.top_y as int,
            camera.right_x - camera.left_x,
            camera.bottom_y - camera.top_y + 1,
        ),
{
    let ghost queue0 = old(ctx).layers@[0].command_buffer@;
    let ghost size = old(ctx).layers@[0].size;
    let ghost ox = camera.left_x as int;
    let ghost oy = camera.top_y as int;
    let ghost ncols = camera.right_x - camera.left_x;
    ctx.set_active_layer(0);
    let mut y = camera.top_y;
    loop
        invariant_except_break
            ctx.layers@[0].command_buffer@ == map_rendered_rows(
                queue0,
                *map,
                size,
                ox,
                oy,
                ncols,
                y - camera.top_y,
            ),
        invariant
            ctx.wf(),
            layers_config_kept(*ctx, *old(ctx)),
            ctx.active_layer == (crate::draw_context::ActiveLayer(0)),
            forall|i: int|
                0 < i < old(ctx).layers@.len() ==> ctx.layers@[i] == old(ctx).layers@[i],
            map.wf(),
            size == ctx.layers@[0].size,
            queue0 == old(ctx).layers@[0].command_buffer@,
            ox == camera.left_x as int,
            oy == camera.top_y as int,
            ncols == camera.right_x - camera.left_x,
            camera.top_y <= y <= camera.bottom_y,
            camera.left_x <= camera.right_x,
        ensures
            ctx.wf(),
            layers_config_kept(*ctx, *old(ctx)),
            ctx.active_layer == (crate::draw_context::ActiveLayer(0)),
            forall|i: int|
                0 < i < old(ctx).layers@.len() ==> ctx.layers@[i] == old(ctx).layers@[i],
            ctx.layers@[0].command_buffer@ == map_rendered_rows(
                queue0,
                *map,
                size,
                ox,
                oy,
                ncols,
                camera.bottom_y - camera.top_y + 1,
            ),
        decreases camera.bottom_y - y,
    {
        let ghost row_queue0 = ctx.layers@[0].command_buffer@;
        let mut x = camera.left_x;
        while x < camera.right_x
            invariant
                ctx.wf(),
                layers_config_kept(*ctx, *old(ctx)),
                ctx.active_layer == (crate::draw_context::ActiveLayer(0)),
                forall|i: int|
                    0 < i < old(ctx).layers@.len() ==> ctx.layers@[i] == old(ctx).layers@[i],
                map.wf(),
                size == ctx.layers@[0].size,
                queue0 == old(ctx).layers@[0].command_buffer@,
                ox == camera.left_x as int,
                oy == camera.top_y as int,
                ncols == camera.right_x - camera.left_x,
                row_queue0 == map_rendered_rows(queue0, *map, size, ox, oy, ncols, y - camera.top_y),
                camera.left_x <= x <= camera.right_x,
                camera.top_y <= y <= camera.bottom_y,
                ctx.layers@[0].command_buffer@ == map_rendered_row(
                    row_queue0,
                    *map,
                    size,
                    ox,
                    oy,
                    y as int,
                    x - camera.left_x,
                ),
            decreases camera.right_x - x,
        {
            let ghost queue_at_cell = ctx.layers@[0].command_buffer@;
            proof {
                assert(0 <= (x as i64) - (camera.left_x as i64) <= u32::MAX);
                assert(0 <= (y as i64) - (camera.top_y as i64) <= u32::MAX);
            }
            if x >= 0 && y >= 0 {
                let world = UVec2::new(x as u32, y as u32);
                match map.get_tile(world) {
                    Some(tile) => {
                        let glyph = match tile {
                            TileType::Wall => '#',
                            TileType::Floor => '.',
                        };
                        proof {
                            assert(glyph == tile_glyph(
                                map.tiles@[(y as int) * (map.width as int) + (x as int)],
                            ));
                        }
                        let diff_x: i64 = (x as i64) - (camera.left_x as i64);
                        let diff_y: i64 = (y as i64) - (camera.top_y as i64);
                        proof {
                            assert(0 <= diff_x <= u32::MAX as i64);
                            assert(0 <= diff_y <= u32::MAX as i64);
                        }
                        let screen_x = diff_x as u32;
                        let screen_y = diff_y as u32;
                        proof {
                            assert(screen_x as int == x - ox);
                            assert(screen_y as int == y - oy);
                        }
                        ctx.set(screen_x, screen_y, Color::black(), Color::white(), glyph);
                        proof {
                            assert(ctx.layers@[0].command_buffer@ == map_rendered_cell(
                                queue_at_cell,
                                *map,
                                size,
                                ox,
                                oy,
                                x as int,
                                y as int,
                            ));
                        }
                    },
                    None => {
                        proof {
                            assert(!(0 <= x < map.width && 0 <= y < map.height));
                        }
                    },
                }
            }
            proof {
                assert(ctx.layers@[0].command_buffer@ == map_rendered_cell(
                    queue_at_cell,
                    *map,
                    size,
                    ox,
                    oy,
                    x as int,
                    y as int,
                ));
                assert(ctx.layers@[0].command_buffer@ == map_rendered_row(
                    row_queue0,
                    *map,
                    size,
                    ox,
                    oy,
                    y as int,
                    (x - camera.left_x) + 1,
                ));
            }
            x = x + 1;
        }
        proof {
            assert(ctx.layers@[0].command_buffer@ == map_rendered_rows(
                queue0,
                *map,
                size,
                ox,
                oy,
                ncols,
                (y - camera.top_y) + 1,
            ));
        }
        if y == camera.bottom_y {
            break ;
        }
        y = y + 1;
    }
}

} // verus!
