//! Layers and their queued draw commands, and the command processor that
//! folds each layer's queue into the tile buffer once per frame.
//!
//! A layer renders as two sub-buffers: a background pass and an overlaid
//! foreground pass. Commands address the layer with the origin at the top
//! left; the processor flips the row so that storage is bottom-left-origin.

use vstd::prelude::*;

use crate::color::Color;
use crate::geometry::UVec2;
use crate::render::{RenderLayers, TileRenderData, buffers_view};

verus! {

/// Glyph code of the solid filled block used for background cells and
/// gauge fills.
pub const BLOCK_GLYPH: u8 = 219;

/// Glyph code of the fully invisible cell.
pub const INVISIBLE_GLYPH: u8 = 0;

/// One queued drawing operation, applied to the tile buffer when the
/// frame's commands are processed.
#[derive(Debug, Clone, Copy, PartialEq, Eq, Structural)]
pub enum DrawCommand {
    /// Write one glyph with its colors at `(x, y)`, top-left origin.
    DrawTile { x: u32, y: u32, background: Color, foreground: Color, glyph: char },
    /// Reset every cell of the layer to the clear color.
    ClearLayer { color: Color },
}

/// A drawing surface: two sub-buffer ids, transparency flags, a size in
/// tiles, and the commands queued during the current frame.
#[derive(Debug, Clone)]
pub struct Layer {
    /// Sub-buffer holding the background pass.
    pub background_id: u16,
    /// Sub-buffer holding the foreground pass; always `background_id + 1`.
    pub foreground_id: u16,
    /// Whether an explicit clear leaves the background invisible rather
    /// than filled with a solid block.
    pub is_transparent: bool,
    /// Whether drawing a glyph skips writing a background cell.
    pub is_background_transparent: bool,
    /// Size in tiles.
    pub size: UVec2,
    /// The commands queued during the current frame, in insertion order.
    pub command_buffer: Vec<DrawCommand>,
}

impl Layer {
    /// The sub-buffer ids are paired, every cell index fits in `u32`
    /// arithmetic, and every queued tile write is within bounds.
    pub open spec fn wf(self) -> bool {
        &&& self.foreground_id == self.background_id + 1
        &&& self.size.x * self.size.y <= u32::MAX
        &&& forall|k: int|
            0 <= k < self.command_buffer@.len() ==> command_in_bounds(
                #[trigger] self.command_buffer@[k],
                self.size,
            )
    }

    /// The number of cells of each of the layer's sub-buffers.
    pub open spec fn cell_count(self) -> int {
        self.size.x * self.size.y
    }
}

/// Whether a command only touches cells of a layer of the given size.
pub open spec fn command_in_bounds(cmd: DrawCommand, size: UVec2) -> bool {
    match cmd {
        DrawCommand::DrawTile { x, y, .. } => x < size.x && y < size.y,
        DrawCommand::ClearLayer { .. } => true,
    }
}

/// The cell slot a tile write at `(x, y)` lands in: the row is flipped so
/// that callers address the grid from the top left while storage starts at
/// the bottom left.
pub open spec fn flipped_index(size: UVec2, x: u32, y: u32) -> int {
    (size.y - y - 1) * size.x + x
}

/// A flipped index stays within the layer's cells.
pub proof fn lemma_flipped_index_in_bounds(size: UVec2, x: u32, y: u32)
    requires
        x < size.x,
        y < size.y,
    ensures
        0 <= flipped_index(size, x, y) < size.x * size.y,
{
    assert(0 <= (size.y - y - 1) * size.x + x < size.x * size.y && 0 <= x) by (nonlinear_arith)
        requires
            x < size.x,
            y < size.y,
    ;
}

/// The background cell a clear leaves behind: the clear color, and either
/// the invisible glyph (transparent layer) or the solid block.
pub open spec fn cleared_background_cell(layer: Layer, color: Color) -> TileRenderData {
    TileRenderData {
        color,
        glyph: if layer.is_transparent {
            INVISIBLE_GLYPH as char
        } else {
            BLOCK_GLYPH as char
        },
    }
}

/// The foreground cell a clear leaves behind: the clear color and the
/// invisible glyph.
pub open spec fn cleared_foreground_cell(color: Color) -> TileRenderData {
    TileRenderData { color, glyph: INVISIBLE_GLYPH as char }
}

/// The effect of one command of `layer` on the tile buffer.
///
/// A tile write composites into both sub-buffers: the background cell is
/// set to the solid block in the background color — unless the layer skips
/// backgrounds — and the foreground cell to the requested glyph. A clear
/// resets every cell of both sub-buffers.
pub open spec fn apply_command(
    bufs: Seq<Seq<TileRenderData>>,
    layer: Layer,
    cmd: DrawCommand,
) -> Seq<Seq<TileRenderData>> {
    match cmd {
        DrawCommand::DrawTile { x, y, background, foreground, glyph } => {
            let idx = flipped_index(layer.size, x, y);
            let with_background = if layer.is_background_transparent {
                bufs
            } else {
                bufs.update(
                    layer.background_id as int,
                    bufs[layer.background_id as int].update(
                        idx,
                        TileRenderData { color: background, glyph: BLOCK_GLYPH as char },
                    ),
                )
            };
            with_background.update(
                layer.foreground_id as int,
                with_background[layer.foreground_id as int].update(
                    idx,
                    TileRenderData { color: foreground, glyph },
                ),
            )
        },
        DrawCommand::ClearLayer { color } => {
            let cleared_background = Seq::new(
                bufs[layer.background_id as int].len(),
                |i: int| cleared_background_cell(layer, color),
            );
            let cleared_foreground = Seq::new(
                bufs[layer.foreground_id as int].len(),
                |i: int| cleared_foreground_cell(color),
            );
            bufs.update(layer.background_id as int, cleared_background).update(
                layer.foreground_id as int,
                cleared_foreground,
            )
        },
    }
}

/// The effect of a command queue, first command first.
pub open spec fn apply_commands(
    bufs: Seq<Seq<TileRenderData>>,
    layer: Layer,
    cmds: Seq<DrawCommand>,
) -> Seq<Seq<TileRenderData>>
    decreases cmds.len(),
{
    if cmds.len() == 0 {
        bufs
    } else {
        apply_commands(apply_command(bufs, layer, cmds[0]), layer, cmds.drop_first())
    }
}

/// The effect of processing every layer's queue, first layer first.
pub open spec fn process_layers(
    bufs: Seq<Seq<TileRenderData>>,
    layers: Seq<Layer>,
) -> Seq<Seq<TileRenderData>>
    decreases layers.len(),
{
    if layers.len() == 0 {
        bufs
    } else {
        process_layers(apply_commands(bufs, layers[0], layers[0].command_buffer@), layers.drop_first())
    }
}

/// Appending one command applies it after the rest of the queue.
pub proof fn lemma_apply_commands_push(
    bufs: Seq<Seq<TileRenderData>>,
    layer: Layer,
    cmds: Seq<DrawCommand>,
    cmd: DrawCommand,
)
    ensures
        apply_commands(bufs, layer, cmds.push(cmd)) == apply_command(
            apply_commands(bufs, layer, cmds),
            layer,
            cmd,
        ),
    decreases cmds.len(),
{
    if cmds.len() == 0 {
        assert(cmds.push(cmd)[0] == cmd);
        assert(cmds.push(cmd).drop_first() =~= Seq::<DrawCommand>::empty());
        assert(apply_commands(apply_command(bufs, layer, cmd), layer, Seq::<DrawCommand>::empty())
            == apply_command(bufs, layer, cmd));
        assert(apply_commands(bufs, layer, Seq::<DrawCommand>::empty()) == bufs);
        assert(cmds =~= Seq::<DrawCommand>::empty());
    } else {
        assert(cmds.push(cmd)[0] == cmds[0]);
        assert(cmds.push(cmd).drop_first() =~= cmds.drop_first().push(cmd));
        lemma_apply_commands_push(apply_command(bufs, layer, cmds[0]), layer, cmds.drop_first(), cmd);
    }
}

/// Appending one layer processes its queue after the earlier layers.
pub proof fn lemma_process_layers_push(
    bufs: Seq<Seq<TileRenderData>>,
    layers: Seq<Layer>,
    layer: Layer,
)
    ensures
        process_layers(bufs, layers.push(layer)) == apply_commands(
            process_layers(bufs, layers),
            layer,
            layer.command_buffer@,
        ),
    decreases layers.len(),
{
    if layers.len() == 0 {
        assert(layers.push(layer)[0] == layer);
        assert(layers.push(layer).drop_first() =~= Seq::<Layer>::empty());
        assert(process_layers(
            apply_commands(bufs, layer, layer.command_buffer@),
            Seq::<Layer>::empty(),
        ) == apply_commands(bufs, layer, layer.command_buffer@));
        assert(process_layers(bufs, Seq::<Layer>::empty()) == bufs);
        assert(layers =~= Seq::<Layer>::empty());
    } else {
        assert(layers.push(layer)[0] == layers[0]);
        assert(layers.push(layer).drop_first() =~= layers.drop_first().push(layer));
        lemma_process_layers_push(
            apply_commands(bufs, layers[0], layers[0].command_buffer@),
            layers.drop_first(),
            layer,
        );
    }
}

/// Whether the tile buffer has a matching pair of sub-buffers for every
/// layer, each sized to the layer's tile grid.
pub open spec fn wf_layers_buffers(layers: Seq<Layer>, bufs: Seq<Seq<TileRenderData>>) -> bool {
    forall|i: int|
        0 <= i < layers.len() ==> {
            &&& (#[trigger] layers[i]).wf()
            &&& layers[i].foreground_id < bufs.len()
            &&& bufs[layers[i].background_id as int].len() == layers[i].cell_count()
            &&& bufs[layers[i].foreground_id as int].len() == layers[i].cell_count()
        }
}

/// Whether the tile buffer has in-range, rightly sized sub-buffers for one
/// layer.
pub open spec fn layer_fits(layer: Layer, bufs: Seq<Seq<TileRenderData>>) -> bool {
    &&& layer.background_id < bufs.len()
    &&& layer.foreground_id < bufs.len()
    &&& bufs[layer.background_id as int].len() == layer.cell_count()
    &&& bufs[layer.foreground_id as int].len() == layer.cell_count()
}

/// An in-bounds command of a layer keeps every sub-buffer's length.
pub proof fn lemma_apply_command_lengths(
    bufs: Seq<Seq<TileRenderData>>,
    layer: Layer,
    cmd: DrawCommand,
)
    requires
        layer_fits(layer, bufs),
        command_in_bounds(cmd, layer.size),
        layer.size.x * layer.size.y <= u32::MAX,
    ensures
        apply_command(bufs, layer, cmd).len() == bufs.len(),
        forall|j: int|
            0 <= j < bufs.len() ==> #[trigger] apply_command(bufs, layer, cmd)[j].len()
                == bufs[j].len(),
{
    match cmd {
        DrawCommand::DrawTile { x, y, .. } => {
            lemma_flipped_index_in_bounds(layer.size, x, y);
        },
        DrawCommand::ClearLayer { .. } => {
        },
    }
}

/// A whole in-bounds queue of a layer keeps every sub-buffer's length.
pub proof fn lemma_apply_commands_lengths(
    bufs: Seq<Seq<TileRenderData>>,
    layer: Layer,
    cmds: Seq<DrawCommand>,
)
    requires
        layer_fits(layer, bufs),
        layer.size.x * layer.size.y <= u32::MAX,
        forall|k: int| 0 <= k < cmds.len() ==> command_in_bounds(#[trigger] cmds[k], layer.size),
    ensures
        apply_commands(bufs, layer, cmds).len() == bufs.len(),
        forall|j: int|
            0 <= j < bufs.len() ==> #[trigger] apply_commands(bufs, layer, cmds)[j].len()
                == bufs[j].len(),
    decreases cmds.len(),
{
    if cmds.len() > 0 {
        lemma_apply_command_lengths(bufs, layer, cmds[0]);
        assert(forall|k: int|
            0 <= k < cmds.drop_first().len() ==> cmds.drop_first()[k] == #[trigger] cmds[k + 1]);
        lemma_apply_commands_lengths(apply_command(bufs, layer, cmds[0]), layer, cmds.drop_first());
    }
}

/// Folds every layer's queued commands into the tile buffer, in insertion
/// order within each layer, and empties each queue: commands are consumed
/// exactly once and never persist across frames.
pub fn process_command_buffer(layers: &mut Vec<Layer>, render_layers: &mut RenderLayers)
    requires
        wf_layers_buffers(old(layers)@, buffers_view(*old(render_layers))),
    ensures
        buffers_view(*final(render_layers)) == process_layers(
            buffers_view(*old(render_layers)),
            old(layers)@,
        ),
        final(layers)@.len() == old(layers)@.len(),
        forall|i: int|
            0 <= i < old(layers)@.len() ==> {
                &&& (#[trigger] final(layers)@[i]).command_buffer@ == Seq::<DrawCommand>::empty()
                &&& final(layers)@[i].background_id == old(layers)@[i].background_id
                &&& final(layers)@[i].foreground_id == old(layers)@[i].foreground_id
                &&& final(layers)@[i].is_transparent == old(layers)@[i].is_transparent
                &&& final(layers)@[i].is_background_transparent == old(
                    layers,
                )@[i].is_background_transparent
                &&& final(layers)@[i].size == old(layers)@[i].size
            },
        wf_layers_buffers(final(layers)@, buffers_view(*final(render_layers))),
{
    let ghost bufs0 = buffers_view(*old(render_layers));
    let n = layers.len();
    let mut li: usize = 0;
    while li < n
        invariant
            n == old(layers)@.len(),
            li <= n,
            layers@.len() == n,
            wf_layers_buffers(old(layers)@, bufs0),
            forall|i: int| li <= i < n ==> #[trigger] layers@[i] == old(layers)@[i],
            forall|i: int|
                0 <= i < li ==> {
                    &&& (#[trigger] layers@[i]).command_buffer@ == Seq::<DrawCommand>::empty()
                    &&& layers@[i].background_id == old(layers)@[i].background_id
                    &&& layers@[i].foreground_id == old(layers)@[i].foreground_id
                    &&& layers@[i].is_transparent == old(layers)@[i].is_transparent
                    &&& layers@[i].is_background_transparent == old(
                        layers,
                    )@[i].is_background_transparent
                    &&& layers@[i].size == old(layers)@[i].size
                },
            buffers_view(*render_layers) == process_layers(bufs0, old(layers)@.take(li as int)),
            buffers_view(*render_layers).len() == bufs0.len(),
            forall|j: int|
                0 <= j < bufs0.len() ==> #[trigger] buffers_view(*render_layers)[j].len()
                    == bufs0[j].len(),
        decreases n - li,
    {
        let ghost bufs_before = buffers_view(*render_layers);
        let ghost layer_spec = layers@[li as int];
        proof {
            assert(layer_spec == old(layers)@[li as int]);
            assert(layer_fits(layer_spec, bufs_before));
        }
        process_one_layer(layers, li, render_layers);
        proof {
            lemma_process_layers_push(bufs0, old(layers)@.take(li as int), layer_spec);
            assert(old(layers)@.take(li as int).push(layer_spec) =~= old(layers)@.take(
                li as int + 1,
            ));
            lemma_apply_commands_lengths(bufs_before, layer_spec, layer_spec.command_buffer@);
        }
        li = li + 1;
    }
    proof {
        assert(old(layers)@.take(n as int) =~= old(layers)@);
    }
}

/// Applies and empties the queue of the layer at `li`.
fn process_one_layer(layers: &mut Vec<Layer>, li: usize, render_layers: &mut RenderLayers)
    requires
        li < old(layers)@.len(),
        old(layers)@[li as int].wf(),
        layer_fits(old(layers)@[li as int], buffers_view(*old(render_layers))),
    ensures
        buffers_view(*final(render_layers)) == apply_commands(
            buffers_view(*old(render_layers)),
            old(layers)@[li as int],
            old(layers)@[li as int].command_buffer@,
        ),
        final(layers)@.len() == old(layers)@.len(),
        forall|i: int|
            0 <= i < old(layers)@.len() && i != li ==> #[trigger] final(layers)@[i] == old(
                layers,
            )@[i],
        final(layers)@[li as int].command_buffer@ == Seq::<DrawCommand>::empty(),
        final(layers)@[li as int].background_id == old(layers)@[li as int].background_id,
        final(layers)@[li as int].foreground_id == old(layers)@[li as int].foreground_id,
        final(layers)@[li as int].is_transparent == old(layers)@[li as int].is_transparent,
        final(layers)@[li as int].is_background_transparent == old(
            layers,
        )@[li as int].is_background_transparent,
        final(layers)@[li as int].size == old(layers)@[li as int].size,
{
    let ghost bufs0 = buffers_view(*old(render_layers));
    let ghost layer_spec = old(layers)@[li as int];
    let ncmd = layers[li].command_buffer.len();
    let mut ci: usize = 0;
    while ci < ncmd
        invariant
            li < layers@.len(),
            layers@ == old(layers)@,
            layer_spec == layers@[li as int],
            layer_spec.wf(),
            ncmd == layer_spec.command_buffer@.len(),
            ci <= ncmd,
            layer_fits(layer_spec, bufs0),
            buffers_view(*render_layers) == apply_commands(
                bufs0,
                layer_spec,
                layer_spec.command_buffer@.take(ci as int),
            ),
        decreases ncmd - ci,
    {
        let ghost bufs_before = buffers_view(*render_layers);
        proof {
            assert forall|k: int| 0 <= k < ci implies command_in_bounds(
                #[trigger] layer_spec.command_buffer@.take(ci as int)[k],
                layer_spec.size,
            ) by {
                assert(layer_spec.command_buffer@.take(ci as int)[k]
                    == layer_spec.command_buffer@[k]);
            }
            lemma_apply_commands_lengths(
                bufs0,
                layer_spec,
                layer_spec.command_buffer@.take(ci as int),
            );
        }
        let cmd = layers[li].command_buffer[ci];
        apply_one_command(layers, li, render_layers, cmd);
        proof {
            lemma_apply_commands_push(
                bufs0,
                layer_spec,
                layer_spec.command_buffer@.take(ci as int),
                cmd,
            );
            assert(layer_spec.command_buffer@.take(ci as int).push(cmd)
                =~= layer_spec.command_buffer@.take(ci as int + 1));
        }
        ci = ci + 1;
    }
    proof {
        assert(layer_spec.command_buffer@.take(ncmd as int) =~= layer_spec.command_buffer@);
    }
    let layer = &mut layers[li];
    layer.command_buffer.clear();
}

/// Writes the effect of one in-bounds command of the layer at `li` into
/// the tile buffer.
fn apply_one_command(
    layers: &mut Vec<Layer>,
    li: usize,
    render_layers: &mut RenderLayers,
    cmd: DrawCommand,
)
    requires
        li < old(layers)@.len(),
        old(layers)@[li as int].wf(),
        command_in_bounds(cmd, old(layers)@[li as int].size),
        layer_fits(old(layers)@[li as int], buffers_view(*old(render_layers))),
    ensures
        final(layers)@ == old(layers)@,
        buffers_view(*final(render_layers)) == apply_command(
            buffers_view(*old(render_layers)),
            old(layers)@[li as int],
            cmd,
        ),
{
    let ghost bufs0 = buffers_view(*old(render_layers));
    let ghost layer_spec = old(layers)@[li as int];
    let background_id = layers[li].background_id as usize;
    let foreground_id = layers[li].foreground_id as usize;
    match cmd {
        DrawCommand::DrawTile { x, y, background, foreground, glyph } => {
            proof {
                lemma_flipped_index_in_bounds(layer_spec.size, x, y);
            }
            let flipped_y = layers[li].size.y - y - 1;
            let index = (flipped_y * layers[li].size.x + x) as usize;
            if !layers[li].is_background_transparent {
                render_layers[background_id][index] = TileRenderData::new(
                    background,
                    BLOCK_GLYPH as char,
                );
            }
            render_layers[foreground_id][index] = TileRenderData::new(foreground, glyph);
            proof {
                assert(buffers_view(*render_layers) =~~= apply_command(bufs0, layer_spec, cmd));
            }
        },
        DrawCommand::ClearLayer { color } => {
            let background_cell = if layers[li].is_transparent {
                TileRenderData::new(color, INVISIBLE_GLYPH as char)
            } else {
                TileRenderData::new(color, BLOCK_GLYPH as char)
            };
            let foreground_cell = TileRenderData::new(color, INVISIBLE_GLYPH as char);
            clear_sub_buffer(render_layers, background_id, background_cell);
            clear_sub_buffer(render_layers, foreground_id, foreground_cell);
            proof {
                assert(buffers_view(*render_layers) =~~= apply_command(bufs0, layer_spec, cmd));
            }
        },
    }
}

/// Sets every cell of one sub-buffer to the given cell.
fn clear_sub_buffer(render_layers: &mut RenderLayers, id: usize, cell: TileRenderData)
    requires
        id < old(render_layers)@.len(),
    ensures
        final(render_layers)@.len() == old(render_layers)@.len(),
        buffers_view(*final(render_layers)) == buffers_view(*old(render_layers)).update(
            id as int,
            Seq::new(buffers_view(*old(render_layers))[id as int].len(), |i: int| cell),
        ),
{
    let len = render_layers[id].len();
    let mut i: usize = 0;
    while i < len
        invariant
            id < render_layers@.len(),
            render_layers@.len() == old(render_layers)@.len(),
            len == old(render_layers)@[id as int]@.len(),
            i <= len,
            render_layers@[id as int]@.len() == len,
            forall|j: int|
                0 <= j < render_layers@.len() && j != id ==> #[trigger] render_layers@[j]
                    == old(render_layers)@[j],
            forall|j: int| 0 <= j < i ==> #[trigger] render_layers@[id as int]@[j] == cell,
            forall|j: int|
                i <= j < len ==> #[trigger] render_layers@[id as int]@[j] == old(
                    render_layers,
                )@[id as int]@[j],
        decreases len - i,
    {
        render_layers[id][i] = cell;
        i = i + 1;
    }
    proof {
        assert(buffers_view(*render_layers) =~~= buffers_view(*old(render_layers)).update(
            id as int,
            Seq::new(buffers_view(*old(render_layers))[id as int].len(), |j: int| cell),
        ));
    }
}

/// Law: an explicit clear is idempotent — clearing a layer twice with the
/// same color leaves the same tile buffer as clearing it once.
pub proof fn lemma_clear_idempotent(bufs: Seq<Seq<TileRenderData>>, layer: Layer, color: Color)
    requires
        layer.background_id < bufs.len(),
        layer.foreground_id < bufs.len(),
        layer.background_id != layer.foreground_id,
    ensures
        apply_command(
            apply_command(bufs, layer, DrawCommand::ClearLayer { color }),
            layer,
            DrawCommand::ClearLayer { color },
        ) == apply_command(bufs, layer, DrawCommand::ClearLayer { color }),
{
    let once = apply_command(bufs, layer, DrawCommand::ClearLayer { color });
    let twice = apply_command(once, layer, DrawCommand::ClearLayer { color });
    assert(once[layer.background_id as int].len() == bufs[layer.background_id as int].len());
    assert(once[layer.foreground_id as int].len() == bufs[layer.foreground_id as int].len());
    assert(twice =~~= once);
}

/// Law: enqueuing a clear twice in one frame, after any earlier commands,
/// processes to the same tile buffer as enqueuing it once.
pub proof fn lemma_clear_twice_equals_once(
    bufs: Seq<Seq<TileRenderData>>,
    layer: Layer,
    earlier: Seq<DrawCommand>,
    color: Color,
)
    requires
        layer_fits(layer, bufs),
        layer.size.x * layer.size.y <= u32::MAX,
        layer.background_id != layer.foreground_id,
        forall|k: int|
            0 <= k < earlier.len() ==> command_in_bounds(#[trigger] earlier[k], layer.size),
    ensures
        apply_commands(
            bufs,
            layer,
            earlier.push(DrawCommand::ClearLayer { color }).push(DrawCommand::ClearLayer { color }),
        ) == apply_commands(bufs, layer, earlier.push(DrawCommand::ClearLayer { color })),
{
    let clear = DrawCommand::ClearLayer { color };
    lemma_apply_commands_lengths(bufs, layer, earlier);
    lemma_apply_commands_push(bufs, layer, earlier, clear);
    lemma_apply_commands_push(bufs, layer, earlier.push(clear), clear);
    lemma_clear_idempotent(apply_commands(bufs, layer, earlier), layer, color);
}

/// Law: within one frame the later of two tile writes at the same position
/// wins — the earlier write leaves no trace in the tile buffer.
pub proof fn lemma_last_write_wins(
    bufs: Seq<Seq<TileRenderData>>,
    layer: Layer,
    x: u32,
    y: u32,
    first: DrawCommand,
    second: DrawCommand,
)
    requires
        layer_fits(layer, bufs),
        layer.size.x * layer.size.y <= u32::MAX,
        layer.background_id != layer.foreground_id,
        x < layer.size.x,
        y < layer.size.y,
        first matches DrawCommand::DrawTile { x: x1, y: y1, .. } && x1 == x && y1 == y,
        second matches DrawCommand::DrawTile { x: x2, y: y2, .. } && x2 == x && y2 == y,
    ensures
        apply_command(apply_command(bufs, layer, first), layer, second) == apply_command(
            bufs,
            layer,
            second,
        ),
{
    lemma_flipped_index_in_bounds(layer.size, x, y);
    lemma_apply_command_lengths(bufs, layer, first);
    assert(apply_command(apply_command(bufs, layer, first), layer, second) =~~= apply_command(
        bufs,
        layer,
        second,
    ));
}

/// Law: enqueuing two tile writes at the same position in one frame, after
/// any earlier commands, processes to the same tile buffer as enqueuing
/// only the second.
pub proof fn lemma_last_write_wins_queue(
    bufs: Seq<Seq<TileRenderData>>,
    layer: Layer,
    earlier: Seq<DrawCommand>,
    x: u32,
    y: u32,
    first: DrawCommand,
    second: DrawCommand,
)
    requires
        layer_fits(layer, bufs),
        layer.size.x * layer.size.y <= u32::MAX,
        layer.background_id != layer.foreground_id,
        x < layer.size.x,
        y < layer.size.y,
        first matches DrawCommand::DrawTile { x: x1, y: y1, .. } && x1 == x && y1 == y,
        second matches DrawCommand::DrawTile { x: x2, y: y2, .. } && x2 == x && y2 == y,
        forall|k: int|
            0 <= k < earlier.len() ==> command_in_bounds(#[trigger] earlier[k], layer.size),
    ensures
        apply_commands(bufs, layer, earlier.push(first).push(second)) == apply_commands(
            bufs,
            layer,
            earlier.push(second),
        ),
{
    lemma_apply_commands_lengths(bufs, layer, earlier);
    lemma_apply_commands_push(bufs, layer, earlier, first);
    lemma_apply_commands_push(bufs, layer, earlier.push(first), second);
    lemma_apply_commands_push(bufs, layer, earlier, second);
    lemma_last_write_wins(apply_commands(bufs, layer, earlier), layer, x, y, first, second);
}

/// Law: after a clear, every background cell holds the clear color under
/// the solid block glyph — or the invisible glyph if the layer is
/// transparent — and every foreground cell holds the clear color under the
/// invisible glyph.
pub proof fn lemma_clear_cell_values(
    bufs: Seq<Seq<TileRenderData>>,
    layer: Layer,
    color: Color,
    i: int,
)
    requires
        layer_fits(layer, bufs),
        layer.background_id != layer.foreground_id,
        0 <= i < layer.cell_count(),
    ensures
        apply_command(bufs, layer, DrawCommand::ClearLayer { color })[layer.background_id as int][i]
            == cleared_background_cell(layer, color),
        apply_command(bufs, layer, DrawCommand::ClearLayer { color })[layer.foreground_id as int][i]
            == cleared_foreground_cell(color),
        !layer.is_transparent ==> apply_command(
            bufs,
            layer,
            DrawCommand::ClearLayer { color },
        )[layer.background_id as int][i].glyph == BLOCK_GLYPH as char,
        layer.is_transparent ==> apply_command(
            bufs,
            layer,
            DrawCommand::ClearLayer { color },
        )[layer.background_id as int][i].glyph == INVISIBLE_GLYPH as char,
{
}

/// Law: a tile write at `(x, y)` lands in the vertically flipped row — on
/// a layer of height `h`, row `0` is stored in row `h - 1` and row `h - 1`
/// in row `0`.
pub proof fn lemma_vertical_flip(size: UVec2, x: u32, y: u32)
    requires
        x < size.x,
        y < size.y,
    ensures
        flipped_index(size, x, y) == (size.y - 1 - y) * size.x + x,
        y == 0 ==> flipped_index(size, x, y) == (size.y - 1) * size.x + x,
        y == size.y - 1 ==> flipped_index(size, x, y) == x,
{
    assert((0int) * (size.x as int) == 0) by (nonlinear_arith);
}

} // verus!
