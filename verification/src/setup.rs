//! Initialization: allocates the tile buffer — two sub-buffers per declared
//! layer, each one invisible cell per tile — and tags every displayed tile
//! once with its precomputed buffer lookup, so that the per-frame differ
//! does no coordinate math.

use vstd::prelude::*;

use crate::builder::TilemapBuilder;
use crate::layer::{Layer, wf_layers_buffers};
use crate::render::{RenderLayers, TileData, TileRenderData, buffers_view};

verus! {

/// The cell every sub-buffer starts from: black, glyph code zero.
pub open spec fn invisible_cell() -> TileRenderData {
    TileRenderData {
        color: (crate::color::Color { r: 0u8, g: 0u8, b: 0u8, a: 255u8 }),
        glyph: 0u8 as char,
    }
}

/// A vector of `count` copies of `cell`.
fn filled_cells(count: usize, cell: TileRenderData) -> (v: Vec<TileRenderData>)
    ensures
        v@.len() == count,
        forall|i: int| 0 <= i < count ==> v@[i] == cell,
{
    let mut v: Vec<TileRenderData> = Vec::new();
    let mut i: usize = 0;
    while i < count
        invariant
            i <= count,
            v@.len() == i,
            forall|j: int| 0 <= j < i ==> v@[j] == cell,
        decreases count - i,
    {
        v.push(cell);
        i = i + 1;
    }
    v
}

/// Whether a set of layer declarations can be set up: every size is
/// declared and fits, ids are the positions in declaration order, and the
/// paired sub-buffer ids fit `u16`.
pub open spec fn builder_ready(builder: TilemapBuilder) -> bool {
    &&& builder.layers@.len() >= 1
    &&& builder.layers@.len() <= 32768
    &&& forall|i: int|
        0 <= i < builder.layers@.len() ==> {
            &&& (#[trigger] builder.layers@[i]).size is Some
            &&& builder.layers@[i].id == i
            &&& builder.layers@[i].size->0.x * builder.layers@[i].size->0.y <= u32::MAX
        }
}

/// Builds the declared layers and allocates the tile buffer: for layer `i`
/// the background sub-buffer `2 * i` and the foreground sub-buffer
/// `2 * i + 1`, each with one invisible cell per tile.
pub fn setup(tilemap_builder: &TilemapBuilder) -> (r: (Vec<Layer>, RenderLayers))
    requires
        builder_ready(*tilemap_builder),
    ensures
        r.0@.len() == tilemap_builder.layers@.len(),
        forall|i: int|
            0 <= i < r.0@.len() ==> {
                &&& (#[trigger] r.0@[i]).wf()
                &&& r.0@[i].background_id == 2 * i
                &&& r.0@[i].foreground_id == 2 * i + 1
                &&& r.0@[i].size == tilemap_builder.layers@[i].size->0
                &&& r.0@[i].is_transparent == tilemap_builder.layers@[i].is_transparent
                &&& r.0@[i].is_background_transparent == tilemap_builder.layers@[i].is_background_transparent
                &&& r.0@[i].command_buffer@ == Seq::<crate::layer::DrawCommand>::empty()
            },
        buffers_view(r.1).len() == 2 * tilemap_builder.layers@.len(),
        forall|j: int|
            0 <= j < buffers_view(r.1).len() ==> {
                &&& (#[trigger] buffers_view(r.1)[j]).len() == r.0@[j / 2].cell_count()
                &&& forall|k: int| 0 <= k < buffers_view(r.1)[j].len() ==> buffers_view(r.1)[j][k]
                    == invisible_cell()
            },
        wf_layers_buffers(r.0@, buffers_view(r.1)),
{
    let n = tilemap_builder.layers.len();
    let mut layers: Vec<Layer> = Vec::new();
    let mut render_layers: RenderLayers = Vec::new();
    let mut i: usize = 0;
    while i < n
        invariant
            n == tilemap_builder.layers@.len(),
            builder_ready(*tilemap_builder),
            i <= n,
            layers@.len() == i,
            render_layers@.len() == 2 * i,
            forall|l: int|
                0 <= l < i ==> {
                    &&& (#[trigger] layers@[l]).wf()
                    &&& layers@[l].background_id == 2 * l
                    &&& layers@[l].foreground_id == 2 * l + 1
                    &&& layers@[l].size == tilemap_builder.layers@[l].size->0
                    &&& layers@[l].is_transparent == tilemap_builder.layers@[l].is_transparent
                    &&& layers@[l].is_background_transparent == tilemap_builder.layers@[l].is_background_transparent
                    &&& layers@[l].command_buffer@ == Seq::<crate::layer::DrawCommand>::empty()
                },
            forall|j: int|
                0 <= j < 2 * i ==> {
                    &&& (#[trigger] render_layers@[j])@.len() == layers@[j / 2].cell_count()
                    &&& forall|k: int| 0 <= k < render_layers@[j]@.len() ==> render_layers@[j]@[k]
                        == invisible_cell()
                },
        decreases n - i,
    {
        let layer = tilemap_builder.layers[i].build_layer();
        proof {
            assert((layer.size.x as int) * (layer.size.y as int) <= u32::MAX);
            assert(layer.size.x * layer.size.y <= u32::MAX) by (nonlinear_arith)
                requires
                    (layer.size.x as int) * (layer.size.y as int) <= u32::MAX,
            ;
        }
        let count = (layer.size.x * layer.size.y) as usize;
        let background_cells = filled_cells(count, TileRenderData::default());
        let foreground_cells = filled_cells(count, TileRenderData::default());
        render_layers.push(background_cells);
        render_layers.push(foreground_cells);
        layers.push(layer);
        i = i + 1;
    }
    (layers, render_layers)
}

/// Where the displayed tiles of the first `i` layers end: two sub-buffers
/// of one entry per cell for each layer.
pub open spec fn tiles_offset(layers: Seq<Layer>, i: int) -> int
    decreases i,
{
    if i <= 0 {
        0
    } else {
        tiles_offset(layers, i - 1) + 2 * layers[i - 1].cell_count()
    }
}

/// Slot `base + k` of the displayed tiles holds the invisible cell tagged
/// with cell `k` of sub-buffer `id`, whose chunk is the sub-buffer itself.
pub open spec fn tagged_at(
    tiles: Seq<(TileRenderData, TileData)>,
    base: int,
    k: int,
    id: u16,
) -> bool {
    tiles[base + k] == (invisible_cell(), (TileData {
        index: k as usize,
        layer_id: id as usize,
        chunk: id as u32,
    }))
}

/// The displayed tiles of layer `i` are tagged: its background sub-buffer
/// cell by cell from `tiles_offset(layers, i)`, then its foreground
/// sub-buffer.
pub open spec fn tiles_tagged_for(
    tiles: Seq<(TileRenderData, TileData)>,
    layers: Seq<Layer>,
    i: int,
    k: int,
) -> bool {
    &&& tagged_at(tiles, tiles_offset(layers, i), k, layers[i].background_id)
    &&& tagged_at(
        tiles,
        tiles_offset(layers, i) + layers[i].cell_count(),
        k,
        layers[i].foreground_id,
    )
}

/// Each layer's cells take a non-negative stretch of the displayed tiles,
/// so offsets never decrease.
pub proof fn lemma_tiles_offset_mono(layers: Seq<Layer>, a: int, b: int)
    requires
        0 <= a <= b <= layers.len(),
        forall|l: int| 0 <= l < layers.len() ==> (#[trigger] layers[l]).wf(),
    ensures
        tiles_offset(layers, a) <= tiles_offset(layers, b),
        a < b ==> tiles_offset(layers, a) + 2 * layers[a].cell_count() <= tiles_offset(layers, b),
    decreases b - a,
{
    if a < b {
        assert(layers[b - 1].wf());
        assert(layers[b - 1].cell_count() >= 0) by (nonlinear_arith);
        lemma_tiles_offset_mono(layers, a, b - 1);
        if a < b - 1 {
        } else {
            assert(tiles_offset(layers, b) == tiles_offset(layers, a) + 2 * layers[
                a
            ].cell_count());
        }
    }
}

/// Tags every displayed tile with its buffer lookup, layer by layer: for
/// each layer first its background sub-buffer's tiles in cell order, then
/// its foreground sub-buffer's, every tile starting invisible, with the
/// owning chunk equal to the sub-buffer id — one chunk per sub-buffer.
pub fn setup_tiles(layers: &Vec<Layer>) -> (tiles: Vec<(TileRenderData, TileData)>)
    requires
        forall|i: int| 0 <= i < layers@.len() ==> (#[trigger] layers@[i]).wf(),
    ensures
        tiles@.len() == tiles_offset(layers@, layers@.len() as int),
        forall|i: int, k: int|
            0 <= i < layers@.len() && 0 <= k < layers@[i].cell_count()
                ==> #[trigger] tiles_tagged_for(tiles@, layers@, i, k),
{
    let n = layers.len();
    let mut tiles: Vec<(TileRenderData, TileData)> = Vec::new();
    let mut i: usize = 0;
    while i < n
        invariant
            n == layers@.len(),
            forall|l: int| 0 <= l < n ==> (#[trigger] layers@[l]).wf(),
            i <= n,
            tiles@.len() == tiles_offset(layers@, i as int),
            forall|l: int, k2: int|
                0 <= l < i && 0 <= k2 < layers@[l].cell_count() ==> #[trigger] tiles_tagged_for(
                    tiles@,
                    layers@,
                    l,
                    k2,
                ),
        decreases n - i,
    {
        let layer = &layers[i];
        proof {
            assert((layer.size.x as int) * (layer.size.y as int) <= u32::MAX);
            assert(layer.size.x * layer.size.y <= u32::MAX) by (nonlinear_arith)
                requires
                    (layer.size.x as int) * (layer.size.y as int) <= u32::MAX,
            ;
        }
        let count = (layer.size.x * layer.size.y) as usize;
        let background_id = layer.background_id;
        let foreground_id = layer.foreground_id;
        let ghost tiles_before = tiles@;
        let ghost offset = tiles_offset(layers@, i as int);
        let mut k: usize = 0;
        while k < count
            invariant
                n == layers@.len(),
                i < n,
                forall|l: int| 0 <= l < n ==> (#[trigger] layers@[l]).wf(),
                count == layers@[i as int].cell_count(),
                background_id == layers@[i as int].background_id,
                k <= count,
                offset == tiles_offset(layers@, i as int),
                tiles_before == tiles@.take(offset),
                offset == tiles_before.len(),
                tiles@.len() == offset + k,
                forall|k2: int|
                    0 <= k2 < k ==> #[trigger] tagged_at(tiles@, offset, k2, background_id),
            decreases count - k,
        {
            let ghost tiles_at = tiles@;
            tiles.push(
                (
                    TileRenderData::default(),
                    TileData {
                        index: k,
                        layer_id: background_id as usize,
                        chunk: background_id as u32,
                    },
                ),
            );
            proof {
                assert(tiles@.take(offset) =~= tiles_before);
                assert(tagged_at(tiles@, offset, k as int, background_id));
                assert forall|k2: int| 0 <= k2 < k + 1 implies #[trigger] tagged_at(
                    tiles@,
                    offset,
                    k2,
                    background_id,
                ) by {
                    if k2 < k {
                        assert(tagged_at(tiles_at, offset, k2, background_id));
                        assert(tiles@[offset + k2] == tiles_at[offset + k2]);
                    }
                }
            }
            k = k + 1;
        }
        let ghost foreground_base = offset + count;
        let mut k: usize = 0;
        while k < count
            invariant
                n == layers@.len(),
                i < n,
                forall|l: int| 0 <= l < n ==> (#[trigger] layers@[l]).wf(),
                count == layers@[i as int].cell_count(),
                background_id == layers@[i as int].background_id,
                foreground_id == layers@[i as int].foreground_id,
                k <= count,
                offset == tiles_offset(layers@, i as int),
                tiles_before == tiles@.take(offset),
                offset == tiles_before.len(),
                foreground_base == offset + count,
                tiles@.len() == foreground_base + k,
                forall|k2: int|
                    0 <= k2 < count ==> #[trigger] tagged_at(tiles@, offset, k2, background_id),
                forall|k2: int|
                    0 <= k2 < k ==> #[trigger] tagged_at(tiles@, foreground_base, k2, foreground_id),
            decreases count - k,
        {
            let ghost tiles_at = tiles@;
            tiles.push(
                (
                    TileRenderData::default(),
                    TileData {
                        index: k,
                        layer_id: foreground_id as usize,
                        chunk: foreground_id as u32,
                    },
                ),
            );
            proof {
                assert(tiles@.take(offset) =~= tiles_before);
                assert(tagged_at(tiles@, foreground_base, k as int, foreground_id));
                assert forall|k2: int| 0 <= k2 < count implies #[trigger] tagged_at(
                    tiles@,
                    offset,
                    k2,
                    background_id,
                ) by {
                    assert(tagged_at(tiles_at, offset, k2, background_id));
                    assert(tiles@[offset + k2] == tiles_at[offset + k2]);
                }
                assert forall|k2: int| 0 <= k2 < k + 1 implies #[trigger] tagged_at(
                    tiles@,
                    foreground_base,
                    k2,
                    foreground_id,
                ) by {
                    if k2 < k {
                        assert(tagged_at(tiles_at, foreground_base, k2, foreground_id));
                        assert(tiles@[foreground_base + k2] == tiles_at[foreground_base + k2]);
                    }
                }
            }
            k = k + 1;
        }
        proof {
            assert(tiles@.len() == tiles_offset(layers@, i as int + 1));
            assert forall|l: int, k2: int|
                0 <= l < i + 1 && 0 <= k2 < layers@[l].cell_count()
                    implies #[trigger] tiles_tagged_for(tiles@, layers@, l, k2) by {
                if l < i {
                    assert(tiles_tagged_for(tiles_before, layers@, l, k2));
                    lemma_tiles_offset_mono(layers@, 0, l);
                    lemma_tiles_offset_mono(layers@, l + 1, i as int);
                    assert(tiles_offset(layers@, l) + 2 * layers@[l].cell_count() <= offset) by {
                        lemma_tiles_offset_mono(layers@, l, l + 1);
                        assert(tiles_offset(layers@, l + 1) == tiles_offset(layers@, l) + 2
                            * layers@[l].cell_count());
                    }
                    assert(layers@[l].cell_count() >= 0) by (nonlinear_arith)
                        requires
                            layers@[l].cell_count() == layers@[l].size.x * layers@[l].size.y,
                    ;
                    assert(tiles@[tiles_offset(layers@, l) + k2] == tiles_before[tiles_offset(
                        layers@,
                        l,
                    ) + k2]);
                    assert(tiles@[tiles_offset(layers@, l) + layers@[l].cell_count() + k2]
                        == tiles_before[tiles_offset(layers@, l) + layers@[l].cell_count() + k2]);
                } else {
                    assert(tagged_at(tiles@, offset, k2, background_id));
                    assert(tagged_at(tiles@, foreground_base, k2, foreground_id));
                }
            }
        }
        i = i + 1;
    }
    tiles
}

} // verus!
