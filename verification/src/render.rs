//! The authoritative tile state and the frame differ: each sub-buffer holds
//! one cell per tile, and [`render`] writes only the cells whose displayed
//! value no longer matches, collecting each affected chunk exactly once.

use vstd::prelude::*;

use crate::color::Color;

verus! {

/// One cell of the tile buffer: a color and a glyph code.
#[derive(Debug, Clone, Copy, PartialEq, Eq, Structural)]
pub struct TileRenderData {
    pub color: Color,
    pub glyph: char,
}

impl TileRenderData {
    pub fn new(color: Color, glyph: char) -> (t: TileRenderData)
        ensures
            t == (TileRenderData { color, glyph }),
    {
        TileRenderData { color, glyph }
    }
}

impl Default for TileRenderData {
    /// The invisible cell: black, glyph code zero.
    fn default() -> (t: TileRenderData)
        ensures
            t == (TileRenderData {
                color: Color { r: 0u8, g: 0u8, b: 0u8, a: 255u8 },
                glyph: 0u8 as char,
            }),
    {
        TileRenderData::new(Color::black(), 0u8 as char)
    }
}

/// All sub-buffers, indexed by sub-buffer id; each holds one cell per tile
/// position of its layer, row-major.
pub type RenderLayers = Vec<Vec<TileRenderData>>;

/// The precomputed lookup for one displayed tile: where its cell lives in
/// the tile buffer, and which chunk must be re-uploaded when it changes.
#[derive(Debug, Clone, Copy, PartialEq, Eq, Structural)]
pub struct TileData {
    /// Position of the tile's cell within its sub-buffer.
    pub index: usize,
    /// The sub-buffer the tile displays.
    pub layer_id: usize,
    /// The chunk the tile belongs to.
    pub chunk: u32,
}

/// The mathematical value of the tile buffer: one sequence of cells per
/// sub-buffer.
pub open spec fn buffers_view(render_layers: RenderLayers) -> Seq<Seq<TileRenderData>> {
    Seq::new(render_layers@.len(), |i: int| render_layers@[i]@)
}

/// Whether every displayed tile's lookup stays within the tile buffer.
pub open spec fn tiles_in_bounds(tiles: Seq<(TileRenderData, TileData)>, bufs: Seq<Seq<TileRenderData>>) -> bool {
    forall|i: int|
        0 <= i < tiles.len() ==> {
            &&& (#[trigger] tiles[i]).1.layer_id < bufs.len()
            &&& tiles[i].1.index < bufs[tiles[i].1.layer_id as int].len()
        }
}

/// The buffer cell a displayed tile should show.
pub open spec fn buffer_cell(tiles: Seq<(TileRenderData, TileData)>, bufs: Seq<Seq<TileRenderData>>, i: int) -> TileRenderData {
    bufs[tiles[i].1.layer_id as int][tiles[i].1.index as int]
}

/// Whether displayed tile `i` differs from the buffer cell it should show.
pub open spec fn tile_changed(tiles: Seq<(TileRenderData, TileData)>, bufs: Seq<Seq<TileRenderData>>, i: int) -> bool {
    tiles[i].0 != buffer_cell(tiles, bufs, i)
}

/// Returns true if the sequence holds the value.
fn contains_u32(v: &Vec<u32>, x: u32) -> (r: bool)
    ensures
        r == v@.contains(x),
{
    let n = v.len();
    let mut i: usize = 0;
    while i < n
        invariant
            n == v@.len(),
            i <= n,
            forall|j: int| 0 <= j < i ==> v@[j] != x,
        decreases n - i,
    {
        if v[i] == x {
            return true;
        }
        i = i + 1;
    }
    false
}

/// Synchronizes the displayed tiles with the tile buffer: every tile whose
/// displayed cell differs from its buffer cell is overwritten, and the chunk
/// of every such tile is collected once — a chunk none of whose tiles
/// changed is not collected, and no chunk is collected twice.
pub fn render(tiles: &mut Vec<(TileRenderData, TileData)>, render_layers: &RenderLayers) -> (dirty:
    Vec<u32>)
    requires
        tiles_in_bounds(old(tiles)@, buffers_view(*render_layers)),
    ensures
        final(tiles)@.len() == old(tiles)@.len(),
        forall|i: int|
            0 <= i < old(tiles)@.len() ==> (#[trigger] final(tiles)@[i]).0 == buffer_cell(
                old(tiles)@,
                buffers_view(*render_layers),
                i,
            ) && final(tiles)@[i].1 == old(tiles)@[i].1,
        forall|i: int, j: int| 0 <= i < j < dirty@.len() ==> dirty@[i] != dirty@[j],
        forall|c: u32|
            dirty@.contains(c) <==> exists|i: int|
                0 <= i < old(tiles)@.len() && (#[trigger] old(tiles)@[i]).1.chunk == c
                    && tile_changed(old(tiles)@, buffers_view(*render_layers), i),
{
    let ghost bufs = buffers_view(*render_layers);
    let mut dirty: Vec<u32> = Vec::new();
    let n = tiles.len();
    let mut i: usize = 0;
    while i < n
        invariant
            tiles@.len() == old(tiles)@.len(),
            n == old(tiles)@.len(),
            i <= n,
            bufs == buffers_view(*render_layers),
            tiles_in_bounds(old(tiles)@, bufs),
            forall|k: int|
                0 <= k < i ==> (#[trigger] tiles@[k]).0 == buffer_cell(old(tiles)@, bufs, k)
                    && tiles@[k].1 == old(tiles)@[k].1,
            forall|k: int| i <= k < n ==> #[trigger] tiles@[k] == old(tiles)@[k],
            forall|p: int, q: int| 0 <= p < q < dirty@.len() ==> dirty@[p] != dirty@[q],
            forall|c: u32|
                dirty@.contains(c) <==> exists|k: int|
                    0 <= k < i && (#[trigger] old(tiles)@[k]).1.chunk == c && tile_changed(
                        old(tiles)@,
                        bufs,
                        k,
                    ),
        decreases n - i,
    {
        let ghost dirty_before = dirty@;
        let data = tiles[i].1;
        let cell = render_layers[data.layer_id][data.index];
        proof {
            assert(bufs[data.layer_id as int] == render_layers@[data.layer_id as int]@);
            assert(cell == buffer_cell(old(tiles)@, bufs, i as int));
        }
        if tiles[i].0 != cell {
            tiles[i].0 = cell;
            proof {
                assert(tile_changed(old(tiles)@, bufs, i as int));
            }
            if !contains_u32(&dirty, data.chunk) {
                dirty.push(data.chunk);
                proof {
                    assert(dirty@[dirty@.len() - 1] == data.chunk);
                    assert(dirty@.contains(data.chunk));
                    assert forall|c: u32| dirty@.contains(c) implies (exists|k: int|
                        0 <= k < i + 1 && (#[trigger] old(tiles)@[k]).1.chunk == c && tile_changed(
                            old(tiles)@,
                            bufs,
                            k,
                        )) by {
                        let p = choose|p: int| 0 <= p < dirty@.len() && dirty@[p] == c;
                        if p < dirty@.len() - 1 {
                            assert(dirty_before.contains(c));
                        } else {
                            assert(c == data.chunk);
                            assert(old(tiles)@[i as int].1.chunk == c && tile_changed(
                                old(tiles)@,
                                bufs,
                                i as int,
                            ));
                        }
                    }
                    assert forall|c: u32| (exists|k: int|
                        0 <= k < i + 1 && (#[trigger] old(tiles)@[k]).1.chunk == c && tile_changed(
                            old(tiles)@,
                            bufs,
                            k,
                        )) implies dirty@.contains(c) by {
                        let k = choose|k: int|
                            0 <= k < i + 1 && (#[trigger] old(tiles)@[k]).1.chunk == c
                                && tile_changed(old(tiles)@, bufs, k);
                        if k < i {
                            assert(dirty_before.contains(c));
                            let p = choose|p: int|
                                0 <= p < dirty_before.len() && dirty_before[p] == c;
                            assert(dirty@[p] == c);
                        } else {
                            assert(c == data.chunk);
                        }
                    }
                }
            } else {
                proof {
                    assert forall|c: u32| (exists|k: int|
                        0 <= k < i + 1 && (#[trigger] old(tiles)@[k]).1.chunk == c && tile_changed(
                            old(tiles)@,
                            bufs,
                            k,
                        )) implies dirty@.contains(c) by {
                        let k = choose|k: int|
                            0 <= k < i + 1 && (#[trigger] old(tiles)@[k]).1.chunk == c
                                && tile_changed(old(tiles)@, bufs, k);
                        if k == i {
                            assert(c == data.chunk);
                        }
                    }
                }
            }
        } else {
            proof {
                assert(!tile_changed(old(tiles)@, bufs, i as int));
                assert forall|c: u32| (exists|k: int|
                    0 <= k < i + 1 && (#[trigger] old(tiles)@[k]).1.chunk == c && tile_changed(
                        old(tiles)@,
                        bufs,
                        k,
                    )) implies dirty@.contains(c) by {
                    let k = choose|k: int|
                        0 <= k < i + 1 && (#[trigger] old(tiles)@[k]).1.chunk == c && tile_changed(
                            old(tiles)@,
                            bufs,
                            k,
                        );
                    assert(k < i);
                }
            }
        }
        i = i + 1;
    }
    dirty
}

} // verus!
