//! The configuration surface for declaring layers at startup: each layer
//! declaration carries a texture path, a tile-grid size, a per-tile pixel
//! size, a tilesheet size and the two transparency flags, and builds into
//! a [`Layer`] with its paired sub-buffer ids.

use vstd::prelude::*;

use crate::geometry::UVec2;
use crate::layer::Layer;

verus! {

/// The declaration of one layer, gathered by its setter calls.
#[derive(Debug)]
pub struct LayerDataBuilder {
    /// Path of the tilesheet texture the layer is drawn with.
    pub texture_path: Option<String>,
    /// Size in tiles.
    pub size: Option<UVec2>,
    /// Size of one tile, in pixels.
    pub tile_size: Option<UVec2>,
    /// Size of the tilesheet, in tiles.
    pub tilesheet_size: Option<UVec2>,
    /// The layer id; sub-buffers `2 * id` and `2 * id + 1` belong to it.
    pub id: u16,
    /// Whether an explicit clear leaves the background invisible.
    pub is_transparent: bool,
    /// Whether drawing a glyph skips writing a background cell.
    pub is_background_transparent: bool,
}

/// Whether two layer declarations agree on everything but one replaced
/// field is spelled out by the setters below; the builder itself has no
/// hidden state.
impl LayerDataBuilder {
    /// A declaration for layer `id`: nothing set yet except the default
    /// 16 x 16 tilesheet, both transparency flags off.
    pub fn new(id: u16) -> (b: LayerDataBuilder)
        ensures
            b.texture_path is None,
            b.size is None,
            b.tile_size is None,
            b.tilesheet_size == Some(UVec2 { x: 16u32, y: 16u32 }),
            b.id == id,
            !b.is_transparent,
            !b.is_background_transparent,
    {
        LayerDataBuilder {
            texture_path: None,
            size: None,
            tile_size: None,
            tilesheet_size: Some(UVec2::new(16, 16)),
            id,
            is_transparent: false,
            is_background_transparent: false,
        }
    }

    /// Sets the texture path.
    pub fn texture_path(self, path: &str) -> (b: LayerDataBuilder)
        ensures
            b.texture_path matches Some(p) && p@ == path@,
            b.size == self.size,
            b.tile_size == self.tile_size,
            b.tilesheet_size == self.tilesheet_size,
            b.id == self.id,
            b.is_transparent == self.is_transparent,
            b.is_background_transparent == self.is_background_transparent,
    {
        LayerDataBuilder { texture_path: Some(path.to_owned()), ..self }
    }

    /// Sets the size in tiles.
    pub fn size(self, width: u32, height: u32) -> (b: LayerDataBuilder)
        ensures
            b.size == Some(UVec2 { x: width, y: height }),
            b.texture_path == self.texture_path,
            b.tile_size == self.tile_size,
            b.tilesheet_size == self.tilesheet_size,
            b.id == self.id,
            b.is_transparent == self.is_transparent,
            b.is_background_transparent == self.is_background_transparent,
    {
        LayerDataBuilder { size: Some(UVec2::new(width, height)), ..self }
    }

    /// Sets the pixel size of one tile.
    pub fn tile_size(self, width: u32, height: u32) -> (b: LayerDataBuilder)
        ensures
            b.tile_size == Some(UVec2 { x: width, y: height }),
            b.texture_path == self.texture_path,
            b.size == self.size,
            b.tilesheet_size == self.tilesheet_size,
            b.id == self.id,
            b.is_transparent == self.is_transparent,
            b.is_background_transparent == self.is_background_transparent,
    {
        LayerDataBuilder { tile_size: Some(UVec2::new(width, height)), ..self }
    }

    /// Sets the tilesheet size, in tiles.
    pub fn tilesheet_size(self, width: u32, height: u32) -> (b: LayerDataBuilder)
        ensures
            b.tilesheet_size == Some(UVec2 { x: width, y: height }),
            b.texture_path == self.texture_path,
            b.size == self.size,
            b.tile_size == self.tile_size,
            b.id == self.id,
            b.is_transparent == self.is_transparent,
            b.is_background_transparent == self.is_background_transparent,
    {
        LayerDataBuilder { tilesheet_size: Some(UVec2::new(width, height)), ..self }
    }

    /// Sets whether a clear leaves the background invisible.
    pub fn is_transparent(self, is_transparent: bool) -> (b: LayerDataBuilder)
        ensures
            b.is_transparent == is_transparent,
            b.texture_path == self.texture_path,
            b.size == self.size,
            b.tile_size == self.tile_size,
            b.tilesheet_size == self.tilesheet_size,
            b.id == self.id,
            b.is_background_transparent == self.is_background_transparent,
    {
        LayerDataBuilder { is_transparent, ..self }
    }

    /// Sets whether glyph writes skip the background cell.
    pub fn is_background_transparent(self, is_background_transparent: bool) -> (b:
        LayerDataBuilder)
        ensures
            b.is_background_transparent == is_background_transparent,
            b.texture_path == self.texture_path,
            b.size == self.size,
            b.tile_size == self.tile_size,
            b.tilesheet_size == self.tilesheet_size,
            b.id == self.id,
            b.is_transparent == self.is_transparent,
    {
        LayerDataBuilder { is_background_transparent, ..self }
    }

    /// The built layer of this declaration: paired sub-buffer ids, the
    /// declared size, an empty command queue. An unset size is a fatal
    /// configuration error and is excluded by contract.
    pub fn build_layer(&self) -> (layer: Layer)
        requires
            self.size is Some,
            2 * self.id + 1 <= u16::MAX,
            self.size->0.x * self.size->0.y <= u32::MAX,
        ensures
            layer.wf(),
            layer.background_id == 2 * self.id,
            layer.foreground_id == 2 * self.id + 1,
            layer.is_transparent == self.is_transparent,
            layer.is_background_transparent == self.is_background_transparent,
            layer.size == self.size->0,
            layer.command_buffer@ == Seq::<crate::layer::DrawCommand>::empty(),
    {
        let size = match &self.size {
            Some(s) => *s,
            None => UVec2::new(0, 0),
        };
        Layer {
            background_id: self.id * 2,
            foreground_id: self.id * 2 + 1,
            command_buffer: Vec::new(),
            size,
            is_background_transparent: self.is_background_transparent,
            is_transparent: self.is_transparent,
        }
    }
}

/// The layer declarations a tilemap is set up from, in layer-id order.
#[derive(Debug)]
pub struct TilemapBuilder {
    /// One declaration per layer.
    pub layers: Vec<LayerDataBuilder>,
}

impl TilemapBuilder {
    /// A builder with no layers declared.
    pub fn new() -> (b: TilemapBuilder)
        ensures
            b.layers@ == Seq::<LayerDataBuilder>::empty(),
    {
        TilemapBuilder { layers: Vec::new() }
    }

    /// Declares one more layer.
    pub fn with_layer(self, layer: LayerDataBuilder) -> (b: TilemapBuilder)
        ensures
            b.layers@ == self.layers@.push(layer),
    {
        let mut layers = self.layers;
        layers.push(layer);
        TilemapBuilder { layers }
    }

    /// The finished builder.
    pub fn build(self) -> (b: TilemapBuilder)
        ensures
            b == self,
    {
        self
    }
}

} // verus!
