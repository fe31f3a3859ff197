use ascii_tilemap::builder::{LayerDataBuilder, TilemapBuilder};
use ascii_tilemap::camera::Camera;
use ascii_tilemap::color::GlyphColor;
use ascii_tilemap::components::{Position, Render};
use ascii_tilemap::entity_render::entity_render;
use ascii_tilemap::geometry::{IVec2, UVec2};
use ascii_tilemap::color::Color;
use ascii_tilemap::draw_context::DrawContext;
use ascii_tilemap::layer::process_command_buffer;
use ascii_tilemap::render::render;
use ascii_tilemap::setup::{setup, setup_tiles};

fn pipeline(width: u32, height: u32) -> (DrawContext, ascii_tilemap::render::RenderLayers, Vec<(ascii_tilemap::render::TileRenderData, ascii_tilemap::render::TileData)>) {
    let builder = TilemapBuilder::new()
        .with_layer(
            LayerDataBuilder::new(0)
                .texture_path("tilesheet.png")
                .size(width, height)
                .tile_size(16, 16),
        )
        .build();
    let (layers, buffers) = setup(&builder);
    let tiles = setup_tiles(&layers);
    (DrawContext::new(layers), buffers, tiles)
}

#[test]
fn setup_allocates_two_sub_buffers_per_layer() {
    let (_, buffers, tiles) = pipeline(8, 4);
    assert_eq!(buffers.len(), 2);
    assert_eq!(buffers[0].len(), 32);
    assert_eq!(buffers[1].len(), 32);
    // one displayed tile per cell of each sub-buffer
    assert_eq!(tiles.len(), 64);
    // the first background tile and the first foreground tile
    assert_eq!(tiles[0].1.index, 0);
    assert_eq!(tiles[0].1.layer_id, 0);
    assert_eq!(tiles[0].1.chunk, 0);
    assert_eq!(tiles[32].1.index, 0);
    assert_eq!(tiles[32].1.layer_id, 1);
    assert_eq!(tiles[32].1.chunk, 1);
}

#[test]
fn unchanged_frame_marks_no_chunk_dirty() {
    let (_, buffers, mut tiles) = pipeline(8, 4);
    let dirty = render(&mut tiles, &buffers);
    assert!(dirty.is_empty());
}

#[test]
fn one_changed_tile_marks_its_chunk_dirty_exactly_once() {
    let (mut ctx, mut buffers, mut tiles) = pipeline(8, 4);
    ctx.set(1, 1, Color::black(), Color::white(), 'A');
    process_command_buffer(&mut ctx.layers, &mut buffers);
    let dirty = render(&mut tiles, &buffers);
    // the write touched both the background (chunk 0) and foreground
    // (chunk 1) sub-buffers; each dirty chunk appears exactly once
    let mut sorted = dirty.clone();
    sorted.sort_unstable();
    assert_eq!(sorted, vec![0, 1]);

    // a second sweep with no further changes marks nothing
    let dirty_again = render(&mut tiles, &buffers);
    assert!(dirty_again.is_empty());
}

#[test]
fn many_changed_tiles_in_one_chunk_mark_it_once() {
    let (mut ctx, mut buffers, mut tiles) = pipeline(8, 4);
    ctx.print(0, 0, "abcdef");
    process_command_buffer(&mut ctx.layers, &mut buffers);
    let dirty = render(&mut tiles, &buffers);
    let mut sorted = dirty.clone();
    sorted.sort_unstable();
    assert_eq!(sorted, vec![0, 1]);
}

#[test]
fn render_copies_buffer_cells_to_the_displayed_tiles() {
    let (mut ctx, mut buffers, mut tiles) = pipeline(8, 4);
    ctx.set(0, 3, Color::black(), Color::white(), 'Q');
    process_command_buffer(&mut ctx.layers, &mut buffers);
    render(&mut tiles, &buffers);
    // (0, 3) on an 8x4 layer lands in stored row 0, cell 0 of the
    // foreground sub-buffer, which is displayed tile 32
    assert_eq!(tiles[32].0.glyph, 'Q');
    assert_eq!(tiles[32].0.color, Color::white());
}

#[test]
fn entities_are_drawn_relative_to_the_camera() {
    let builder = TilemapBuilder::new()
        .with_layer(
            LayerDataBuilder::new(0)
                .texture_path("a.png")
                .size(8, 4)
                .tile_size(16, 16),
        )
        .with_layer(
            LayerDataBuilder::new(1)
                .texture_path("a.png")
                .size(8, 4)
                .tile_size(16, 16)
                .is_transparent(true)
                .is_background_transparent(true),
        )
        .build();
    let (layers, mut buffers) = setup(&builder);
    let mut ctx = DrawContext::new(layers);
    let camera = Camera::new(IVec2::new(10, 10), 8, 4);
    // the camera window starts at (6, 8); an entity at (7, 9) lands at (1, 1)
    let on_screen = (
        Position(UVec2::new(7, 9)),
        Render { color: GlyphColor::default(), glyph: 'g' },
    );
    // an entity left of the window wraps far out of bounds and is dropped
    let off_screen = (
        Position(UVec2::new(2, 9)),
        Render { color: GlyphColor::default(), glyph: 'o' },
    );
    entity_render(&mut ctx, &camera, &vec![on_screen, off_screen]);
    process_command_buffer(&mut ctx.layers, &mut buffers);
    // layer 1's foreground is sub-buffer 3; (1, 1) flips to stored row 2
    assert_eq!(buffers[3][(2 * 8 + 1) as usize].glyph, 'g');
    for cell in &buffers[3] {
        assert!(cell.glyph != 'o');
    }
}
