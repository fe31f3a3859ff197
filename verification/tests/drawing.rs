use ascii_tilemap::builder::{LayerDataBuilder, TilemapBuilder};
use ascii_tilemap::color::Color;
use ascii_tilemap::draw_context::{DrawContext, DITHER_GLYPH};
use ascii_tilemap::layer::{process_command_buffer, BLOCK_GLYPH, INVISIBLE_GLYPH};
use ascii_tilemap::render::RenderLayers;
use ascii_tilemap::setup::setup;

const BLOCK: char = BLOCK_GLYPH as char;
const INVISIBLE: char = INVISIBLE_GLYPH as char;

fn single_layer(width: u32, height: u32, transparent: bool, bg_transparent: bool) -> (DrawContext, RenderLayers) {
    let builder = TilemapBuilder::new()
        .with_layer(
            LayerDataBuilder::new(0)
                .texture_path("tilesheet.png")
                .size(width, height)
                .tile_size(16, 16)
                .is_transparent(transparent)
                .is_background_transparent(bg_transparent),
        )
        .build();
    let (layers, buffers) = setup(&builder);
    (DrawContext::new(layers), buffers)
}

fn flipped(width: u32, height: u32, x: u32, y: u32) -> usize {
    (((height - y - 1) * width) + x) as usize
}

#[test]
fn set_writes_foreground_and_background() {
    let (mut ctx, mut buffers) = single_layer(8, 4, false, false);
    ctx.set(2, 1, Color::black(), Color::white(), 'A');
    process_command_buffer(&mut ctx.layers, &mut buffers);
    let i = flipped(8, 4, 2, 1);
    assert_eq!(buffers[1][i].glyph, 'A');
    assert_eq!(buffers[1][i].color, Color::white());
    assert_eq!(buffers[0][i].glyph, BLOCK);
    assert_eq!(buffers[0][i].color, Color::black());
}

#[test]
fn set_out_of_bounds_is_a_no_op() {
    let (mut ctx, mut buffers) = single_layer(8, 4, false, false);
    let before = buffers.clone();
    ctx.set(8, 0, Color::black(), Color::white(), 'A');
    ctx.set(0, 4, Color::black(), Color::white(), 'A');
    ctx.set(u32::MAX, u32::MAX, Color::black(), Color::white(), 'A');
    process_command_buffer(&mut ctx.layers, &mut buffers);
    for (sub, sub_before) in buffers.iter().zip(before.iter()) {
        for (cell, cell_before) in sub.iter().zip(sub_before.iter()) {
            assert_eq!(cell, cell_before);
        }
    }
}

#[test]
fn set_flips_vertically() {
    let height = 4;
    let width = 8;
    let (mut ctx, mut buffers) = single_layer(width, height, false, false);
    ctx.set(0, 0, Color::black(), Color::white(), 'A');
    ctx.set(0, height - 1, Color::black(), Color::white(), 'B');
    process_command_buffer(&mut ctx.layers, &mut buffers);
    // row 0 of the caller lands in the last stored row, row height-1 in the first
    assert_eq!(buffers[1][((height - 1) * width) as usize].glyph, 'A');
    assert_eq!(buffers[1][0].glyph, 'B');
}

#[test]
fn last_write_wins_within_a_frame() {
    let (mut ctx, mut buffers) = single_layer(8, 4, false, false);
    ctx.set(3, 2, Color::black(), Color::white(), 'A');
    ctx.set(3, 2, Color::black(), Color::white(), 'B');
    process_command_buffer(&mut ctx.layers, &mut buffers);
    assert_eq!(buffers[1][flipped(8, 4, 3, 2)].glyph, 'B');
}

#[test]
fn cls_color_is_idempotent() {
    let (mut ctx_once, mut buffers_once) = single_layer(8, 4, false, false);
    ctx_once.set(1, 1, Color::black(), Color::white(), 'X');
    ctx_once.cls_color(Color::red());
    process_command_buffer(&mut ctx_once.layers, &mut buffers_once);

    let (mut ctx_twice, mut buffers_twice) = single_layer(8, 4, false, false);
    ctx_twice.set(1, 1, Color::black(), Color::white(), 'X');
    ctx_twice.cls_color(Color::red());
    ctx_twice.cls_color(Color::red());
    process_command_buffer(&mut ctx_twice.layers, &mut buffers_twice);

    for (sub_once, sub_twice) in buffers_once.iter().zip(buffers_twice.iter()) {
        for (a, b) in sub_once.iter().zip(sub_twice.iter()) {
            assert_eq!(a, b);
        }
    }
}

#[test]
fn cls_color_on_opaque_layer() {
    let (mut ctx, mut buffers) = single_layer(8, 4, false, false);
    ctx.cls_color(Color::red());
    process_command_buffer(&mut ctx.layers, &mut buffers);
    for cell in &buffers[0] {
        assert_eq!(cell.glyph, BLOCK);
        assert_eq!(cell.color, Color::red());
    }
    for cell in &buffers[1] {
        assert_eq!(cell.glyph, INVISIBLE);
        assert_eq!(cell.color, Color::red());
    }
}

#[test]
fn cls_color_on_transparent_layer() {
    let (mut ctx, mut buffers) = single_layer(8, 4, true, false);
    ctx.cls_color(Color::red());
    process_command_buffer(&mut ctx.layers, &mut buffers);
    for cell in &buffers[0] {
        assert_eq!(cell.glyph, INVISIBLE);
        assert_eq!(cell.color, Color::red());
    }
    for cell in &buffers[1] {
        assert_eq!(cell.glyph, INVISIBLE);
        assert_eq!(cell.color, Color::red());
    }
}

#[test]
fn background_transparent_layer_skips_background_writes() {
    let (mut ctx, mut buffers) = single_layer(8, 4, true, true);
    ctx.set(2, 1, Color::red(), Color::white(), 'A');
    process_command_buffer(&mut ctx.layers, &mut buffers);
    let i = flipped(8, 4, 2, 1);
    assert_eq!(buffers[1][i].glyph, 'A');
    // background cell untouched: still the invisible default
    assert_eq!(buffers[0][i].glyph, INVISIBLE);
    assert_eq!(buffers[0][i].color, Color::black());
}

#[test]
fn print_writes_characters_left_to_right() {
    let (mut ctx, mut buffers) = single_layer(8, 4, false, false);
    ctx.print(1, 2, "hi");
    process_command_buffer(&mut ctx.layers, &mut buffers);
    assert_eq!(buffers[1][flipped(8, 4, 1, 2)].glyph, 'h');
    assert_eq!(buffers[1][flipped(8, 4, 2, 2)].glyph, 'i');
    assert_eq!(buffers[1][flipped(8, 4, 1, 2)].color, Color::white());
}

#[test]
fn print_clips_at_the_right_edge() {
    let (mut ctx, mut buffers) = single_layer(4, 4, false, false);
    ctx.print(2, 0, "abcdef");
    process_command_buffer(&mut ctx.layers, &mut buffers);
    assert_eq!(buffers[1][flipped(4, 4, 2, 0)].glyph, 'a');
    assert_eq!(buffers[1][flipped(4, 4, 3, 0)].glyph, 'b');
    // nothing wrapped onto other rows
    for y in 1..4 {
        for x in 0..4 {
            assert_eq!(buffers[1][flipped(4, 4, x, y)].glyph, INVISIBLE);
        }
    }
}

#[test]
fn print_centered_starts_at_half_width_minus_half_length() {
    let (mut ctx, _) = single_layer(80, 50, false, false);
    ctx.print_centered(5, "AB");
    // start x must be 80/2 - 2/2 = 39
    match ctx.layers[0].command_buffer[0] {
        ascii_tilemap::layer::DrawCommand::DrawTile { x, y, glyph, .. } => {
            assert_eq!(x, 39);
            assert_eq!(y, 5);
            assert_eq!(glyph, 'A');
        }
        _ => panic!("expected a tile command"),
    }
    match ctx.layers[0].command_buffer[1] {
        ascii_tilemap::layer::DrawCommand::DrawTile { x, glyph, .. } => {
            assert_eq!(x, 40);
            assert_eq!(glyph, 'B');
        }
        _ => panic!("expected a tile command"),
    }
}

#[test]
fn bar_horizontal_inclusive_fill_boundary() {
    let (mut ctx, mut buffers) = single_layer(10, 2, false, false);
    ctx.bar_horizontal(0, 0, 10, 5, 10, Color::black(), Color::red());
    process_command_buffer(&mut ctx.layers, &mut buffers);
    // fill width = 10 * 5 / 10 = 5; cells 0..=5 inclusive are filled
    for x in 0..=5 {
        assert_eq!(buffers[1][flipped(10, 2, x, 0)].glyph, BLOCK);
    }
    for x in 6..10 {
        assert_eq!(buffers[1][flipped(10, 2, x, 0)].glyph, DITHER_GLYPH);
    }
}

#[test]
fn bar_horizontal_empty_and_full() {
    let (mut ctx, mut buffers) = single_layer(10, 2, false, false);
    ctx.bar_horizontal(0, 0, 10, 0, 10, Color::black(), Color::red());
    ctx.bar_horizontal(0, 1, 10, 10, 10, Color::black(), Color::red());
    process_command_buffer(&mut ctx.layers, &mut buffers);
    // zero filled: only cell 0 (x <= 0) carries the block
    assert_eq!(buffers[1][flipped(10, 2, 0, 0)].glyph, BLOCK);
    for x in 1..10 {
        assert_eq!(buffers[1][flipped(10, 2, x, 0)].glyph, DITHER_GLYPH);
    }
    // fully filled: every cell carries the block
    for x in 0..10 {
        assert_eq!(buffers[1][flipped(10, 2, x, 1)].glyph, BLOCK);
    }
}

#[test]
fn commands_are_consumed_once() {
    let (mut ctx, mut buffers) = single_layer(8, 4, false, false);
    ctx.set(1, 1, Color::black(), Color::white(), 'A');
    process_command_buffer(&mut ctx.layers, &mut buffers);
    assert!(ctx.layers[0].command_buffer.is_empty());
    // processing again with an empty queue changes nothing
    let before = buffers.clone();
    process_command_buffer(&mut ctx.layers, &mut buffers);
    for (sub, sub_before) in buffers.iter().zip(before.iter()) {
        for (cell, cell_before) in sub.iter().zip(sub_before.iter()) {
            assert_eq!(cell, cell_before);
        }
    }
}

#[test]
fn cls_all_layers_clears_every_layer() {
    let builder = TilemapBuilder::new()
        .with_layer(
            LayerDataBuilder::new(0)
                .texture_path("a.png")
                .size(4, 4)
                .tile_size(16, 16),
        )
        .with_layer(
            LayerDataBuilder::new(1)
                .texture_path("b.png")
                .size(4, 4)
                .tile_size(16, 16)
                .is_transparent(true),
        )
        .build();
    let (layers, mut buffers) = setup(&builder);
    let mut ctx = DrawContext::new(layers);
    ctx.cls_color_all_layers(Color::green());
    process_command_buffer(&mut ctx.layers, &mut buffers);
    // opaque layer 0: background filled blocks; transparent layer 1: invisible
    for cell in &buffers[0] {
        assert_eq!(cell.glyph, BLOCK);
        assert_eq!(cell.color, Color::green());
    }
    for cell in &buffers[2] {
        assert_eq!(cell.glyph, INVISIBLE);
        assert_eq!(cell.color, Color::green());
    }
}

#[test]
fn active_layer_selects_the_drawing_target() {
    let builder = TilemapBuilder::new()
        .with_layer(
            LayerDataBuilder::new(0)
                .texture_path("a.png")
                .size(4, 4)
                .tile_size(16, 16),
        )
        .with_layer(
            LayerDataBuilder::new(1)
                .texture_path("b.png")
                .size(8, 8)
                .tile_size(16, 16),
        )
        .build();
    let (layers, mut buffers) = setup(&builder);
    let mut ctx = DrawContext::new(layers);
    assert_eq!(ctx.get_active_layer_size(), ascii_tilemap::geometry::UVec2::new(4, 4));
    ctx.set_active_layer(1);
    assert_eq!(ctx.get_active_layer_size(), ascii_tilemap::geometry::UVec2::new(8, 8));
    ctx.set(0, 0, Color::black(), Color::white(), 'Z');
    process_command_buffer(&mut ctx.layers, &mut buffers);
    // layer 1's foreground is sub-buffer 3; its size is 8x8
    assert_eq!(buffers[3][(7 * 8) as usize].glyph, 'Z');
    // layer 0 untouched
    for cell in &buffers[1] {
        assert_eq!(cell.glyph, INVISIBLE);
    }
}
