//! The drawing facade: ergonomic calls that queue draw commands against the
//! currently active layer. Out-of-bounds writes are silently dropped; the
//! queued commands only take effect when the frame's commands are processed.

use vstd::prelude::*;

use crate::color::Color;
use crate::geometry::UVec2;
use crate::layer::{BLOCK_GLYPH, DrawCommand, Layer};

verus! {

broadcast use vstd::string::axiom_spec_iter;

/// Glyph drawn for the unfilled cells of a horizontal gauge.
pub const DITHER_GLYPH: char = '░';

/// Selects the layer that drawing calls address until changed again.
#[derive(Debug, Clone, Copy, PartialEq, Eq, Structural)]
pub struct ActiveLayer(pub u16);

/// The public drawing API: holds the declared layers and the active-layer
/// selector, and translates each call into queued commands on the active
/// layer.
#[derive(Debug)]
pub struct DrawContext {
    /// The declared layers, indexed by layer id.
    pub layers: Vec<Layer>,
    /// Which layer drawing calls currently address.
    pub active_layer: ActiveLayer,
}

/// Whether two layers agree on everything but their command queue.
pub open spec fn same_layer_config(l1: Layer, l2: Layer) -> bool {
    &&& l1.background_id == l2.background_id
    &&& l1.foreground_id == l2.foreground_id
    &&& l1.is_transparent == l2.is_transparent
    &&& l1.is_background_transparent == l2.is_background_transparent
    &&& l1.size == l2.size
}

/// The queue after writing the first `i` glyphs of `glyphs` left to right
/// from `x`: each in-bounds write appends one tile command, each
/// out-of-bounds write is dropped.
pub open spec fn printed_queue(
    queue: Seq<DrawCommand>,
    x: u32,
    y: u32,
    background: Color,
    foreground: Color,
    glyphs: Seq<char>,
    size: UVec2,
    i: int,
) -> Seq<DrawCommand>
    decreases i,
{
    if i <= 0 {
        queue
    } else {
        let prev = printed_queue(queue, x, y, background, foreground, glyphs, size, i - 1);
        if x + i - 1 < size.x && y < size.y {
            prev.push(
                DrawCommand::DrawTile {
                    x: (x + i - 1) as u32,
                    y,
                    background,
                    foreground,
                    glyph: glyphs[i - 1],
                },
            )
        } else {
            prev
        }
    }
}

/// The glyph of gauge cell `x`: the solid block up to and including the
/// fill width, the dither glyph beyond it.
pub open spec fn bar_glyph(x: int, fill_width: int) -> char {
    if x <= fill_width {
        BLOCK_GLYPH as char
    } else {
        DITHER_GLYPH
    }
}

/// The glyph sequence of a horizontal gauge of the given width.
pub open spec fn bar_glyphs(width: u32, fill_width: int) -> Seq<char> {
    Seq::new(width as nat, |x: int| bar_glyph(x, fill_width))
}

/// The characters of a string, in order.
fn str_chars(text: &str) -> (v: Vec<char>)
    ensures
        v@ == text@,
{
    let mut v: Vec<char> = Vec::new();
    for c in it: text.chars()
        invariant
            it.seq() == text@,
            v@ == text@.take(it.index() as int),
    {
        v.push(c);
    }
    proof {
        assert(text@.take(text@.len() as int) =~= text@);
    }
    v
}

impl DrawContext {
    /// The index of the layer drawing calls currently address.
    pub open spec fn active(self) -> int {
        self.active_layer.0 as int
    }

    /// The command queue of the active layer.
    pub open spec fn active_queue(self) -> Seq<DrawCommand> {
        self.layers@[self.active()].command_buffer@
    }

    /// The tile grid size of the active layer.
    pub open spec fn active_size(self) -> UVec2 {
        self.layers@[self.active()].size
    }

    /// The active-layer selector addresses a declared layer, and every
    /// layer is well formed.
    pub open spec fn wf(self) -> bool {
        &&& self.active() < self.layers@.len()
        &&& forall|i: int| 0 <= i < self.layers@.len() ==> (#[trigger] self.layers@[i]).wf()
    }

    /// Everything except the layers' command queues is unchanged.
    pub open spec fn same_config(self, other: DrawContext) -> bool {
        &&& self.active_layer == other.active_layer
        &&& self.layers@.len() == other.layers@.len()
        &&& forall|i: int|
            0 <= i < other.layers@.len() ==> same_layer_config(
                #[trigger] self.layers@[i],
                other.layers@[i],
            )
    }

    /// A drawing context over the given layers; drawing starts addressed
    /// at layer `0`.
    pub fn new(layers: Vec<Layer>) -> (ctx: DrawContext)
        requires
            layers@.len() > 0,
            forall|i: int| 0 <= i < layers@.len() ==> (#[trigger] layers@[i]).wf(),
        ensures
            ctx.wf(),
            ctx.layers == layers,
            ctx.active() == 0,
    {
        DrawContext { layers, active_layer: ActiveLayer(0) }
    }

    /// Queues one glyph write at `(x, y)` on the active layer. A position
    /// outside the layer's bounds is silently ignored: nothing is queued,
    /// nothing fails.
    pub fn set(&mut self, x: u32, y: u32, background: Color, foreground: Color, glyph: char)
        requires
            old(self).wf(),
        ensures
            final(self).wf(),
            final(self).same_config(*old(self)),
            forall|i: int|
                0 <= i < old(self).layers@.len() && i != old(self).active()
                    ==> final(self).layers@[i] == old(self).layers@[i],
            x < old(self).active_size().x && y < old(self).active_size().y ==> final(self).active_queue() == old(self).active_queue().push(
                DrawCommand::DrawTile { x, y, background, foreground, glyph },
            ),
            !(x < old(self).active_size().x && y < old(self).active_size().y) ==> final(self).active_queue() == old(self).active_queue(),
    {
        let a = self.active_layer.0 as usize;
        let layer = &mut self.layers[a];
        if x >= layer.size.x || y >= layer.size.y {
            // ignores anything out of bounds
            return ;
        }
        layer.command_buffer.push(DrawCommand::DrawTile { x, y, background, foreground, glyph });
    }

    /// Prints a string at the given position with background and
    /// foreground colors, left to right; characters beyond the layer's
    /// bounds are clipped one at a time, with no wrapping.
    pub fn print_color(&mut self, x: u32, y: u32, background: Color, foreground: Color, text: &str)
        requires
            old(self).wf(),
            x + text@.len() <= u32::MAX,
        ensures
            final(self).wf(),
            final(self).same_config(*old(self)),
            forall|i: int|
                0 <= i < old(self).layers@.len() && i != old(self).active()
                    ==> final(self).layers@[i] == old(self).layers@[i],
            final(self).active_queue() == printed_queue(
                old(self).active_queue(),
                x,
                y,
                background,
                foreground,
                text@,
                old(self).active_size(),
                text@.len() as int,
            ),
    {
        let chars = str_chars(text);
        let n = chars.len();
        let mut i: usize = 0;
        while i < n
            invariant
                self.wf(),
                self.same_config(*old(self)),
                forall|k: int|
                    0 <= k < old(self).layers@.len() && k != old(self).active() ==> self.layers@[k]
                        == old(self).layers@[k],
                chars@ == text@,
                n == text@.len(),
                x + n <= u32::MAX,
                i <= n,
                self.active_queue() == printed_queue(
                    old(self).active_queue(),
                    x,
                    y,
                    background,
                    foreground,
                    text@,
                    old(self).active_size(),
                    i as int,
                ),
            decreases n - i,
        {
            self.set(x + (i as u32), y, background, foreground, chars[i]);
            i = i + 1;
        }
    }

    /// Prints a string centered on the x axis with background and
    /// foreground colors: the first character lands at
    /// `width / 2 - length / 2`.
    pub fn print_color_centered(&mut self, y: u32, background: Color, foreground: Color, text: &str)
        requires
            old(self).wf(),
            text@.len() / 2 <= old(self).active_size().x / 2,
        ensures
            final(self).wf(),
            final(self).same_config(*old(self)),
            forall|i: int|
                0 <= i < old(self).layers@.len() && i != old(self).active()
                    ==> final(self).layers@[i] == old(self).layers@[i],
            final(self).active_queue() == printed_queue(
                old(self).active_queue(),
                (old(self).active_size().x / 2 - text@.len() / 2) as u32,
                y,
                background,
                foreground,
                text@,
                old(self).active_size(),
                text@.len() as int,
            ),
    {
        let size = self.get_active_layer_size();
        let half_len = (str_chars(text).len() / 2) as u32;
        self.print_color(size.x / 2 - half_len, y, background, foreground, text);
    }

    /// Prints a string at the given position in white on black.
    pub fn print(&mut self, x: u32, y: u32, text: &str)
        requires
            old(self).wf(),
            x + text@.len() <= u32::MAX,
        ensures
            final(self).wf(),
            final(self).same_config(*old(self)),
            forall|i: int|
                0 <= i < old(self).layers@.len() && i != old(self).active()
                    ==> final(self).layers@[i] == old(self).layers@[i],
            final(self).active_queue() == printed_queue(
                old(self).active_queue(),
                x,
                y,
                (Color { r: 0u8, g: 0u8, b: 0u8, a: 255u8 }),
                (Color { r: 255u8, g: 255u8, b: 255u8, a: 255u8 }),
                text@,
                old(self).active_size(),
                text@.len() as int,
            ),
    {
        self.print_color(x, y, Color::black(), Color::white(), text);
    }

    /// Prints a string centered on the x axis in white on black.
    pub fn print_centered(&mut self, y: u32, text: &str)
        requires
            old(self).wf(),
            text@.len() / 2 <= old(self).active_size().x / 2,
        ensures
            final(self).wf(),
            final(self).same_config(*old(self)),
            forall|i: int|
                0 <= i < old(self).layers@.len() && i != old(self).active()
                    ==> final(self).layers@[i] == old(self).layers@[i],
            final(self).active_queue() == printed_queue(
                old(self).active_queue(),
                (old(self).active_size().x / 2 - text@.len() / 2) as u32,
                y,
                (Color { r: 0u8, g: 0u8, b: 0u8, a: 255u8 }),
                (Color { r: 255u8, g: 255u8, b: 255u8, a: 255u8 }),
                text@,
                old(self).active_size(),
                text@.len() as int,
            ),
    {
        self.print_color_centered(y, Color::black(), Color::white(), text);
    }

    /// Draws a horizontal gauge: `fill_width = width * filled_amount / max`
    /// cells (by truncating integer division), and cells `0 ..= fill_width`
    /// draw the solid block while the cells beyond draw the dither glyph —
    /// the boundary cell itself is filled. `max` must not be zero.
    pub fn bar_horizontal(
        &mut self,
        start_x: u32,
        start_y: u32,
        width: u32,
        filled_amount: u32,
        max: u32,
        background: Color,
        foreground: Color,
    )
        requires
            old(self).wf(),
            max > 0,
            start_x + width <= u32::MAX,
        ensures
            final(self).wf(),
            final(self).same_config(*old(self)),
            forall|i: int|
                0 <= i < old(self).layers@.len() && i != old(self).active()
                    ==> final(self).layers@[i] == old(self).layers@[i],
            final(self).active_queue() == printed_queue(
                old(self).active_queue(),
                start_x,
                start_y,
                background,
                foreground,
                bar_glyphs(width, (width as int) * (filled_amount as int) / (max as int)),
                old(self).active_size(),
                width as int,
            ),
    {
        proof {
            assert((width as u64) * (filled_amount as u64) <= u64::MAX) by (nonlinear_arith)
                requires
                    width <= u32::MAX,
                    filled_amount <= u32::MAX,
            ;
        }
        let fill_width: u64 = (width as u64) * (filled_amount as u64) / (max as u64);
        let ghost glyphs = bar_glyphs(width, (width as int) * (filled_amount as int) / (max as int));
        let mut x: u32 = 0;
        while x < width
            invariant
                self.wf(),
                self.same_config(*old(self)),
                forall|k: int|
                    0 <= k < old(self).layers@.len() && k != old(self).active() ==> self.layers@[k]
                        == old(self).layers@[k],
                x <= width,
                start_x + width <= u32::MAX,
                fill_width == (width as int) * (filled_amount as int) / (max as int),
                glyphs == bar_glyphs(width, fill_width as int),
                self.active_queue() == printed_queue(
                    old(self).active_queue(),
                    start_x,
                    start_y,
                    background,
                    foreground,
                    glyphs,
                    old(self).active_size(),
                    x as int,
                ),
            decreases width - x,
        {
            proof {
                assert(glyphs[x as int] == bar_glyph(x as int, fill_width as int));
            }
            if (x as u64) <= fill_width {
                self.set(start_x + x, start_y, background, foreground, BLOCK_GLYPH as char);
            } else {
                self.set(start_x + x, start_y, background, foreground, DITHER_GLYPH);
            }
            x = x + 1;
        }
    }

    /// Queues a clear of the active layer in black.
    pub fn cls(&mut self)
        requires
            old(self).wf(),
        ensures
            final(self).wf(),
            final(self).same_config(*old(self)),
            forall|i: int|
                0 <= i < old(self).layers@.len() && i != old(self).active()
                    ==> final(self).layers@[i] == old(self).layers@[i],
            final(self).active_queue() == old(self).active_queue().push(
                DrawCommand::ClearLayer { color: Color { r: 0u8, g: 0u8, b: 0u8, a: 255u8 } },
            ),
    {
        self.cls_color(Color::black());
    }

    /// Queues a clear of the active layer with a specific color.
    pub fn cls_color(&mut self, color: Color)
        requires
            old(self).wf(),
        ensures
            final(self).wf(),
            final(self).same_config(*old(self)),
            forall|i: int|
                0 <= i < old(self).layers@.len() && i != old(self).active()
                    ==> final(self).layers@[i] == old(self).layers@[i],
            final(self).active_queue() == old(self).active_queue().push(
                DrawCommand::ClearLayer { color },
            ),
    {
        let a = self.active_layer.0 as usize;
        let layer = &mut self.layers[a];
        layer.command_buffer.push(DrawCommand::ClearLayer { color });
    }

    /// Queues a clear of every declared layer in black.
    pub fn cls_all_layers(&mut self)
        requires
            old(self).wf(),
        ensures
            final(self).wf(),
            final(self).same_config(*old(self)),
            forall|i: int|
                0 <= i < old(self).layers@.len() ==> (#[trigger] final(self).layers@[i]).command_buffer@ == old(self).layers@[i].command_buffer@.push(
                    DrawCommand::ClearLayer { color: Color { r: 0u8, g: 0u8, b: 0u8, a: 255u8 } },
                ),
    {
        self.cls_color_all_layers(Color::black());
    }

    /// Queues a clear of every declared layer with a specific color.
    pub fn cls_color_all_layers(&mut self, color: Color)
        requires
            old(self).wf(),
        ensures
            final(self).wf(),
            final(self).same_config(*old(self)),
            forall|i: int|
                0 <= i < old(self).layers@.len() ==> (#[trigger] final(self).layers@[i]).command_buffer@ == old(self).layers@[i].command_buffer@.push(
                    DrawCommand::ClearLayer { color },
                ),
    {
        let n = self.layers.len();
        let mut i: usize = 0;
        while i < n
            invariant
                self.wf(),
                self.same_config(*old(self)),
                n == old(self).layers@.len(),
                i <= n,
                forall|k: int|
                    0 <= k < i ==> (#[trigger] self.layers@[k]).command_buffer@ == old(
                        self,
                    ).layers@[k].command_buffer@.push(DrawCommand::ClearLayer { color }),
                forall|k: int| i <= k < n ==> self.layers@[k] == old(self).layers@[k],
            decreases n - i,
        {
            let layer = &mut self.layers[i];
            layer.command_buffer.push(DrawCommand::ClearLayer { color });
            i = i + 1;
        }
    }

    /// Selects the layer that subsequent drawing calls address. Selecting
    /// a layer id with no declared layer is a configuration error and is
    /// excluded by contract.
    pub fn set_active_layer(&mut self, layer: u8)
        requires
            old(self).wf(),
            (layer as int) < old(self).layers@.len(),
        ensures
            final(self).wf(),
            final(self).layers == old(self).layers,
            final(self).active_layer == (ActiveLayer(layer as u16)),
    {
        self.active_layer.0 = layer as u16;
    }

    /// The tile grid size of the active layer.
    pub fn get_active_layer_size(&mut self) -> (size: UVec2)
        requires
            old(self).wf(),
        ensures
            *final(self) == *old(self),
            size == old(self).active_size(),
    {
        let a = self.active_layer.0 as usize;
        self.layers[a].size
    }
}

} // verus!
