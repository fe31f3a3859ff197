//! The scrolling camera: a window of fixed display size kept centered on
//! the player's position, in signed world coordinates.

use vstd::prelude::*;

use crate::geometry::IVec2;

verus! {

/// The window edges a centered camera has for a player position.
pub open spec fn centered_edges(position: IVec2, display_width: i32, display_height: i32) -> (
    int,
    int,
    int,
    int,
) {
    (
        position.x - display_width / 2,
        position.x + display_width / 2,
        position.y - display_height / 2,
        position.y + display_height / 2,
    )
}

/// Whether centering a camera of this display size on this position stays
/// within `i32` arithmetic.
pub open spec fn camera_fits(position: IVec2, display_width: i32, display_height: i32) -> bool {
    &&& display_width >= 0
    &&& display_height >= 0
    &&& i32::MIN <= position.x - display_width / 2
    &&& position.x + display_width / 2 <= i32::MAX
    &&& i32::MIN <= position.y - display_height / 2
    &&& position.y + display_height / 2 <= i32::MAX
}

/// A camera window: the edges of the visible world region and the display
/// size it was created with.
#[derive(Debug, Clone, Copy, PartialEq, Eq, Structural)]
pub struct Camera {
    pub left_x: i32,
    pub right_x: i32,
    pub top_y: i32,
    pub bottom_y: i32,
    pub display_width: i32,
    pub display_height: i32,
}

impl Camera {
    /// A camera of the given display size centered on the player.
    pub fn new(player_position: IVec2, display_width: i32, display_height: i32) -> (c: Camera)
        requires
            camera_fits(player_position, display_width, display_height),
        ensures
            c.display_width == display_width,
            c.display_height == display_height,
            (c.left_x as int, c.right_x as int, c.top_y as int, c.bottom_y as int)
                == centered_edges(player_position, display_width, display_height),
    {
        Camera {
            left_x: player_position.x - (display_width / 2),
            right_x: player_position.x + (display_width / 2),
            top_y: player_position.y - (display_height / 2),
            bottom_y: player_position.y + (display_height / 2),
            display_width,
            display_height,
        }
    }

    /// Re-centers the window on the player's new position; the display
    /// size is kept.
    pub fn on_player_move(&mut self, player_position: IVec2)
        requires
            camera_fits(player_position, old(self).display_width, old(self).display_height),
        ensures
            final(self).display_width == old(self).display_width,
            final(self).display_height == old(self).display_height,
            (final(self).left_x as int, final(self).right_x as int, final(self).top_y as int, (
            final(self).bottom_y as int)) == centered_edges(
                player_position,
                old(self).display_width,
                old(self).display_height,
            ),
    {
        self.left_x = player_position.x - (self.display_width / 2);
        self.right_x = player_position.x + (self.display_width / 2);
        self.top_y = player_position.y - (self.display_height / 2);
        self.bottom_y = player_position.y + (self.display_height / 2);
    }
}

} // verus!
