use ascii_tilemap::camera::Camera;
use ascii_tilemap::color::{Color, GlyphColor};
use ascii_tilemap::geometry::IVec2;
use ascii_tilemap::turn::{end_turn, TurnState};

#[test]
fn camera_centers_on_the_player() {
    let camera = Camera::new(IVec2::new(40, 25), 40, 25);
    assert_eq!(camera.left_x, 20);
    assert_eq!(camera.right_x, 60);
    assert_eq!(camera.top_y, 13);
    assert_eq!(camera.bottom_y, 37);
    assert_eq!(camera.display_width, 40);
    assert_eq!(camera.display_height, 25);
}

#[test]
fn camera_follows_the_player() {
    let mut camera = Camera::new(IVec2::new(40, 25), 40, 25);
    camera.on_player_move(IVec2::new(10, 5));
    assert_eq!(camera.left_x, -10);
    assert_eq!(camera.right_x, 30);
    assert_eq!(camera.top_y, -7);
    assert_eq!(camera.bottom_y, 17);
}

#[test]
fn turn_state_cycles() {
    assert_eq!(end_turn(&TurnState::AwaitingInput), TurnState::AwaitingInput);
    assert_eq!(end_turn(&TurnState::PlayerTurn), TurnState::MonserTurn);
    assert_eq!(end_turn(&TurnState::MonserTurn), TurnState::AwaitingInput);
}

#[test]
fn glyph_colors() {
    let default = GlyphColor::default();
    assert_eq!(default.background, Color::black());
    assert_eq!(default.foreground, Color::white());

    let foreground_only = GlyphColor::foreground(Color::red());
    assert_eq!(foreground_only.background, Color::black());
    assert_eq!(foreground_only.foreground, Color::red());

    let custom = GlyphColor::new(Color::green(), Color::white());
    assert_eq!(custom.background, Color::green());
    assert_eq!(custom.foreground, Color::white());
}
