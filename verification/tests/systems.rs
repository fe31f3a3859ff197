use ascii_tilemap::components::{Health, Position, WantsToAttack, WantsToMove};
use ascii_tilemap::geometry::{IVec2, UVec2};
use ascii_tilemap::systems::{apply_attack, collisions, heal, player_input, random_move, PlayerAction};

fn at(x: u32, y: u32) -> Position {
    Position(UVec2::new(x, y))
}

#[test]
fn collisions_reports_enemies_on_the_player_tile() {
    let enemies = vec![(7, at(2, 2)), (8, at(3, 2)), (9, at(2, 2))];
    assert_eq!(collisions(&at(2, 2), &enemies), vec![7, 9]);
    assert_eq!(collisions(&at(0, 0), &enemies), Vec::<u64>::new());
}

#[test]
fn attacks_wear_health_down_to_death() {
    let mut health = Health { current: 2, max: 20 };
    assert!(!apply_attack(&mut health));
    assert_eq!(health.current, 1);
    assert!(apply_attack(&mut health));
    assert_eq!(health.current, 0);
}

#[test]
fn resting_heals_up_to_the_maximum() {
    let mut health = Health { current: 18, max: 20 };
    heal(&mut health);
    assert_eq!(health.current, 19);
    heal(&mut health);
    assert_eq!(health.current, 20);
    heal(&mut health);
    assert_eq!(health.current, 20);
}

#[test]
fn player_rests_without_a_direction() {
    let action = player_input(1, &at(5, 5), &IVec2::new(0, 0), &vec![]);
    assert!(matches!(action, PlayerAction::Rest));
}

#[test]
fn player_moves_onto_a_free_tile() {
    let enemies = vec![(7, at(9, 9))];
    let action = player_input(1, &at(5, 5), &IVec2::new(1, 0), &enemies);
    match action {
        PlayerAction::Move(m) => {
            assert_eq!(m, WantsToMove { entity: 1, destination: at(6, 5) })
        }
        _ => panic!("expected a move"),
    }
}

#[test]
fn player_attacks_every_enemy_on_the_stepped_tile() {
    let enemies = vec![(7, at(4, 5)), (8, at(4, 5)), (9, at(0, 0))];
    let action = player_input(1, &at(5, 5), &IVec2::new(-1, 0), &enemies);
    match action {
        PlayerAction::Attack(attacks) => {
            assert_eq!(
                attacks,
                vec![
                    WantsToAttack { attacker: 1, victim: 7 },
                    WantsToAttack { attacker: 1, victim: 8 },
                ]
            )
        }
        _ => panic!("expected attacks"),
    }
}

#[test]
fn player_step_clamps_at_the_map_edge() {
    let action = player_input(1, &at(0, 0), &IVec2::new(-1, 0), &vec![]);
    match action {
        PlayerAction::Move(m) => assert_eq!(m.destination, at(0, 0)),
        _ => panic!("expected a move"),
    }
}

#[test]
fn monster_moves_to_a_free_tile() {
    let (attacks, movement) = random_move(3, 1, &at(5, 5), &vec![(1, at(0, 0), true)]);
    assert!(attacks.is_empty());
    assert_eq!(movement, Some(WantsToMove { entity: 3, destination: at(6, 5) }));
}

#[test]
fn monster_attacks_the_player_and_stays_put() {
    let occupants = vec![(1, at(4, 5), true), (9, at(4, 5), false)];
    let (attacks, movement) = random_move(3, 0, &at(5, 5), &occupants);
    assert_eq!(attacks, vec![WantsToAttack { attacker: 3, victim: 1 }]);
    assert_eq!(movement, None);
}

#[test]
fn monster_is_blocked_by_any_occupant() {
    let occupants = vec![(9, at(5, 4), false)];
    let (attacks, movement) = random_move(3, 2, &at(5, 5), &occupants);
    assert!(attacks.is_empty());
    assert_eq!(movement, None);
}
