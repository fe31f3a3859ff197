//! The decisions of the per-turn game systems, as functions from plain
//! state to intents: which entities collide with the player, what a key
//! press makes the player do, where a wandering monster goes, and how an
//! attack lands. The host loop reads its entities, calls these, and
//! performs the resulting spawns, moves and despawns.

use vstd::prelude::*;

use crate::components::{Health, Position, WantsToAttack, WantsToMove};
use crate::geometry::{IVec2, UVec2};

verus! {

/// The entity ids among `entities` standing exactly at `position`, in
/// order.
pub open spec fn entities_at(entities: Seq<(u64, Position)>, position: Position) -> Seq<u64>
    decreases entities.len(),
{
    if entities.len() == 0 {
        Seq::empty()
    } else {
        let rest = entities_at(entities.drop_last(), position);
        if entities.last().1 == position {
            rest.push(entities.last().0)
        } else {
            rest
        }
    }
}

/// The enemies standing on the player's tile — the ones a collision pass
/// removes.
pub fn collisions(player_pos: &Position, enemies: &Vec<(u64, Position)>) -> (hit: Vec<u64>)
    ensures
        hit@ == entities_at(enemies@, *player_pos),
{
    let mut hit: Vec<u64> = Vec::new();
    let n = enemies.len();
    let mut i: usize = 0;
    while i < n
        invariant
            n == enemies@.len(),
            i <= n,
            hit@ == entities_at(enemies@.take(i as int), *player_pos),
        decreases n - i,
    {
        let (entity, position) = enemies[i];
        if position == *player_pos {
            hit.push(entity);
        }
        proof {
            assert(enemies@.take(i as int + 1).drop_last() =~= enemies@.take(i as int));
            assert(enemies@.take(i as int + 1).last() == enemies@[i as int]);
        }
        i = i + 1;
    }
    proof {
        assert(enemies@.take(n as int) =~= enemies@);
    }
    hit
}

/// One attack landing on a victim: one hit point is lost, and the victim
/// dies — is to be despawned — exactly when that leaves it below one.
pub fn apply_attack(health: &mut Health) -> (died: bool)
    requires
        old(health).current > i32::MIN,
    ensures
        final(health).current == old(health).current - 1,
        final(health).max == old(health).max,
        died <==> final(health).current < 1,
{
    health.current = health.current - 1;
    health.current < 1
}

/// Waiting a turn heals the player by one hit point, never above its
/// maximum.
pub fn heal(health: &mut Health)
    requires
        old(health).current < i32::MAX,
    ensures
        final(health).max == old(health).max,
        final(health).current == if old(health).current + 1 <= old(health).max {
            old(health).current + 1
        } else {
            old(health).max as int
        },
{
    if health.current + 1 <= health.max {
        health.current = health.current + 1;
    } else {
        health.current = health.max;
    }
}

/// A position moved by a signed step, each coordinate clamped to `u32`.
pub open spec fn stepped(position: Position, delta: IVec2) -> Position {
    Position(
        UVec2 {
            x: clamp_u32(position.0.x + delta.x),
            y: clamp_u32(position.0.y + delta.y),
        },
    )
}

/// An integer clamped into `u32`.
pub open spec fn clamp_u32(v: int) -> u32 {
    if v < 0 {
        0u32
    } else if v > u32::MAX {
        u32::MAX as u32
    } else {
        v as u32
    }
}

/// Moves a coordinate by a signed step, clamping at the `u32` edges.
fn step_coordinate(coordinate: u32, delta: i32) -> (r: u32)
    ensures
        r == clamp_u32(coordinate + delta),
{
    let moved: i64 = coordinate as i64 + delta as i64;
    if moved < 0 {
        0
    } else if moved > u32::MAX as i64 {
        u32::MAX
    } else {
        moved as u32
    }
}

/// What the player does for one key press, resolved against the enemies.
pub enum PlayerAction {
    /// The step runs into enemies: one attack intent per enemy hit.
    Attack(Vec<WantsToAttack>),
    /// The step is free: one move intent.
    Move(WantsToMove),
    /// No direction was pressed: the player rests and heals.
    Rest,
}

/// Decides the player's turn: a zero step rests; a step onto one or more
/// enemies attacks each of them; any other step moves the player to the
/// stepped position, coordinates clamped at the map's unsigned edges.
pub fn player_input(
    player: u64,
    position: &Position,
    delta: &IVec2,
    enemies: &Vec<(u64, Position)>,
) -> (action: PlayerAction)
    ensures
        delta.x == 0 && delta.y == 0 ==> action matches PlayerAction::Rest,
        !(delta.x == 0 && delta.y == 0) ==> {
            let destination = stepped(*position, *delta);
            let hit = entities_at(enemies@, destination);
            if hit.len() > 0 {
                action matches PlayerAction::Attack(attacks) && attacks@ == hit.map_values(
                    |victim: u64| WantsToAttack { attacker: player, victim },
                )
            } else {
                action matches PlayerAction::Move(m) && m == (WantsToMove {
                    entity: player,
                    destination,
                })
            }
        },
{
    if delta.x == 0 && delta.y == 0 {
        return PlayerAction::Rest;
    }
    let destination = Position(
        UVec2::new(step_coordinate(position.0.x, delta.x), step_coordinate(position.0.y, delta.y)),
    );
    let hit = collisions(&destination, enemies);
    if hit.len() > 0 {
        let mut attacks: Vec<WantsToAttack> = Vec::new();
        let n = hit.len();
        let mut i: usize = 0;
        while i < n
            invariant
                n == hit@.len(),
                i <= n,
                attacks@ == hit@.take(i as int).map_values(
                    |victim: u64| WantsToAttack { attacker: player, victim },
                ),
            decreases n - i,
        {
            attacks.push(WantsToAttack { attacker: player, victim: hit[i] });
            proof {
                assert(attacks@ =~= hit@.take(i as int + 1).map_values(
                    |victim: u64| WantsToAttack { attacker: player, victim },
                ));
            }
            i = i + 1;
        }
        proof {
            assert(hit@.take(n as int) =~= hit@);
        }
        PlayerAction::Attack(attacks)
    } else {
        PlayerAction::Move(WantsToMove { entity: player, destination })
    }
}

/// A wandering monster's step for a random draw: west, east, south or
/// north of its position.
pub open spec fn random_delta(roll: u8) -> IVec2 {
    if roll == 0 {
        IVec2 { x: -1i32, y: 0i32 }
    } else if roll == 1 {
        IVec2 { x: 1i32, y: 0i32 }
    } else if roll == 2 {
        IVec2 { x: 0i32, y: -1i32 }
    } else {
        IVec2 { x: 0i32, y: 1i32 }
    }
}

/// Decides a wandering monster's turn from a random draw: it steps to a
/// neighboring tile; if any occupant stands there it attacks the player
/// ones among them and moves nowhere; otherwise it asks to move there.
/// `occupants` carries each entity, its position, and whether it is the
/// player.
pub fn random_move(
    entity: u64,
    roll: u8,
    position: &Position,
    occupants: &Vec<(u64, Position, bool)>,
) -> (r: (Vec<WantsToAttack>, Option<WantsToMove>))
    ensures
        ({
            let destination = stepped(*position, random_delta(roll));
            let blocked = exists|i: int|
                0 <= i < occupants@.len() && (#[trigger] occupants@[i]).1 == destination;
            &&& (r.1 is Some <==> !blocked)
            &&& r.1 is Some ==> r.1->0 == (WantsToMove { entity, destination })
            &&& forall|victim: u64|
                r.0@.contains(WantsToAttack { attacker: entity, victim }) <==> exists|i: int|
                    0 <= i < occupants@.len() && (#[trigger] occupants@[i]) == (
                    victim,
                    destination,
                    true,
                )
            &&& forall|k: int| 0 <= k < r.0@.len() ==> (#[trigger] r.0@[k]).attacker == entity
        }),
{
    let delta = if roll == 0 {
        IVec2::new(-1, 0)
    } else if roll == 1 {
        IVec2::new(1, 0)
    } else if roll == 2 {
        IVec2::new(0, -1)
    } else {
        IVec2::new(0, 1)
    };
    let destination = Position(
        UVec2::new(step_coordinate(position.0.x, delta.x), step_coordinate(position.0.y, delta.y)),
    );
    let mut attacks: Vec<WantsToAttack> = Vec::new();
    let mut blocked = false;
    let n = occupants.len();
    let mut i: usize = 0;
    while i < n
        invariant
            n == occupants@.len(),
            i <= n,
            destination == stepped(*position, random_delta(roll)),
            blocked <==> exists|j: int|
                0 <= j < i && (#[trigger] occupants@[j]).1 == destination,
            forall|victim: u64|
                attacks@.contains(WantsToAttack { attacker: entity, victim }) <==> exists|j: int|
                    0 <= j < i && (#[trigger] occupants@[j]) == (victim, destination, true),
            forall|k: int| 0 <= k < attacks@.len() ==> (#[trigger] attacks@[k]).attacker == entity,
        decreases n - i,
    {
        let (other, other_pos, is_player) = occupants[i];
        let ghost attacks_before = attacks@;
        if other_pos == destination {
            blocked = true;
            if is_player {
                attacks.push(WantsToAttack { attacker: entity, victim: other });
            }
        }
        proof {
            assert forall|victim: u64|
                attacks@.contains(
                    WantsToAttack { attacker: entity, victim },
                ) <==> exists|j: int|
                    0 <= j < i + 1 && (#[trigger] occupants@[j]) == (victim, destination, true) by {
                if attacks@.contains(WantsToAttack { attacker: entity, victim }) {
                    let k = choose|k: int|
                        0 <= k < attacks@.len() && attacks@[k] == (WantsToAttack {
                            attacker: entity,
                            victim,
                        });
                    if k < attacks_before.len() {
                        assert(attacks_before.contains(WantsToAttack { attacker: entity, victim }));
                    } else {
                        assert(occupants@[i as int] == (victim, destination, true));
                    }
                }
                if exists|j: int|
                    0 <= j < i + 1 && (#[trigger] occupants@[j]) == (victim, destination, true) {
                    let j = choose|j: int|
                        0 <= j < i + 1 && (#[trigger] occupants@[j]) == (victim, destination, true);
                    if j < i {
                        assert(attacks_before.contains(WantsToAttack { attacker: entity, victim }));
                        let k = choose|k: int|
                            0 <= k < attacks_before.len() && attacks_before[k] == (WantsToAttack {
                                attacker: entity,
                                victim,
                            });
                        assert(attacks@[k] == (WantsToAttack { attacker: entity, victim }));
                    } else {
                        assert(attacks@.last() == (WantsToAttack { attacker: entity, victim }));
                    }
                }
            }
        }
        i = i + 1;
    }
    if blocked {
        (attacks, None)
    } else {
        (attacks, Some(WantsToMove { entity, destination }))
    }
}

} // verus!
