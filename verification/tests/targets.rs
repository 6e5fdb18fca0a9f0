use vacuum_salesman::geometry::{Rect, SCALE};
use vacuum_salesman::player::Player;
use vacuum_salesman::solids::Collider;
use vacuum_salesman::targets::{
    change_direction, check_eating, create_targets, move_targets, Direction, MoveDirection,
    Target,
};

fn units(n: i64) -> i64 {
    n * SCALE
}

fn target_at(x: i64, y: i64, dir: Option<Direction>) -> Target {
    Target { rect: Rect { x, y, w: units(25), h: units(25) }, direction: MoveDirection(dir) }
}

const TARGET_SPEED: i64 = 200_000;
const SLOW_RATE: i64 = 60;
// One tick's diagonal step: 200000 / 60 subunits.
const STEP: i64 = 3_333;

#[test]
fn each_direction_moves_diagonally() {
    let mut targets = vec![
        target_at(0, 0, Some(Direction::Lu)),
        target_at(0, 0, Some(Direction::Ru)),
        target_at(0, 0, Some(Direction::Ld)),
        target_at(0, 0, Some(Direction::Rd)),
    ];
    move_targets(&mut targets, TARGET_SPEED, SLOW_RATE);
    assert_eq!((targets[0].rect.x, targets[0].rect.y), (-STEP, STEP));
    assert_eq!((targets[1].rect.x, targets[1].rect.y), (STEP, STEP));
    assert_eq!((targets[2].rect.x, targets[2].rect.y), (-STEP, -STEP));
    assert_eq!((targets[3].rect.x, targets[3].rect.y), (STEP, -STEP));
}

#[test]
fn inert_target_never_moves() {
    let mut targets = vec![target_at(units(7), units(-4), None)];
    move_targets(&mut targets, TARGET_SPEED, SLOW_RATE);
    assert_eq!(targets[0].rect.x, units(7));
    assert_eq!(targets[0].rect.y, units(-4));
    assert_eq!(targets[0].direction, MoveDirection(None));
}

fn wall_right() -> Vec<Collider> {
    // A wall covering x from 600 to 650 world units, tall enough to span.
    vec![Collider { rect: Rect { x: units(625), y: 0, w: units(50), h: units(600) } }]
}

#[test]
fn contact_with_right_wall_turns_downright_to_downleft() {
    // A target at (590, 0) moving DownRight against a wall covering
    // x in [600, 650]: the movement sub-step takes it into contact, the
    // next computed direction is DownLeft, and the following tick moves
    // it in the -x direction.
    let mut targets = vec![target_at(units(590), 0, Some(Direction::Rd))];
    let walls = wall_right();
    move_targets(&mut targets, TARGET_SPEED, SLOW_RATE);
    let x_contact = units(590) + STEP;
    assert_eq!(targets[0].rect.x, x_contact);
    change_direction(&mut targets, &walls);
    assert_eq!(targets[0].direction, MoveDirection(Some(Direction::Ld)));
    move_targets(&mut targets, TARGET_SPEED, SLOW_RATE);
    assert!(targets[0].rect.x < x_contact);
    assert_eq!(targets[0].rect.x, x_contact - STEP);
}

#[test]
fn continued_contact_does_not_flip_back() {
    // Reflection happens once per contact: a target already turned away
    // from the wall it still overlaps is left alone by another pass.
    let mut targets = vec![target_at(units(595), 0, Some(Direction::Ru))];
    let walls = wall_right();
    change_direction(&mut targets, &walls);
    assert_eq!(targets[0].direction, MoveDirection(Some(Direction::Lu)));
    change_direction(&mut targets, &walls);
    assert_eq!(targets[0].direction, MoveDirection(Some(Direction::Lu)));
}

#[test]
fn all_eight_reflections() {
    let left_wall = vec![Collider {
        rect: Rect { x: units(-625), y: 0, w: units(50), h: units(600) },
    }];
    let right_wall = wall_right();
    let top_wall = vec![Collider {
        rect: Rect { x: 0, y: units(325), w: units(1300), h: units(50) },
    }];
    let bottom_wall = vec![Collider {
        rect: Rect { x: 0, y: units(-325), w: units(1300), h: units(50) },
    }];

    // Left contact mirrors the horizontal component of Lu and Ld.
    let mut ts = vec![
        target_at(units(-595), 0, Some(Direction::Lu)),
        target_at(units(-595), 0, Some(Direction::Ld)),
    ];
    change_direction(&mut ts, &left_wall);
    assert_eq!(ts[0].direction, MoveDirection(Some(Direction::Ru)));
    assert_eq!(ts[1].direction, MoveDirection(Some(Direction::Rd)));

    // Right contact mirrors Ru and Rd.
    let mut ts = vec![
        target_at(units(595), 0, Some(Direction::Ru)),
        target_at(units(595), 0, Some(Direction::Rd)),
    ];
    change_direction(&mut ts, &right_wall);
    assert_eq!(ts[0].direction, MoveDirection(Some(Direction::Lu)));
    assert_eq!(ts[1].direction, MoveDirection(Some(Direction::Ld)));

    // Top contact mirrors the vertical component of Lu and Ru.
    let mut ts = vec![
        target_at(0, units(295), Some(Direction::Lu)),
        target_at(0, units(295), Some(Direction::Ru)),
    ];
    change_direction(&mut ts, &top_wall);
    assert_eq!(ts[0].direction, MoveDirection(Some(Direction::Ld)));
    assert_eq!(ts[1].direction, MoveDirection(Some(Direction::Rd)));

    // Bottom contact mirrors Ld and Rd.
    let mut ts = vec![
        target_at(0, units(-295), Some(Direction::Ld)),
        target_at(0, units(-295), Some(Direction::Rd)),
    ];
    change_direction(&mut ts, &bottom_wall);
    assert_eq!(ts[0].direction, MoveDirection(Some(Direction::Lu)));
    assert_eq!(ts[1].direction, MoveDirection(Some(Direction::Ru)));
}

#[test]
fn non_matching_direction_is_left_alone() {
    // A target overlapping the right wall but already moving leftward:
    // the right contact matches no flip pattern and the state is kept.
    let mut ts = vec![
        target_at(units(595), 0, Some(Direction::Lu)),
        target_at(units(595), 0, Some(Direction::Ld)),
        target_at(units(595), 0, None),
    ];
    change_direction(&mut ts, &wall_right());
    assert_eq!(ts[0].direction, MoveDirection(Some(Direction::Lu)));
    assert_eq!(ts[1].direction, MoveDirection(Some(Direction::Ld)));
    assert_eq!(ts[2].direction, MoveDirection(None));
}

#[test]
fn overlapping_targets_are_eaten_in_order() {
    let player = Player { rect: Rect { x: 0, y: 0, w: units(47), h: units(47) } };
    let near = target_at(units(10), 0, Some(Direction::Ru));
    let far = target_at(units(200), 0, Some(Direction::Lu));
    let far_too = target_at(units(-300), units(100), Some(Direction::Rd));
    let inside = target_at(0, 0, Some(Direction::Ld));
    let mut targets = vec![far, near, inside, far_too];
    check_eating(&player, &mut targets);
    assert_eq!(targets.len(), 2);
    assert_eq!(targets[0].rect.x, units(200));
    assert_eq!(targets[1].rect.x, units(-300));
}

#[test]
fn edge_touching_target_is_not_eaten() {
    // Touching exactly, zero overlap area: not consumed.
    let player = Player { rect: Rect { x: 0, y: 0, w: units(47), h: units(47) } };
    let mut targets = vec![target_at(units(36), 0, Some(Direction::Lu))];
    check_eating(&player, &mut targets);
    assert_eq!(targets.len(), 1);
}

#[test]
fn refill_is_a_noop_while_targets_remain() {
    let spawned = create_targets(3, units(600), units(300), units(25), 100);
    assert_eq!(spawned.len(), 0);
}

#[test]
fn refill_spawns_a_full_batch_inside_the_arena() {
    let spawned = create_targets(0, units(600), units(300), units(25), 100);
    assert_eq!(spawned.len(), 100);
    for t in &spawned {
        assert_eq!(t.rect.w, units(25));
        assert_eq!(t.rect.h, units(25));
        assert!(units(-600) + units(25) / 2 <= t.rect.x && t.rect.x < units(600) - units(25) / 2);
        assert!(units(-300) + units(25) / 2 <= t.rect.y && t.rect.y < units(300) - units(25) / 2);
        assert!(t.direction.0.is_some());
    }
}
