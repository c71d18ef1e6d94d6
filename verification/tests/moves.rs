use robots::entity::Entity;
use robots::entity::EntityKind;
use robots::field::GameField;
use robots::position::Position;
use robots::position::FIELD_HEIGHT;
use robots::position::FIELD_WIDTH;

fn field_with(player: (i32, i32), robots: &[(i32, i32)]) -> GameField {
    let mut field = GameField::empty();
    field.append_entity(Entity::new_at(EntityKind::Player, player.0, player.1));
    for &(x, y) in robots {
        field.append_entity(Entity::new_at(EntityKind::Robot, x, y));
    }
    field
}

fn cell(field: &GameField, slot: usize) -> (i32, i32) {
    let p = field.entities()[slot].position;
    (p.x, p.y)
}

fn kind(field: &GameField, slot: usize) -> EntityKind {
    field.entities()[slot].kind
}

#[test]
fn robot_closes_in_and_destroys_player() {
    let mut field = field_with((5, 5), &[(5, 3)]);
    field.move_robots();
    assert_eq!(cell(&field, 1), (5, 4));
    assert_eq!(kind(&field, 1), EntityKind::Robot);
    assert!(!field.player_is_dead());
    field.move_robots();
    assert_eq!(cell(&field, 1), (5, 5));
    assert_eq!(cell(&field, 0), (5, 5));
    assert_eq!(kind(&field, 0), EntityKind::Garbage);
    assert_eq!(kind(&field, 1), EntityKind::Garbage);
    assert!(field.player_is_dead());
}

#[test]
fn robots_step_once_on_each_axis_toward_player() {
    let mut field = field_with(
        (10, 5),
        &[(0, 0), (29, 11), (10, 0), (10, 11), (0, 5), (29, 5), (12, 3), (9, 6)],
    );
    field.move_robots();
    assert_eq!(cell(&field, 1), (1, 1));
    assert_eq!(cell(&field, 2), (28, 10));
    assert_eq!(cell(&field, 3), (10, 1));
    assert_eq!(cell(&field, 4), (10, 10));
    assert_eq!(cell(&field, 5), (1, 5));
    assert_eq!(cell(&field, 6), (28, 5));
    assert_eq!(cell(&field, 7), (11, 4));
    assert_eq!(cell(&field, 8), (10, 5));
    assert_eq!(cell(&field, 0), (10, 5));
}

#[test]
fn robot_level_with_player_keeps_its_row_or_column() {
    let mut field = field_with((10, 5), &[(20, 5), (10, 9)]);
    for step in 1..=3 {
        field.move_robots();
        assert_eq!(cell(&field, 1), (20 - step, 5));
        assert_eq!(cell(&field, 2), (10, 9 - step));
    }
}

#[test]
fn tick_rebuilds_index_from_moved_robots() {
    let mut field = field_with((10, 5), &[(0, 0), (20, 5)]);
    field.move_robots();
    assert_eq!(field.index_at(0, 0), None);
    assert_eq!(field.index_at(20, 5), None);
    assert_eq!(field.index_at(1, 1), Some(1));
    assert_eq!(field.index_at(19, 5), Some(2));
    assert_eq!(field.index_at(10, 5), Some(0));
}

#[test]
fn two_robots_meeting_are_destroyed_and_a_third_is_spared() {
    let mut field = field_with((10, 5), &[(2, 4), (2, 6), (20, 5)]);
    field.move_robots();
    assert_eq!(cell(&field, 1), (3, 5));
    assert_eq!(cell(&field, 2), (3, 5));
    assert_eq!(kind(&field, 1), EntityKind::Garbage);
    assert_eq!(kind(&field, 2), EntityKind::Garbage);
    assert_eq!(cell(&field, 3), (19, 5));
    assert_eq!(kind(&field, 3), EntityKind::Robot);
    assert_eq!(kind(&field, 0), EntityKind::Player);
    assert_eq!(field.index_at(3, 5), Some(2));
}

#[test]
fn pileup_of_three_destroys_all_three() {
    let mut field = field_with((10, 5), &[(2, 4), (2, 5), (2, 6), (15, 5)]);
    field.move_robots();
    for slot in 1..=3 {
        assert_eq!(cell(&field, slot), (3, 5));
        assert_eq!(kind(&field, slot), EntityKind::Garbage);
    }
    assert_eq!(kind(&field, 4), EntityKind::Robot);
    assert_eq!(field.index_at(3, 5), Some(3));
    assert!(!field.player_is_dead());
}

#[test]
fn wrecks_stay_put_and_leave_the_index() {
    let mut field = field_with((10, 5), &[(2, 4), (2, 6)]);
    field.move_robots();
    assert!(field.has_entity_at(3, 5));
    field.move_robots();
    assert_eq!(cell(&field, 1), (3, 5));
    assert_eq!(cell(&field, 2), (3, 5));
    assert_eq!(kind(&field, 1), EntityKind::Garbage);
    assert_eq!(kind(&field, 2), EntityKind::Garbage);
    assert!(!field.has_entity_at(3, 5));
    assert_eq!(field.index_at(10, 5), Some(0));
}

#[test]
fn robot_running_into_a_wreck_is_destroyed() {
    let mut field = field_with((10, 5), &[(2, 4), (2, 6), (1, 5)]);
    field.move_robots();
    assert_eq!(kind(&field, 3), EntityKind::Robot);
    assert_eq!(cell(&field, 3), (2, 5));
    field.move_robots();
    assert_eq!(cell(&field, 3), (3, 5));
    assert_eq!(kind(&field, 3), EntityKind::Garbage);
    assert_eq!(field.index_at(3, 5), Some(3));
}

#[test]
fn robots_keep_chasing_the_cell_of_a_destroyed_player() {
    let mut field = field_with((5, 5), &[(5, 4), (9, 9)]);
    field.move_robots();
    assert!(field.player_is_dead());
    assert_eq!(cell(&field, 2), (8, 8));
    field.move_robots();
    assert_eq!(cell(&field, 2), (7, 7));
    assert_eq!(cell(&field, 1), (5, 5));
    assert_eq!(kind(&field, 2), EntityKind::Robot);
}

#[test]
fn tick_after_tick_live_entities_are_recorded_under_their_cells() {
    let mut field = GameField::new(40);
    for _ in 0..30 {
        field.move_robots();
        let entities = field.entities().clone();
        for (i, e) in entities.iter().enumerate() {
            assert!(0 <= e.position.x && e.position.x < FIELD_WIDTH);
            assert!(0 <= e.position.y && e.position.y < FIELD_HEIGHT);
            let shares = entities
                .iter()
                .enumerate()
                .any(|(j, other)| j != i && other.position == e.position);
            if e.kind != EntityKind::Garbage {
                assert!(!shares);
                assert_eq!(field.index_at_pos(&e.position), Some(i));
            }
        }
    }
}

#[test]
fn check_collision_destroys_both_on_a_shared_cell() {
    let mut field = field_with((4, 4), &[(4, 4), (8, 8)]);
    field.check_collision(0);
    assert_eq!(kind(&field, 0), EntityKind::Garbage);
    assert_eq!(kind(&field, 1), EntityKind::Garbage);
    assert_eq!(kind(&field, 2), EntityKind::Robot);
    assert_eq!(field.index_at(4, 4), Some(1));
}

#[test]
fn check_collision_of_recorded_slot_does_nothing() {
    let mut field = field_with((4, 4), &[(4, 4), (8, 8)]);
    field.check_collision(1);
    assert_eq!(kind(&field, 0), EntityKind::Player);
    assert_eq!(kind(&field, 1), EntityKind::Robot);
    field.check_collision(2);
    assert_eq!(kind(&field, 2), EntityKind::Robot);
}

#[test]
fn check_collision_twice_is_the_same_as_once() {
    let mut field = field_with((4, 4), &[(4, 4), (4, 4), (8, 8)]);
    field.check_collision(0);
    let entities_once = field.entities().clone();
    let entry_once = field.index_at(4, 4);
    field.check_collision(0);
    assert_eq!(*field.entities(), entities_once);
    assert_eq!(field.index_at(4, 4), entry_once);
    assert_eq!(kind(&field, 0), EntityKind::Garbage);
    assert_eq!(kind(&field, 1), EntityKind::Robot);
    assert_eq!(kind(&field, 2), EntityKind::Garbage);
    field.check_collision(1);
    let entities_twice = field.entities().clone();
    field.check_collision(1);
    assert_eq!(*field.entities(), entities_twice);
    assert_eq!(kind(&field, 1), EntityKind::Garbage);
}

#[test]
fn move_player_steps_by_the_delta() {
    let mut field = field_with((5, 5), &[]);
    field.move_player(1, 0);
    assert_eq!(cell(&field, 0), (6, 5));
    field.move_player(0, -1);
    assert_eq!(cell(&field, 0), (6, 4));
    field.move_player(-1, 1);
    assert_eq!(cell(&field, 0), (5, 5));
    assert!(!field.player_is_dead());
}

#[test]
fn move_player_stops_at_the_left_edge() {
    let mut field = field_with((0, 3), &[]);
    field.move_player(-1, 0);
    assert_eq!(cell(&field, 0), (0, 3));
    field.move_player(-1, 1);
    assert_eq!(cell(&field, 0), (0, 4));
}

#[test]
fn move_player_stops_at_every_edge() {
    let mut field = field_with((29, 0), &[]);
    field.move_player(1, 0);
    assert_eq!(cell(&field, 0), (29, 0));
    field.move_player(0, -1);
    assert_eq!(cell(&field, 0), (29, 0));
    field.move_player(1, -1);
    assert_eq!(cell(&field, 0), (29, 0));
    field.move_player(1, 1);
    assert_eq!(cell(&field, 0), (29, 1));
    let mut field = field_with((0, 11), &[]);
    field.move_player(0, 1);
    assert_eq!(cell(&field, 0), (0, 11));
    field.move_player(1, 1);
    assert_eq!(cell(&field, 0), (1, 11));
}

#[test]
fn move_player_drops_a_delta_that_would_leave_the_field() {
    let mut field = field_with((5, 5), &[]);
    field.move_player(100, 1);
    assert_eq!(cell(&field, 0), (5, 6));
    field.move_player(-6, -6);
    assert_eq!(cell(&field, 0), (5, 0));
    field.move_player(24, 11);
    assert_eq!(cell(&field, 0), (29, 11));
    field.move_player(i32::MAX, i32::MIN);
    assert_eq!(cell(&field, 0), (29, 11));
    field.move_player(i32::MIN, i32::MAX);
    assert_eq!(cell(&field, 0), (29, 11));
}

#[test]
fn move_player_by_nothing_checks_nothing() {
    let mut field = field_with((4, 4), &[(4, 4)]);
    field.move_player(0, 0);
    assert_eq!(kind(&field, 0), EntityKind::Player);
    assert_eq!(kind(&field, 1), EntityKind::Robot);
    let mut field = field_with((0, 0), &[(0, 0)]);
    field.move_player(-1, -1);
    assert_eq!(kind(&field, 0), EntityKind::Player);
    assert_eq!(kind(&field, 1), EntityKind::Robot);
}

#[test]
fn move_player_onto_a_robot_destroys_both() {
    let mut field = field_with((4, 4), &[(5, 4), (9, 9)]);
    field.move_player(1, 0);
    assert_eq!(cell(&field, 0), (5, 4));
    assert!(field.player_is_dead());
    assert_eq!(kind(&field, 1), EntityKind::Garbage);
    assert_eq!(kind(&field, 2), EntityKind::Robot);
    assert_eq!(cell(&field, 1), (5, 4));
    assert_eq!(cell(&field, 2), (9, 9));
    assert_eq!(field.index_at(5, 4), Some(0));
    assert_eq!(field.index_at(4, 4), None);
    assert_eq!(field.index_at(9, 9), Some(2));
}

#[test]
fn move_player_takes_its_entry_along() {
    let mut field = field_with((4, 4), &[(9, 9)]);
    field.move_player(1, 1);
    assert_eq!(cell(&field, 0), (5, 5));
    assert_eq!(field.index_at(4, 4), None);
    assert_eq!(field.index_at(5, 5), Some(0));
    assert_eq!(field.index_at(9, 9), Some(1));
    field.move_player(-1, -1);
    assert_eq!(cell(&field, 0), (4, 4));
    assert_eq!(field.index_at(5, 5), None);
    assert_eq!(field.index_at(4, 4), Some(0));
    assert!(!field.player_is_dead());
    field.move_player(1, 1);
    field.move_robots();
    assert_eq!(field.index_at(4, 4), None);
    assert_eq!(field.index_at(5, 5), Some(0));
    assert_eq!(field.index_at(8, 8), Some(1));
}

#[test]
fn move_player_into_the_wall_keeps_its_entry() {
    let mut field = field_with((0, 0), &[(9, 9)]);
    field.move_player(-1, -1);
    assert_eq!(field.index_at(0, 0), Some(0));
    field.move_player(0, 0);
    assert_eq!(field.index_at(0, 0), Some(0));
    assert_eq!(field.index_at(9, 9), Some(1));
}

#[test]
fn move_player_leaves_an_entry_that_names_another_slot() {
    let mut field = field_with((4, 4), &[(4, 4), (9, 9)]);
    assert_eq!(field.index_at(4, 4), Some(1));
    field.move_player(1, 0);
    assert_eq!(cell(&field, 0), (5, 4));
    assert_eq!(kind(&field, 0), EntityKind::Player);
    assert_eq!(kind(&field, 1), EntityKind::Robot);
    assert_eq!(field.index_at(4, 4), Some(1));
    assert_eq!(field.index_at(5, 4), Some(0));
    assert_eq!(field.index_at(9, 9), Some(2));
}

#[test]
fn move_player_onto_a_recorded_wreck_destroys_player_and_takes_the_entry() {
    let mut field = field_with((4, 4), &[(2, 3), (2, 5), (20, 4)]);
    field.move_robots();
    assert_eq!(field.index_at(3, 4), Some(2));
    assert_eq!(kind(&field, 2), EntityKind::Garbage);
    field.move_player(-1, 0);
    assert_eq!(cell(&field, 0), (3, 4));
    assert!(field.player_is_dead());
    assert_eq!(field.index_at(3, 4), Some(0));
    assert_eq!(field.index_at(4, 4), None);
    assert_eq!(kind(&field, 3), EntityKind::Robot);
    assert_eq!(field.index_at(19, 4), Some(3));
}

#[test]
fn moves_keep_every_live_entity_recorded_under_its_cell() {
    let steps = [(1, 0), (0, 1), (-1, 0), (0, -1), (1, 1), (-1, -1), (1, -1), (-1, 1), (0, 0)];
    for round in 0..20usize {
        let mut field = GameField::new(60);
        for n in 0..40usize {
            let (dx, dy) = steps[(round + n * 7) % steps.len()];
            let before = field.entities().clone();
            field.move_player(dx, dy);
            let entities = field.entities().clone();
            for (i, e) in entities.iter().enumerate() {
                if i > 0 {
                    assert_eq!(e.position, before[i].position);
                }
                if before[i].kind == EntityKind::Garbage {
                    assert_eq!(e.kind, EntityKind::Garbage);
                }
                if e.kind != EntityKind::Garbage {
                    assert_eq!(field.index_at_pos(&e.position), Some(i));
                }
            }
            if field.player_is_dead() {
                break;
            }
        }
    }
}

#[test]
fn lone_player_survives_any_walk() {
    let mut field = GameField::new(0);
    let steps = [(1, 0), (0, 1), (-1, 0), (0, -1), (1, 1), (-1, -1), (1, -1), (-1, 1), (0, 0)];
    for round in 0..40 {
        for (n, &(dx, dy)) in steps.iter().enumerate() {
            let reps = 1 + (round + n) % 7;
            for _ in 0..reps {
                field.move_player(dx, dy);
                assert!(!field.player_is_dead());
                let p = field.player().position;
                assert!(0 <= p.x && p.x < FIELD_WIDTH);
                assert!(0 <= p.y && p.y < FIELD_HEIGHT);
            }
        }
    }
    for _ in 0..FIELD_WIDTH + 5 {
        field.move_player(-1, -1);
    }
    assert_eq!(field.player().position, Position::new(0, 0));
    for _ in 0..FIELD_WIDTH + 5 {
        field.move_player(1, 1);
    }
    assert_eq!(field.player().position, Position::new(29, 11));
    assert!(!field.player_is_dead());
    assert_eq!(field.entities().len(), 1);
}

#[test]
fn player_is_dead_follows_slot_zero() {
    let mut field = field_with((4, 4), &[(6, 4)]);
    assert!(!field.player_is_dead());
    field.move_robots();
    assert!(!field.player_is_dead());
    field.move_robots();
    assert!(field.player_is_dead());
    assert_eq!(field.player().kind, EntityKind::Garbage);
}
