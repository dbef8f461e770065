use snake_game::{Direction, GameError, Snake, World};

fn cells(w: &World) -> Vec<usize> {
    w.snake_cells().iter().map(|c| c.0).collect()
}

#[test]
fn new_world_spawns_three_cells_heading_right() {
    let w = World::new(8, 10).unwrap();
    assert_eq!(cells(&w), vec![10, 9, 8]);
    assert_eq!(w.snake_direction(), Direction::Right);
    assert_eq!(w.width(), 8);
    assert_eq!(w.size(), 64);
    assert_eq!(w.snake_head_index(), 10);
    assert_eq!(w.snake_length(), 3);
    assert_eq!(w.reward_cell(), None);
    assert_eq!(w.next_cell(), None);
}

#[test]
fn one_tick_moves_right() {
    let mut w = World::new(8, 10).unwrap();
    assert!(!w.update());
    assert_eq!(cells(&w), vec![11, 10, 9]);
    assert_eq!(w.snake_head_index(), 11);
}

#[test]
fn tick_wraps_at_row_end() {
    let mut w = World::new(8, 7).unwrap();
    assert!(!w.update());
    assert_eq!(cells(&w), vec![0, 7, 6]);
}

#[test]
fn spawn_too_close_to_start_is_rejected() {
    assert_eq!(World::new(8, 1).err(), Some(GameError::InvalidSpawn));
    assert_eq!(World::new(8, 0).err(), Some(GameError::InvalidSpawn));
    assert!(World::new(8, 2).is_ok());
}

#[test]
fn spawn_may_span_rows() {
    let w = World::new(8, 9).unwrap();
    assert_eq!(cells(&w), vec![9, 8, 7]);
}

#[test]
fn snake_new_builds_trailing_body() {
    let s = Snake::new(5, 4).unwrap();
    let body: Vec<usize> = s.body().iter().map(|c| c.0).collect();
    assert_eq!(body, vec![5, 4, 3, 2]);
    assert_eq!(s.direction(), Direction::Right);
    assert_eq!(s.len(), 4);
    assert!(s.contains(2));
    assert!(!s.contains(6));
}

#[test]
fn snake_new_rejects_underflow() {
    assert_eq!(Snake::new(1, 3).err(), Some(GameError::InvalidSpawn));
    let s = Snake::new(2, 3).unwrap();
    assert_eq!(s.cell(2), 0);
    let one = Snake::new(0, 1).unwrap();
    assert_eq!(one.len(), 1);
}

#[test]
fn reversal_request_is_ignored() {
    let mut w = World::new(8, 10).unwrap();
    w.change_snake_direction(Direction::Left);
    assert_eq!(w.snake_direction(), Direction::Right);
    assert_eq!(w.next_cell(), None);
    assert!(!w.update());
    assert_eq!(cells(&w), vec![11, 10, 9]);
}

#[test]
fn turn_is_buffered_and_applied_on_tick() {
    let mut w = World::new(8, 10).unwrap();
    w.change_snake_direction(Direction::Up);
    assert_eq!(w.snake_direction(), Direction::Up);
    assert_eq!(w.next_cell(), Some(2));
    assert!(!w.update());
    assert_eq!(cells(&w), vec![2, 10, 9]);
    assert_eq!(w.next_cell(), None);
    assert!(!w.update());
    assert_eq!(cells(&w), vec![58, 2, 10]);
}

#[test]
fn same_heading_request_rebuffers() {
    let mut w = World::new(8, 10).unwrap();
    w.change_snake_direction(Direction::Right);
    assert_eq!(w.snake_direction(), Direction::Right);
    assert_eq!(w.next_cell(), Some(11));
    assert!(!w.update());
    assert_eq!(cells(&w), vec![11, 10, 9]);
}

#[test]
fn eating_reward_grows_by_one_and_keeps_tail() {
    let mut w = World::new(8, 10).unwrap();
    assert!(w.offer_reward_cell(11));
    assert_eq!(w.reward_cell(), Some(11));
    assert!(w.update());
    assert_eq!(cells(&w), vec![11, 10, 9, 8]);
    assert_eq!(w.snake_length(), 4);
    assert_eq!(w.reward_cell(), None);
}

#[test]
fn new_reward_avoids_body() {
    let mut w = World::new(8, 10).unwrap();
    assert!(w.offer_reward_cell(11));
    assert!(w.update());
    for c in [11usize, 10, 9, 8] {
        assert!(!w.offer_reward_cell(c));
        assert_eq!(w.reward_cell(), None);
    }
    assert!(w.offer_reward_cell(40));
    assert_eq!(w.reward_cell(), Some(40));
    assert!(!cells(&w).contains(&40));
}

#[test]
fn reward_off_grid_is_refused() {
    let mut w = World::new(8, 10).unwrap();
    assert!(!w.offer_reward_cell(64));
    assert!(!w.offer_reward_cell(1000));
    assert_eq!(w.reward_cell(), None);
}

#[test]
fn ticks_without_reward_shift_the_body() {
    let mut w = World::new(8, 10).unwrap();
    assert!(w.offer_reward_cell(40));
    for _ in 0..20 {
        let before = cells(&w);
        assert!(!w.update());
        let after = cells(&w);
        assert_eq!(after.len(), before.len());
        for i in 1..after.len() {
            assert_eq!(after[i], before[i - 1]);
        }
        assert_eq!(w.reward_cell(), Some(40));
    }
}

#[test]
fn self_overlap_is_not_detected() {
    let mut w = World::new(2, 3).unwrap();
    assert_eq!(cells(&w), vec![3, 2, 1]);
    assert!(!w.update());
    assert_eq!(cells(&w), vec![2, 3, 2]);
}
