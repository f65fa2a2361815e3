use flappy_dragon::game::{MIN_INTERVAL_US, START_INTERVAL_US};
use flappy_dragon::obstacle::gap_size_for;
use flappy_dragon::{GameMode, Key, Obstacle, Player, SpawnRoll, State};

fn roll(gap_y: i32, speed: i64) -> SpawnRoll {
    SpawnRoll { gap_y, speed }
}

#[test]
fn gravity_adds_to_velocity_below_cap() {
    let mut p = Player::new(5, 25);
    p.gravity_and_move();
    assert_eq!(p.velocity, 8);
    assert_eq!(p.x, 6);
    assert_eq!(p.y, 25);
    p.gravity_and_move();
    assert_eq!(p.velocity, 16);
    assert_eq!(p.y, 26);
}

#[test]
fn gravity_caps_velocity_at_max_fall() {
    let mut p = Player { x: 0, y: 10, velocity: 16 };
    p.gravity_and_move();
    assert_eq!(p.velocity, 20);
    assert_eq!(p.y, 12);
    p.gravity_and_move();
    assert_eq!(p.velocity, 20);
    assert_eq!(p.y, 14);
}

#[test]
fn gravity_leaves_fast_velocity_unchanged() {
    let mut p = Player { x: 0, y: 10, velocity: 35 };
    p.gravity_and_move();
    assert_eq!(p.velocity, 35);
    assert_eq!(p.y, 13);
}

#[test]
fn upward_move_truncates_toward_zero() {
    let mut p = Player { x: 0, y: 10, velocity: -27 };
    p.gravity_and_move();
    assert_eq!(p.velocity, -19);
    assert_eq!(p.y, 9);
    p.gravity_and_move();
    assert_eq!(p.velocity, -11);
    assert_eq!(p.y, 8);
    p.gravity_and_move();
    assert_eq!(p.velocity, -3);
    assert_eq!(p.y, 8);
}

#[test]
fn vertical_position_never_negative() {
    let mut p = Player { x: 0, y: 0, velocity: -27 };
    p.gravity_and_move();
    assert_eq!(p.y, 0);
    let mut q = Player { x: 0, y: 3, velocity: -200 };
    q.gravity_and_move();
    assert_eq!(q.y, 0);
    assert_eq!(q.velocity, -192);
}

#[test]
fn flap_sets_fixed_velocity() {
    for v in [-100, -27, 0, 8, 20, 50] {
        let mut p = Player { x: 3, y: 7, velocity: v };
        p.flap();
        assert_eq!(p.velocity, -27);
        assert_eq!(p.x, 3);
        assert_eq!(p.y, 7);
    }
}

#[test]
fn gap_size_shrinks_with_score() {
    assert_eq!(gap_size_for(0), 20);
    assert_eq!(gap_size_for(4), 20);
    assert_eq!(gap_size_for(5), 19);
    assert_eq!(gap_size_for(25), 15);
    assert_eq!(gap_size_for(50), 10);
    assert_eq!(gap_size_for(90), 2);
    assert_eq!(gap_size_for(1000), 2);
    let mut prev = gap_size_for(0);
    for s in 1..200 {
        let g = gap_size_for(s);
        assert!(g <= prev);
        assert!(g >= 2);
        prev = g;
    }
}

#[test]
fn from_roll_at_score_zero() {
    let o = Obstacle::from_roll(85, 0, roll(25, 1500));
    assert_eq!(o, Obstacle { x: 85, gap_y: 25, size: 20, x_velocity: -1500 });
}

#[test]
fn from_roll_at_score_fifty() {
    let o = Obstacle::from_roll(85, 50, roll(12, 2500));
    assert_eq!(o, Obstacle { x: 85, gap_y: 12, size: 10, x_velocity: -7500 });
}

#[test]
fn new_obstacle_at_score_zero() {
    for _ in 0..200 {
        let o = Obstacle::new(100, 0);
        assert_eq!(o.x, 100);
        assert_eq!(o.size, 20);
        assert!(o.x_velocity > -3000 && o.x_velocity < -1000);
        assert!(o.gap_y >= 10 && o.gap_y < 40);
    }
}

#[test]
fn new_obstacle_at_score_fifty() {
    for _ in 0..200 {
        let o = Obstacle::new(100, 50);
        assert_eq!(o.size, 10);
        assert!(o.x_velocity > -8000 && o.x_velocity < -6000);
    }
}

#[test]
fn new_obstacles_vary() {
    let first = Obstacle::new(0, 0);
    let mut gap_differs = false;
    let mut speed_differs = false;
    for _ in 0..500 {
        let o = Obstacle::new(0, 0);
        gap_differs = gap_differs || o.gap_y != first.gap_y;
        speed_differs = speed_differs || o.x_velocity != first.x_velocity;
    }
    assert!(gap_differs);
    assert!(speed_differs);
}

#[test]
fn update_moves_by_truncated_velocity() {
    let mut o = Obstacle { x: 50, gap_y: 20, size: 20, x_velocity: -1999 };
    o.update();
    assert_eq!(o.x, 49);
    let mut f = Obstacle { x: 50, gap_y: 20, size: 20, x_velocity: -7500 };
    f.update();
    assert_eq!(f.x, 43);
}

#[test]
fn far_player_never_collides() {
    let o = Obstacle { x: 40, gap_y: 20, size: 10, x_velocity: -1500 };
    for y in -10..100 {
        assert!(!o.hit_obstacle(&Player { x: 42, y, velocity: 0 }));
        assert!(!o.hit_obstacle(&Player { x: 38, y, velocity: 0 }));
    }
}

#[test]
fn player_at_gap_center_never_collides() {
    let o = Obstacle { x: 40, gap_y: 20, size: 10, x_velocity: -1500 };
    for x in 39..42 {
        assert!(!o.hit_obstacle(&Player { x, y: 20, velocity: 0 }));
    }
}

#[test]
fn player_just_outside_gap_collides() {
    let o = Obstacle { x: 40, gap_y: 20, size: 10, x_velocity: -1500 };
    for x in 39..42 {
        assert!(o.hit_obstacle(&Player { x, y: 26, velocity: 0 }));
        assert!(o.hit_obstacle(&Player { x, y: 14, velocity: 0 }));
        assert!(!o.hit_obstacle(&Player { x, y: 25, velocity: 0 }));
        assert!(!o.hit_obstacle(&Player { x, y: 15, velocity: 0 }));
    }
    let odd = Obstacle { x: 40, gap_y: 20, size: 7, x_velocity: -1500 };
    assert!(odd.hit_obstacle(&Player { x: 40, y: 24, velocity: 0 }));
    assert!(!odd.hit_obstacle(&Player { x: 40, y: 23, velocity: 0 }));
}

#[test]
fn new_state_shows_menu() {
    let s = State::new();
    assert_eq!(s.mode, GameMode::Menu);
    assert_eq!(s.player, Player { x: 5, y: 25, velocity: 0 });
    assert_eq!(s.score, 0);
    assert!(s.obstacles.is_empty());
    assert_eq!(s.obstacle_interval, START_INTERVAL_US);
}

#[test]
fn restart_resets_everything() {
    let mut s = State::new();
    s.restart();
    s.play_with(150_000, false, roll(20, 1500), roll(30, 2000));
    s.score = 7;
    s.obstacle_interval = 170_000;
    s.mode = GameMode::End;
    s.restart();
    assert_eq!(s.mode, GameMode::Playing);
    assert_eq!(s.score, 0);
    assert!(s.obstacles.is_empty());
    assert_eq!(s.player, Player { x: 5, y: 25, velocity: 0 });
    assert_eq!(s.frame_time, 0);
    assert_eq!(s.obstacle_interval, 200_000);
    assert_eq!(s.obstacle_timer, 200_000);
}

#[test]
fn spawn_interval_shrinks_per_spawn_event() {
    let mut s = State::new();
    s.restart();
    s.play_with(0, false, roll(20, 1500), roll(20, 1500));
    assert_eq!(s.obstacle_interval, 200_000);
    assert!(s.obstacles.is_empty());
    s.play_with(1, false, roll(20, 1500), roll(20, 1500));
    assert_eq!(s.obstacle_interval, 199_000);
    for n in 2..70u64 {
        let wait = s.obstacle_interval;
        s.play_with(wait as u32, false, roll(20, 1500), roll(20, 1500));
        assert_eq!(s.obstacle_interval, wait);
        s.play_with(1, false, roll(20, 1500), roll(20, 1500));
        let expect = if n <= 50 { 200_000 - 1_000 * n } else { MIN_INTERVAL_US };
        assert_eq!(s.obstacle_interval, expect);
    }
}

#[test]
fn first_spawn_places_two_obstacles() {
    let mut s = State::new();
    s.restart();
    s.play_with(1, false, roll(15, 1500), roll(33, 2500));
    assert_eq!(s.obstacles.len(), 2);
    assert_eq!(s.obstacles[0], Obstacle { x: 84, gap_y: 15, size: 20, x_velocity: -1500 });
    assert_eq!(s.obstacles[1], Obstacle { x: 83, gap_y: 33, size: 20, x_velocity: -2500 });
    assert_eq!(s.obstacle_timer, 0);
    assert_eq!(s.mode, GameMode::Playing);
}

#[test]
fn far_reference_spawns_one_obstacle() {
    let mut s = State::new();
    s.restart();
    s.obstacles.push(Obstacle { x: 60, gap_y: 25, size: 20, x_velocity: -1000 });
    s.play_with(1, false, roll(15, 1500), roll(33, 2500));
    assert_eq!(s.obstacles.len(), 2);
    assert_eq!(s.obstacles[0].x, 59);
    assert_eq!(s.obstacles[1], Obstacle { x: 138, gap_y: 33, size: 20, x_velocity: -2500 });
}

#[test]
fn physics_step_waits_for_frame_duration() {
    let mut s = State::new();
    s.restart();
    s.obstacle_timer = 0;
    s.play_with(100_000, false, roll(20, 1500), roll(20, 1500));
    assert_eq!(s.player, Player { x: 5, y: 25, velocity: 0 });
    assert_eq!(s.frame_time, 100_000);
    s.play_with(1, false, roll(20, 1500), roll(20, 1500));
    assert_eq!(s.player, Player { x: 6, y: 25, velocity: 8 });
    assert_eq!(s.frame_time, 0);
}

#[test]
fn flap_while_playing() {
    let mut s = State::new();
    s.restart();
    s.obstacle_timer = 0;
    s.play_with(10, true, roll(20, 1500), roll(20, 1500));
    assert_eq!(s.player.velocity, -27);
}

#[test]
fn culls_obstacles_far_behind() {
    let mut s = State::new();
    s.restart();
    s.obstacle_timer = 0;
    s.player.x = 200;
    s.obstacles.push(Obstacle { x: 120, gap_y: 25, size: 20, x_velocity: -1000 });
    s.obstacles.push(Obstacle { x: 121, gap_y: 25, size: 20, x_velocity: -1000 });
    s.obstacles.push(Obstacle { x: 400, gap_y: 25, size: 20, x_velocity: -1000 });
    s.play_with(10, false, roll(20, 1500), roll(20, 1500));
    let xs: Vec<i32> = s.obstacles.iter().map(|o| o.x).collect();
    assert_eq!(xs, vec![399]);
    assert_eq!(s.score, 1);
}

#[test]
fn passing_first_obstacle_scores() {
    let mut s = State::new();
    s.restart();
    s.obstacle_timer = 0;
    s.player.x = 100;
    s.obstacles.push(Obstacle { x: 90, gap_y: 25, size: 20, x_velocity: -1000 });
    s.obstacles.push(Obstacle { x: 95, gap_y: 25, size: 20, x_velocity: -1000 });
    s.play_with(10, false, roll(20, 1500), roll(20, 1500));
    assert_eq!(s.score, 1);
    assert_eq!(s.obstacles.len(), 1);
    assert_eq!(s.obstacles[0].x, 94);
}

#[test]
fn not_yet_past_obstacle_keeps_score() {
    let mut s = State::new();
    s.restart();
    s.obstacle_timer = 0;
    s.player.x = 100;
    s.obstacles.push(Obstacle { x: 91, gap_y: 25, size: 20, x_velocity: -1000 });
    s.play_with(10, false, roll(20, 1500), roll(20, 1500));
    assert_eq!(s.obstacles.len(), 1);
    assert_eq!(s.obstacles[0].x, 90);
    assert_eq!(s.score, 0);
}

#[test]
fn collision_ends_game() {
    let mut s = State::new();
    s.restart();
    s.obstacle_timer = 0;
    s.obstacles.push(Obstacle { x: 7, gap_y: 10, size: 4, x_velocity: -1000 });
    s.play_with(10, false, roll(20, 1500), roll(20, 1500));
    assert_eq!(s.mode, GameMode::End);
}

#[test]
fn player_in_gap_keeps_playing() {
    let mut s = State::new();
    s.restart();
    s.obstacle_timer = 0;
    s.obstacles.push(Obstacle { x: 7, gap_y: 25, size: 4, x_velocity: -1000 });
    s.play_with(10, false, roll(20, 1500), roll(20, 1500));
    assert_eq!(s.mode, GameMode::Playing);
}

#[test]
fn falling_below_field_ends_game() {
    let mut s = State::new();
    s.restart();
    s.obstacle_timer = 0;
    s.player.y = 51;
    s.obstacles.push(Obstacle { x: 300, gap_y: 25, size: 4, x_velocity: -1000 });
    s.play_with(10, false, roll(20, 1500), roll(20, 1500));
    assert_eq!(s.mode, GameMode::End);
}

#[test]
fn menu_keys() {
    let mut s = State::new();
    assert!(!s.tick(10, None));
    assert_eq!(s.mode, GameMode::Menu);
    assert!(!s.tick(10, Some(Key::Space)));
    assert_eq!(s.mode, GameMode::Menu);
    assert!(s.tick(10, Some(Key::Q)));
    assert_eq!(s.mode, GameMode::Menu);
    assert!(!s.tick(10, Some(Key::P)));
    assert_eq!(s.mode, GameMode::Playing);
    assert_eq!(s.obstacle_timer, 200_000);
}

#[test]
fn end_screen_keys() {
    let mut s = State::new();
    s.restart();
    s.mode = GameMode::End;
    s.score = 4;
    assert!(!s.dead(Some(Key::Other)));
    assert_eq!(s.score, 4);
    assert!(s.dead(Some(Key::Q)));
    assert!(!s.dead(Some(Key::P)));
    assert_eq!(s.mode, GameMode::Playing);
    assert_eq!(s.score, 0);
}

#[test]
fn q_while_playing_does_not_quit() {
    let mut s = State::new();
    s.restart();
    assert!(!s.tick_with(10, Some(Key::Q), roll(20, 1500), roll(20, 1500)));
    assert_eq!(s.mode, GameMode::Playing);
}

#[test]
fn limits_check() {
    let mut s = State::new();
    assert!(s.within_limits());
    s.obstacles.push(Obstacle { x: -2_000_000_000, gap_y: 25, size: 4, x_velocity: -1000 });
    assert!(!s.within_limits());
    let mut t = State::new();
    t.score = 2_000_000;
    assert!(!t.within_limits());
}

#[test]
fn screen_column_and_wall_rows() {
    let o = Obstacle { x: 30, gap_y: 20, size: 10, x_velocity: -1000 };
    assert_eq!(o.screen_column(10), Some(20));
    assert_eq!(o.screen_column(31), Some(-1));
    assert_eq!(o.screen_column(32), None);
    assert!(o.is_wall_row(14));
    assert!(!o.is_wall_row(15));
    assert!(!o.is_wall_row(24));
    assert!(o.is_wall_row(25));
}

#[test]
fn falling_below_field_without_obstacles_ends_game() {
    let mut s = State::new();
    s.restart();
    s.obstacle_timer = 0;
    s.player.y = 51;
    s.play_with(10, false, roll(20, 1500), roll(20, 1500));
    assert!(s.obstacles.is_empty());
    assert_eq!(s.mode, GameMode::End);
}

#[test]
fn player_at_bottom_row_keeps_playing() {
    let mut s = State::new();
    s.restart();
    s.obstacle_timer = 0;
    s.player.y = 50;
    s.play_with(10, false, roll(20, 1500), roll(20, 1500));
    assert_eq!(s.mode, GameMode::Playing);
}
