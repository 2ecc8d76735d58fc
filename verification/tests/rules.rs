use rust_invaders::combat::{enemy_laser_hit_player, first_hit, player_laser_hit_enemy, HitCommand};
use rust_invaders::enemies::{enemy_spawn, ActiveEnemies};
use rust_invaders::explosion::{animate_explosion, EXPLOSION_LEN};
use rust_invaders::formation::FormationMaker;
use rust_invaders::player::{player_direction, player_fire, PlayerReadyFire, PlayerState};
use rust_invaders::{ENEMY_MAX, MAX_FORMATION_MEMBERS};

use HitCommand::{DespawnLaser, DestroyEnemy};

#[test]
fn formations_are_shared_by_two_members() {
    let mut maker: FormationMaker<u32> = FormationMaker::default();
    assert_eq!(maker.group_seq(), 0);
    assert!(maker.needs_new_group());

    let f1 = maker.make(10);
    assert_eq!((f1.geometry, f1.group_id), (10, 1));
    assert!(!maker.needs_new_group());

    let f2 = maker.make(11);
    assert_eq!((f2.geometry, f2.group_id), (10, 1));
    assert!(maker.needs_new_group());

    let f3 = maker.make(12);
    assert_eq!((f3.geometry, f3.group_id), (12, 2));
    assert_eq!(maker.group_seq(), 2);

    let f4 = maker.make(13);
    assert_eq!((f4.geometry, f4.group_id), (12, 2));

    let f5 = maker.make(14);
    assert_eq!((f5.geometry, f5.group_id), (14, 3));
}

#[test]
fn nth_formation_belongs_to_group_n_div_max_plus_one() {
    let mut maker: FormationMaker<usize> = FormationMaker::default();
    let max = MAX_FORMATION_MEMBERS as usize;
    for n in 0..20usize {
        let f = maker.make(n);
        assert_eq!(f.group_id as usize, n / max + 1);
        assert_eq!(f.geometry, (n / max) * max);
    }
}

#[test]
fn spawning_stops_at_enemy_max() {
    let mut active = ActiveEnemies::default();
    let mut maker: FormationMaker<u8> = FormationMaker::default();
    assert_eq!(active.count(), 0);

    let a = enemy_spawn(&mut active, &mut maker, 1).unwrap();
    assert_eq!((a.geometry, a.group_id), (1, 1));
    assert_eq!(active.count(), 1);

    let b = enemy_spawn(&mut active, &mut maker, 2).unwrap();
    assert_eq!((b.geometry, b.group_id), (1, 1));
    assert_eq!(active.count(), ENEMY_MAX);

    assert!(enemy_spawn(&mut active, &mut maker, 3).is_none());
    assert_eq!(active.count(), ENEMY_MAX);
    // the maker is untouched when nothing spawns
    assert_eq!(maker.group_seq(), 1);

    active.enemy_destroyed();
    assert_eq!(active.count(), 1);
    let c = enemy_spawn(&mut active, &mut maker, 4).unwrap();
    assert_eq!((c.geometry, c.group_id), (4, 2));
    assert_eq!(active.count(), 2);
}

#[test]
fn one_laser_destroys_one_enemy() {
    let ids = vec![100, 200];
    let hits = vec![vec![false, true]];
    assert_eq!(player_laser_hit_enemy(&ids, &hits), vec![DestroyEnemy(1), DespawnLaser(0)]);
}

#[test]
fn an_enemy_hit_twice_is_destroyed_once() {
    let ids = vec![100, 200, 300];
    let hits = vec![vec![true, false, false], vec![true, false, true], vec![false, false, false]];
    assert_eq!(
        player_laser_hit_enemy(&ids, &hits),
        vec![DestroyEnemy(0), DespawnLaser(0), DespawnLaser(1), DestroyEnemy(2), DespawnLaser(1)]
    );
}

#[test]
fn enemies_with_the_same_id_are_destroyed_once() {
    let ids = vec![7, 7];
    let hits = vec![vec![true, true]];
    assert_eq!(
        player_laser_hit_enemy(&ids, &hits),
        vec![DestroyEnemy(0), DespawnLaser(0), DespawnLaser(0)]
    );
}

#[test]
fn no_overlap_no_command() {
    let ids = vec![1, 2];
    let hits = vec![vec![false, false], vec![false, false]];
    assert!(player_laser_hit_enemy(&ids, &hits).is_empty());
    let no_lasers: Vec<Vec<bool>> = Vec::new();
    assert!(player_laser_hit_enemy(&ids, &no_lasers).is_empty());
    let no_enemies: Vec<u64> = Vec::new();
    assert!(player_laser_hit_enemy(&no_enemies, &vec![vec![], vec![]]).is_empty());
}

#[test]
fn short_rows_leave_missing_enemies_unhit() {
    let ids = vec![1, 2, 3];
    let hits = vec![vec![false], vec![false, true, true, true]];
    assert_eq!(
        player_laser_hit_enemy(&ids, &hits),
        vec![DestroyEnemy(1), DespawnLaser(1), DestroyEnemy(2), DespawnLaser(1)]
    );
}

#[test]
fn first_hit_finds_the_first_overlap() {
    assert_eq!(first_hit(&vec![false, true, true]), Some(1));
    assert_eq!(first_hit(&vec![true]), Some(0));
    assert_eq!(first_hit(&vec![false, false]), None);
    assert_eq!(first_hit(&Vec::new()), None);
}

#[test]
fn enemy_laser_shoots_the_player_down() {
    let mut state = PlayerState::default();
    state.spawned();
    assert_eq!(enemy_laser_hit_player(&mut state, &vec![false, false], 5), None);
    assert_eq!(state, PlayerState { on: true, last_shot: None });

    assert_eq!(enemy_laser_hit_player(&mut state, &vec![false, true, true], 42), Some(1));
    assert_eq!(state, PlayerState { on: false, last_shot: Some(42) });
}

#[test]
fn player_state_shot_and_spawned() {
    let mut state = PlayerState::default();
    assert_eq!(state, PlayerState { on: false, last_shot: None });
    state.spawned();
    assert_eq!(state, PlayerState { on: true, last_shot: None });
    state.shot(1_500_000_000);
    assert_eq!(state, PlayerState { on: false, last_shot: Some(1_500_000_000) });
    state.spawned();
    assert_eq!(state, PlayerState { on: true, last_shot: None });
}

#[test]
fn holding_fire_shoots_once_per_press() {
    let mut gun = PlayerReadyFire(true);
    assert!(player_fire(&mut gun, true, false));
    assert_eq!(gun, PlayerReadyFire(false));
    assert!(!player_fire(&mut gun, true, false));
    assert!(!player_fire(&mut gun, true, false));
    // release reloads
    assert!(!player_fire(&mut gun, false, true));
    assert_eq!(gun, PlayerReadyFire(true));
    assert!(!player_fire(&mut gun, false, false));
    assert_eq!(gun, PlayerReadyFire(true));
    assert!(player_fire(&mut gun, true, false));
}

#[test]
fn fire_and_release_in_one_frame_reloads() {
    let mut gun = PlayerReadyFire(true);
    assert!(player_fire(&mut gun, true, true));
    assert_eq!(gun, PlayerReadyFire(true));
    let mut empty = PlayerReadyFire(false);
    assert!(!player_fire(&mut empty, true, true));
    assert_eq!(empty, PlayerReadyFire(true));
}

#[test]
fn direction_prefers_left() {
    assert_eq!(player_direction(true, false), -1);
    assert_eq!(player_direction(true, true), -1);
    assert_eq!(player_direction(false, true), 1);
    assert_eq!(player_direction(false, false), 0);
}

#[test]
fn explosion_runs_through_every_frame() {
    let mut index = 0usize;
    let mut ticks = 0usize;
    loop {
        let (next, stay) = animate_explosion(index, false);
        assert_eq!((next, stay), (index, false));
        let (next, despawn) = animate_explosion(index, true);
        ticks += 1;
        index = next;
        if despawn {
            break;
        }
    }
    assert_eq!(ticks, EXPLOSION_LEN);
    assert_eq!(index, EXPLOSION_LEN);
    assert_eq!(animate_explosion(3, true), (4, false));
    assert_eq!(animate_explosion(15, true), (16, true));
    assert_eq!(animate_explosion(40, true), (41, true));
}
