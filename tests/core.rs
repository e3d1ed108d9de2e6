use arena_core::assets::{load_animations, str_contains, AnimationCatalog, AnimationId, CatalogError, GameAssetsHandles, LayoutHandle, SheetHandle};
use arena_core::combat::{CollisionStarted, EnemyHit, FLASH_TINT};
use arena_core::common::{isqrt, step_toward, Health, IVec2, Speed, PLAYER_BOUND, WORLD_BOUND};
use arena_core::enemy::{new_enemy, random_draws, AnimationRepetitionEnd, ENEMY_HEALTH, ENEMY_SPEED};
use arena_core::movement::{update_direction, DirectionChanged, KeyInput, MovementDirection};
use arena_core::resources::{Resource, ResourceCollected, Resources};
use arena_core::schedule::Frame;
use arena_core::spawn::{SpawnDirection, WindowSize};
use arena_core::timer::{Timer, TimerMode};
use arena_core::world::{empty_components, Collider, Components, Enemy, GameState, Weapon, World, WHITE};

fn catalog_with(names: &[&str]) -> AnimationCatalog {
    let mut c = AnimationCatalog::new();
    for n in names {
        c.register(n.to_string(), vec![0, 1, 2]).unwrap();
    }
    c
}

fn full_catalog() -> AnimationCatalog {
    catalog_with(&[
        "player_idle",
        "player_running_up",
        "player_running_up_left",
        "player_running_left",
        "player_running_down_left",
        "player_running_down",
        "player_running_down_right",
        "player_running_right",
        "player_running_up_right",
        "monk_walk",
        "monk_idle",
        "gold_blink",
        "crystals_blink",
        "gems_blink",
        "mercury",
        "sulfur",
        "ore",
        "wood",
    ])
}

fn handles() -> GameAssetsHandles {
    GameAssetsHandles::new(
        vec![("sheets/cleric.png".to_string(), SheetHandle(1))],
        vec![
            ("sheets/halfling.png".to_string(), SheetHandle(2)),
            ("sheets/monk.png".to_string(), SheetHandle(3)),
        ],
        vec![
            ("halfling_layout".to_string(), LayoutHandle(5)),
            ("monk_layout".to_string(), LayoutHandle(6)),
        ],
    )
    .unwrap()
}

fn no_handles() -> GameAssetsHandles {
    GameAssetsHandles::new(vec![], vec![], vec![]).unwrap()
}

/// A running world with its player (and orb) at the origin.
fn running_world() -> World {
    let mut w = World::new(full_catalog(), handles());
    w.finish_loading();
    w
}

fn live(w: &World, id: usize) -> &Components {
    w.entities[id].as_ref().expect("entity should be alive")
}

fn enemy_at(w: &mut World, x: i64, y: i64) -> usize {
    let c = new_enemy("monk", ENEMY_SPEED, ENEMY_HEALTH, IVec2 { x, y }, &w.handles, &w.catalog).unwrap();
    w.spawn(c)
}

fn v(x: i64, y: i64) -> IVec2 {
    IVec2 { x, y }
}

#[test]
fn classifies_canonical_vectors() {
    assert_eq!(MovementDirection::from_vec2(v(0, 0)), MovementDirection::Idle);
    assert_eq!(MovementDirection::from_vec2(v(0, 1)), MovementDirection::Up);
    assert_eq!(MovementDirection::from_vec2(v(1, 1)), MovementDirection::RightUp);
    assert_eq!(MovementDirection::from_vec2(v(1, 0)), MovementDirection::Right);
    assert_eq!(MovementDirection::from_vec2(v(1, -1)), MovementDirection::DownRight);
    assert_eq!(MovementDirection::from_vec2(v(0, -1)), MovementDirection::Down);
    assert_eq!(MovementDirection::from_vec2(v(-1, -1)), MovementDirection::DownLeft);
    assert_eq!(MovementDirection::from_vec2(v(-1, 0)), MovementDirection::Left);
    assert_eq!(MovementDirection::from_vec2(v(-1, 1)), MovementDirection::UpLeft);
}

#[test]
fn other_vectors_are_idle() {
    assert_eq!(MovementDirection::from_vec2(v(2, 2)), MovementDirection::Idle);
    assert_eq!(MovementDirection::from_vec2(v(0, 5)), MovementDirection::Idle);
    assert_eq!(MovementDirection::from_vec2(v(-3, 1)), MovementDirection::Idle);
}

#[test]
fn opposite_keys_cancel() {
    let input = KeyInput { up: true, down: true, left: true, right: false };
    assert_eq!(input.direction(), v(-1, 0));
    let all = KeyInput { up: true, down: true, left: true, right: true };
    assert_eq!(all.direction(), v(0, 0));
}

#[test]
fn direction_event_fires_once_per_transition() {
    let mut current = MovementDirection::Idle;
    assert_eq!(update_direction(&mut current, MovementDirection::Up), Some(DirectionChanged(MovementDirection::Up)));
    assert_eq!(update_direction(&mut current, MovementDirection::Up), None);
    assert_eq!(current, MovementDirection::Up);
    assert_eq!(update_direction(&mut current, MovementDirection::Left), Some(DirectionChanged(MovementDirection::Left)));
}

#[test]
fn player_moves_and_reports_facing_once() {
    let mut w = running_world();
    let right = KeyInput { up: false, down: false, left: false, right: true };
    let ev = w.move_player(right, 1000);
    assert_eq!(ev, Some(DirectionChanged(MovementDirection::Right)));
    assert_eq!(live(&w, 0).position, v(100_000, 0));
    assert_eq!(live(&w, 0).animation, Some(AnimationId(7)));
    assert!(!live(&w, 0).flip_x);
    assert_eq!(w.move_player(right, 1000), None);
    assert_eq!(live(&w, 0).position, v(200_000, 0));
    let up_left = KeyInput { up: true, down: false, left: true, right: false };
    assert_eq!(w.move_player(up_left, 1000), Some(DirectionChanged(MovementDirection::UpLeft)));
    assert_eq!(live(&w, 0).position, v(129_300, 70_700));
    assert!(live(&w, 0).flip_x);
    assert_eq!(live(&w, 0).animation, Some(AnimationId(2)));
}

#[test]
fn integer_square_root() {
    assert_eq!(isqrt(0), 0);
    assert_eq!(isqrt(24), 4);
    assert_eq!(isqrt(25), 5);
    assert_eq!(isqrt(u64::MAX), 4_294_967_295);
}

#[test]
fn step_toward_stops_at_target() {
    assert_eq!(step_toward(v(0, 0), v(30, 40), 5), v(3, 4));
    assert_eq!(step_toward(v(0, 0), v(-30, -40), 10), v(-6, -8));
    assert_eq!(step_toward(v(0, 0), v(3, 4), 100), v(3, 4));
    assert_eq!(step_toward(v(7, 7), v(7, 7), 100), v(7, 7));
}

#[test]
fn repeating_timer_carries_remainder() {
    let mut t = Timer::new(50, TimerMode::Repeating);
    assert_eq!(t.tick(30), 0);
    assert_eq!(t.tick(30), 1);
    assert_eq!(t.elapsed, 10);
    assert_eq!(t.tick(140), 3);
    assert_eq!(t.elapsed, 0);
}

#[test]
fn one_shot_timer_fires_once() {
    let mut t = Timer::new(100, TimerMode::Once);
    assert_eq!(t.tick(60), 0);
    assert_eq!(t.tick(60), 1);
    assert!(t.finished());
    assert_eq!(t.tick(500), 0);
}

#[test]
fn health_clamps_to_dying() {
    let mut w = running_world();
    let mut c = empty_components(v(500, 500));
    c.enemy = Some(Enemy);
    c.health = Some(Health(10));
    c.collider = Some(Collider::Rectangle { width: 15, height: 45 });
    let id = w.spawn(c);
    w.deal_damage_to_enemy(&vec![EnemyHit { enemy: id, damage: 15 }]);
    let e = live(&w, id);
    assert!(e.dying.is_some());
    assert_eq!(e.health, None);
    assert_eq!(e.collider, None);
}

#[test]
fn damage_below_health_subtracts() {
    let mut w = running_world();
    let id = enemy_at(&mut w, 500, 500);
    w.deal_damage_to_enemy(&vec![EnemyHit { enemy: id, damage: 15 }, EnemyHit { enemy: id, damage: 5 }]);
    assert_eq!(live(&w, id).health, Some(Health(20)));
    assert!(live(&w, id).dying.is_none());
    w.deal_damage_to_enemy(&vec![EnemyHit { enemy: id, damage: 20 }]);
    assert!(live(&w, id).dying.is_some());
    assert_eq!(live(&w, id).animation, Some(AnimationId(10)));
    w.deal_damage_to_enemy(&vec![EnemyHit { enemy: id, damage: 5 }]);
    assert_eq!(live(&w, id).health, None);
}

#[test]
fn hits_on_missing_entities_are_dropped() {
    let mut w = running_world();
    let before = w.entities.clone();
    w.deal_damage_to_enemy(&vec![EnemyHit { enemy: 999, damage: 5 }]);
    assert_eq!(w.entities, before);
}

#[test]
fn hit_flashes_then_restores_tint() {
    let mut w = running_world();
    let id = enemy_at(&mut w, 500, 500);
    w.deal_damage_to_enemy(&vec![EnemyHit { enemy: id, damage: 1 }]);
    assert_eq!(live(&w, id).tint.0, FLASH_TINT);
    assert_eq!(live(&w, id).old_tint.map(|t| t.0), Some(WHITE));
    w.change_color_to_normal(60);
    assert_eq!(live(&w, id).tint.0, FLASH_TINT);
    w.change_color_to_normal(60);
    assert_eq!(live(&w, id).tint.0, WHITE);
    assert!(live(&w, id).flash_timer.is_none());
    assert!(live(&w, id).old_tint.is_none());
}

#[test]
fn damage_over_time_ticks() {
    let mut w = running_world();
    let id = enemy_at(&mut w, 500, 500);
    w.tick_damage_over_time(1999);
    assert_eq!(live(&w, id).health, Some(Health(40)));
    w.tick_damage_over_time(1);
    assert_eq!(live(&w, id).health, Some(Health(39)));
    w.tick_damage_over_time(6000);
    assert_eq!(live(&w, id).health, Some(Health(36)));
}

#[test]
fn orb_collision_becomes_hit_either_way() {
    let mut w = running_world();
    let orb = 1;
    assert!(matches!(live(&w, orb).weapon, Some(Weapon::Orb { damage: 10, .. })));
    let id = enemy_at(&mut w, 50, 0);
    // no collider yet: not hittable
    assert!(w.detect_collision_with_enemy(&vec![CollisionStarted(orb, id)]).is_empty());
    w.add_colliders_to_close_enemies();
    let hits = w.detect_collision_with_enemy(&vec![CollisionStarted(orb, id), CollisionStarted(id, orb), CollisionStarted(0, id)]);
    assert_eq!(hits, vec![EnemyHit { enemy: id, damage: 10 }, EnemyHit { enemy: id, damage: 10 }]);
}

#[test]
fn single_despawn_and_drop_per_death() {
    let mut w = running_world();
    let id = enemy_at(&mut w, 300, 300);
    w.kill_all_on_screen(true);
    assert!(live(&w, id).dying.is_some());
    let ev = AnimationRepetitionEnd { entity: id, animation_repetition: 1 };
    let n = w.entities.len();
    w.on_animation_repetition_end(ev, 0);
    assert!(w.entities[id].is_none());
    assert_eq!(w.entities.len(), n + 1);
    let drop = live(&w, n);
    assert_eq!(drop.resource, Some(Resource::Gold));
    assert_eq!(drop.position, v(300, 300));
    w.on_animation_repetition_end(ev, 50);
    w.on_death_animation_end(&vec![ev, ev]);
    assert_eq!(w.entities.len(), n + 1);
}

#[test]
fn other_repetitions_do_not_despawn() {
    let mut w = running_world();
    let id = enemy_at(&mut w, 300, 300);
    w.on_animation_repetition_end(AnimationRepetitionEnd { entity: id, animation_repetition: 1 }, 0);
    assert!(w.entities[id].is_some());
    w.kill_all_on_screen(true);
    w.on_animation_repetition_end(AnimationRepetitionEnd { entity: id, animation_repetition: 2 }, 0);
    assert!(w.entities[id].is_some());
    w.on_death_animation_end(&vec![AnimationRepetitionEnd { entity: id, animation_repetition: 1 }]);
    assert!(w.entities[id].is_none());
}

#[test]
fn resource_tally() {
    let mut inv = Resources::new();
    for _ in 0..3 {
        inv.on_resource_collected(ResourceCollected { resource: Resource::Gold, amount: 1 });
    }
    for _ in 0..2 {
        inv.on_resource_collected(ResourceCollected { resource: Resource::Wood, amount: 1 });
    }
    assert_eq!(inv.gold, 3);
    assert_eq!(inv.wood, 2);
    assert_eq!(inv.crystals, 0);
    assert_eq!(inv.mercury, 0);
    assert_eq!(inv.sulfur, 0);
    assert_eq!(inv.ore, 0);
    assert_eq!(inv.gems, 0);
}

#[test]
fn tally_saturates() {
    let mut inv = Resources::default();
    inv.on_resource_collected(ResourceCollected { resource: Resource::Gems, amount: u32::MAX });
    inv.on_resource_collected(ResourceCollected { resource: Resource::Gems, amount: 1 });
    assert_eq!(inv.get(Resource::Gems), u32::MAX);
}

#[test]
fn pickup_collects_touched_resources() {
    let mut w = running_world();
    let mut ids = Vec::new();
    for (i, draw) in [0i64, 10, 19, 25, 35].iter().enumerate() {
        let e = enemy_at(&mut w, 1000 + i as i64, 0);
        ids.push(e);
        w.kill_all_on_screen(true);
        let n = w.entities.len();
        w.on_animation_repetition_end(AnimationRepetitionEnd { entity: e, animation_repetition: 1 }, *draw);
        ids.push(n);
    }
    let drops: Vec<usize> = ids.iter().copied().skip(1).step_by(2).collect();
    let mut touched = drops.clone();
    touched.push(drops[0]);
    touched.push(0);
    w.resource_pickup(&touched);
    assert_eq!(w.resources.gold, 3);
    assert_eq!(w.resources.wood, 2);
    assert_eq!(w.resources.ore, 0);
    assert!(drops.iter().all(|d| w.entities[*d].is_none()));
    assert!(w.entities[0].is_some());
}

#[test]
fn weighted_resource_table() {
    assert_eq!(Resource::from_draw(0), Resource::Gold);
    assert_eq!(Resource::from_draw(19), Resource::Gold);
    assert_eq!(Resource::from_draw(20), Resource::Wood);
    assert_eq!(Resource::from_draw(40), Resource::Sulfur);
    assert_eq!(Resource::from_draw(60), Resource::Ore);
    assert_eq!(Resource::from_draw(80), Resource::Mercury);
    assert_eq!(Resource::from_draw(90), Resource::Crystals);
    assert_eq!(Resource::from_draw(94), Resource::Crystals);
    assert_eq!(Resource::from_draw(95), Resource::Gems);
    assert_eq!(Resource::from_draw(99), Resource::Gems);
}

#[test]
fn spawn_direction_table() {
    assert_eq!(SpawnDirection::from_draw(0), SpawnDirection::East);
    assert_eq!(SpawnDirection::from_draw(1), SpawnDirection::North);
    assert_eq!(SpawnDirection::from_draw(2), SpawnDirection::South);
    assert_eq!(SpawnDirection::from_draw(3), SpawnDirection::West);
}

#[test]
fn west_spawn_point_is_offscreen() {
    let window = WindowSize { width: 800, height: 600 };
    let player = v(100_000, 50_000);
    let p = SpawnDirection::West.spawn_point(&window, &player, 120_000);
    assert_eq!(p, v(100_000 - 400_000 - 30_000, 120_000));
    assert!(p.x <= 100_000 - 400_000 - 30_000);
    let clamped = SpawnDirection::West.spawn_point(&window, &player, 10_000_000);
    assert_eq!(clamped, v(-330_000, 350_000));
    assert_eq!(SpawnDirection::West.calculate_x(&window, &player), Some(-330_000));
    assert_eq!(SpawnDirection::West.calculate_y(&window, &player), None);
}

#[test]
fn other_spawn_edges() {
    let window = WindowSize { width: 801, height: 600 };
    let player = v(0, 0);
    assert_eq!(SpawnDirection::East.spawn_point(&window, &player, -5), v(400_500 + 30_000, -5));
    assert_eq!(SpawnDirection::North.spawn_point(&window, &player, 7), v(7, 330_000));
    assert_eq!(SpawnDirection::South.spawn_point(&window, &player, -900_000), v(-400_500, -330_000));
    assert_eq!(SpawnDirection::North.along_bounds(&window, &player), (-400_500, 400_500));
}

#[test]
fn random_spawns_land_beyond_the_window() {
    let mut w = running_world();
    let window = WindowSize { width: 640, height: 480 };
    let mut edges = [false; 4];
    for _ in 0..200 {
        let n = w.entities.len();
        w.spawn_enemy(50, window);
        assert_eq!(w.entities.len(), n + 1);
        let p = live(&w, n).position;
        let side = if p.x <= -350_000 && p.y.abs() <= 240_000 {
            0
        } else if p.x >= 350_000 && p.y.abs() <= 240_000 {
            1
        } else if p.y <= -270_000 && p.x.abs() <= 320_000 {
            2
        } else if p.y >= 270_000 && p.x.abs() <= 320_000 {
            3
        } else {
            panic!("spawn point {:?} is inside the window", p);
        };
        edges[side] = true;
    }
    assert!(edges.iter().filter(|e| **e).count() >= 2);
}

#[test]
fn spawner_waits_for_its_period_and_assets() {
    let mut w = running_world();
    let window = WindowSize { width: 100, height: 100 };
    let n = w.entities.len();
    w.spawn_enemy_with(49, window, 3, 0);
    assert_eq!(w.entities.len(), n);
    w.spawn_enemy_with(1, window, 3, 0);
    assert_eq!(w.entities.len(), n + 1);
    assert_eq!(live(&w, n).position, v(-80_000, 0));
    assert_eq!(live(&w, n).sheet, Some(SheetHandle(3)));
    let mut bare = World::new(catalog_with(&["player_idle"]), handles());
    bare.finish_loading();
    let m = bare.entities.len();
    bare.spawn_enemy_with(50, window, 0, 0);
    assert_eq!(bare.entities.len(), m);
}

#[test]
fn proximity_gated_collider() {
    let mut w = running_world();
    let far = enemy_at(&mut w, 300_000, 0);
    let near = enemy_at(&mut w, 120_000, 160_000);
    w.add_colliders_to_close_enemies();
    assert_eq!(live(&w, far).collider, None);
    assert_eq!(live(&w, near).collider, Some(Collider::Rectangle { width: 15, height: 45 }));
    let once = w.entities.clone();
    w.add_colliders_to_close_enemies();
    assert_eq!(w.entities, once);
    w.entities[far].as_mut().unwrap().position = v(0, 200_000);
    w.add_colliders_to_close_enemies();
    assert!(live(&w, far).collider.is_some());
}

#[test]
fn enemies_chase_and_face_the_player() {
    let mut w = running_world();
    let id = enemy_at(&mut w, 300_000, 400_000);
    w.move_towards_player(1000);
    assert_eq!(live(&w, id).position, v(288_000, 384_000));
    w.move_towards_player(16);
    assert_eq!(live(&w, id).position, v(287_808, 383_744));
    w.enemy_direction_change();
    assert!(live(&w, id).flip_x);
    let close = enemy_at(&mut w, 6_000, 8_000);
    w.move_towards_player(1000);
    assert_eq!(live(&w, close).position, v(6_000, 8_000));
    let left = enemy_at(&mut w, -50_000, 0);
    w.enemy_direction_change();
    assert!(!live(&w, left).flip_x);
}

#[test]
fn dying_enemies_stand_still() {
    let mut w = running_world();
    let id = enemy_at(&mut w, 300_000, 400_000);
    w.kill_all_on_screen(false);
    assert!(live(&w, id).dying.is_none());
    w.kill_all_on_screen(true);
    w.move_towards_player(1000);
    assert_eq!(live(&w, id).position, v(300_000, 400_000));
}

#[test]
fn resources_home_then_follow() {
    let mut w = running_world();
    let mut c = empty_components(v(30_000, 40_000));
    c.resource = Some(Resource::Ore);
    let id = w.spawn(c);
    let mut far = empty_components(v(300_000, 40_000));
    far.resource = Some(Resource::Gold);
    let far_id = w.spawn(far);
    w.mark_resource_as_close();
    assert!(live(&w, id).pickup_tween.is_some());
    assert!(live(&w, far_id).pickup_tween.is_none());
    w.mark_resource_as_following(250);
    assert_eq!(live(&w, id).position, v(15_000, 20_000));
    assert!(!live(&w, id).following_player);
    w.mark_resource_as_following(250);
    assert_eq!(live(&w, id).position, v(0, 0));
    assert!(live(&w, id).following_player);
    w.move_player(KeyInput { up: false, down: false, left: false, right: true }, 1000);
    w.update_resource_position(200);
    assert_eq!(live(&w, id).position, v(50_000, 0));
}

#[test]
fn despawn_takes_children() {
    let mut w = running_world();
    assert_eq!(live(&w, 1).parent, Some(0));
    let other = enemy_at(&mut w, 5, 5);
    w.despawn_recursive(0);
    assert!(w.entities[0].is_none());
    assert!(w.entities[1].is_none());
    assert!(w.entities[other].is_some());
    assert_eq!(w.find_player(), None);
    assert_eq!(w.move_player(KeyInput { up: true, down: false, left: false, right: false }, 16), None);
}

#[test]
fn orb_turns_with_time() {
    let mut w = running_world();
    w.rotate_orb(1000);
    assert_eq!(live(&w, 1).rotation, 60_000);
    w.rotate_orb(1000);
    assert_eq!(live(&w, 1).rotation, 120_000);
}

#[test]
fn catalog_rejects_taken_names() {
    let mut c = AnimationCatalog::new();
    assert_eq!(c.register("a".to_string(), vec![1]), Ok(AnimationId(0)));
    assert_eq!(c.register("a".to_string(), vec![2]), Err(CatalogError::NameAlreadyTaken));
    assert_eq!(c.find("a"), Some(AnimationId(0)));
    assert_eq!(c.find("b"), None);
    load_animations(&mut c, vec![("b".to_string(), vec![3]), ("a".to_string(), vec![4])]);
    assert_eq!(c.find("b"), Some(AnimationId(1)));
    assert_eq!(c.clips, vec![vec![1], vec![3]]);
}

#[test]
fn loading_creates_player_and_orb() {
    let mut w = World::new(full_catalog(), handles());
    assert_eq!(w.state, GameState::AssetLoading);
    let frame = Frame {
        dt: 16,
        input: KeyInput { up: true, down: false, left: false, right: false },
        kill_all: false,
        window: WindowSize { width: 640, height: 480 },
        collisions: vec![],
        player_overlaps: vec![],
        animation_events: vec![],
    };
    assert_eq!(w.update(&frame), None);
    assert!(w.entities.is_empty());
    w.finish_loading();
    assert_eq!(w.state, GameState::Next);
    assert_eq!(w.find_player(), Some(0));
    assert_eq!(live(&w, 0).speed, Some(Speed(100)));
    assert_eq!(w.update(&frame), Some(DirectionChanged(MovementDirection::Up)));
    assert_eq!(live(&w, 0).position, v(0, 1_600));
}

#[test]
fn sheets_are_found_by_contained_name() {
    let h = handles();
    assert_eq!(h.get_character_sheet_handle("cleric"), Some(SheetHandle(1)));
    assert_eq!(h.get_character_sheet_handle("monk"), None);
    assert_eq!(h.get_monster_sheet_handle("monk"), Some(SheetHandle(3)));
    assert_eq!(h.get_monster_sheet_handle("sheets"), Some(SheetHandle(2)));
    assert!(str_contains("monk_walk", "walk"));
    assert!(str_contains("abc", ""));
    assert!(!str_contains("ab", "abc"));
    assert!(!str_contains("mnok", "monk"));
}

#[test]
fn missing_sheets_skip_spawns() {
    let mut w = World::new(full_catalog(), no_handles());
    w.finish_loading();
    assert_eq!(w.find_player(), None);
    assert!(w.entities.is_empty());
    let mut c = empty_components(v(0, 0));
    c.player = Some(arena_core::world::Player);
    w.spawn(c);
    w.spawn_enemy_with(50, WindowSize { width: 10, height: 10 }, 0, 0);
    assert_eq!(w.entities.len(), 1);
}

#[test]
fn proximity_index_lists_tracked_entities_in_range() {
    let mut w = running_world();
    let a = enemy_at(&mut w, 3, 4);
    let _far = enemy_at(&mut w, 30, 40);
    let mut untracked = empty_components(v(1, 1));
    untracked.enemy = Some(Enemy);
    w.spawn(untracked);
    let b = enemy_at(&mut w, -5, 0);
    assert_eq!(w.within_distance(v(0, 0), 5), vec![a, b]);
    assert_eq!(w.within_distance(v(0, 0), 4), Vec::<usize>::new());
}

#[test]
fn load_skips_taken_names() {
    let mut c = catalog_with(&["walk"]);
    load_animations(
        &mut c,
        vec![("run".to_string(), vec![5, 6]), ("walk".to_string(), vec![9]), ("run".to_string(), vec![7])],
    );
    assert_eq!(c.names, vec!["walk".to_string(), "run".to_string()]);
    assert_eq!(c.clips, vec![vec![0, 1, 2], vec![5, 6]]);
    assert_eq!(c.animation_with_name(&"run".to_string()), Some(AnimationId(1)));
}

fn idle_frame() -> Frame {
    Frame {
        dt: 0,
        input: KeyInput { up: false, down: false, left: false, right: false },
        kill_all: false,
        window: WindowSize { width: 640, height: 480 },
        collisions: vec![],
        player_overlaps: vec![],
        animation_events: vec![],
    }
}

#[test]
fn full_lifecycle_through_ticks() {
    let mut w = running_world();
    let id = enemy_at(&mut w, 5_000, 0);
    // first tick: the enemy comes within range and gets its collider
    w.update(&idle_frame());
    assert!(live(&w, id).collider.is_some());
    // four orb hits of 10 bring 40 health to dying
    let mut f = idle_frame();
    f.collisions = vec![CollisionStarted(1, id); 4];
    w.update(&f);
    assert!(live(&w, id).dying.is_some());
    assert_eq!(live(&w, id).tint.0, FLASH_TINT);
    // a further collision does nothing now
    w.update(&f);
    assert!(live(&w, id).dying.is_some());
    // the death animation ends: the enemy goes and leaves a resource
    let n = w.entities.len();
    let mut f = idle_frame();
    f.animation_events = vec![AnimationRepetitionEnd { entity: id, animation_repetition: 1 }; 2];
    w.update(&f);
    assert!(w.entities[id].is_none());
    assert_eq!(w.entities.len(), n + 1);
    let kind = live(&w, n).resource.expect("a resource should drop");
    // the player touches it and collects it
    let mut f = idle_frame();
    f.player_overlaps = vec![n, n];
    w.update(&f);
    assert!(w.entities[n].is_none());
    assert_eq!(w.resources.get(kind), 1);
    let total = w.resources.gold + w.resources.crystals + w.resources.mercury + w.resources.sulfur
        + w.resources.ore + w.resources.wood + w.resources.gems;
    assert_eq!(total, 1);
}

#[test]
fn repeated_sheet_keys_are_refused() {
    let dup = vec![("a.png".to_string(), SheetHandle(1)), ("a.png".to_string(), SheetHandle(2))];
    assert!(GameAssetsHandles::new(dup.clone(), vec![], vec![]).is_none());
    assert!(GameAssetsHandles::new(vec![], dup, vec![]).is_none());
    let layouts = vec![("monk_layout".to_string(), LayoutHandle(1)), ("monk_layout".to_string(), LayoutHandle(2))];
    assert!(GameAssetsHandles::new(vec![], vec![], layouts).is_none());
    assert!(arena_core::assets::unique_keys(&vec![("a".to_string(), SheetHandle(1)), ("b".to_string(), SheetHandle(1))]));
}

#[test]
fn loading_twice_adds_nothing() {
    let mut w = running_world();
    assert_eq!(w.entities.len(), 2);
    assert_eq!(live(&w, 1).parent, Some(0));
    w.finish_loading();
    assert_eq!(w.entities.len(), 2);
    let mut bare = World::new(catalog_with(&["player_idle"]), no_handles());
    bare.finish_loading();
    assert!(bare.entities.is_empty());
    assert_eq!(bare.state, GameState::Next);
}

#[test]
fn explicit_draws_pick_each_drop() {
    let mut w = running_world();
    let a = enemy_at(&mut w, 100, 0);
    let b = enemy_at(&mut w, 200, 0);
    let bystander = enemy_at(&mut w, 300, 0);
    w.kill_all_on_screen(true);
    let n = w.entities.len();
    let events = vec![
        AnimationRepetitionEnd { entity: a, animation_repetition: 1 },
        AnimationRepetitionEnd { entity: b, animation_repetition: 1 },
        AnimationRepetitionEnd { entity: a, animation_repetition: 1 },
    ];
    w.handle_repetition_ends(&events, &vec![96, 85, 0]);
    assert!(w.entities[a].is_none());
    assert!(w.entities[b].is_none());
    assert!(w.entities[bystander].is_some());
    assert_eq!(w.entities.len(), n + 2);
    assert_eq!(live(&w, n).resource, Some(Resource::Gems));
    assert_eq!(live(&w, n + 1).resource, Some(Resource::Mercury));
    assert_eq!(live(&w, n + 1).position, v(200, 0));
    let draws = random_draws(50, 99);
    assert_eq!(draws.len(), 50);
    assert!(draws.iter().all(|d| (0..=99).contains(d)));
}

#[test]
fn engagement_waits_for_a_player() {
    let mut w = World::new(full_catalog(), handles());
    w.finish_loading();
    w.despawn_recursive(0);
    let e = enemy_at(&mut w, 100, 0);
    let mut f = idle_frame();
    f.kill_all = true;
    w.update(&f);
    assert!(live(&w, e).dying.is_none());
}

#[test]
fn enemy_by_archetype_name() {
    let catalog = catalog_with(&["monk_walk", "monk_idle", "halfling_walk"]);
    let h = handles();
    let e = new_enemy("halfling", 35, 12, v(4, 5), &h, &catalog).unwrap();
    assert_eq!(e.speed, Some(Speed(35)));
    assert_eq!(e.health, Some(Health(12)));
    assert_eq!(e.position, v(4, 5));
    assert_eq!(e.sheet, Some(SheetHandle(2)));
    assert_eq!(e.layout, Some(LayoutHandle(5)));
    assert_eq!(e.animation, Some(AnimationId(2)));
    assert_eq!(e.death_animation, None);
    assert!(e.enemy.is_some());
    assert!(e.collider.is_none());
    let m = new_enemy("monk", 20, 40, v(0, 0), &h, &catalog).unwrap();
    assert_eq!(m.sheet, Some(SheetHandle(3)));
    assert_eq!(m.layout, Some(LayoutHandle(6)));
    assert_eq!(m.animation, Some(AnimationId(0)));
    assert_eq!(m.death_animation, Some(AnimationId(1)));
}

#[test]
fn enemy_needs_sheet_layout_and_walk() {
    let catalog = catalog_with(&["monk_walk", "skeleton_walk"]);
    let h = handles();
    assert!(new_enemy("skeleton", 20, 40, v(0, 0), &h, &catalog).is_none());
    assert!(new_enemy("halfling", 20, 40, v(0, 0), &h, &catalog).is_none());
    let no_layout = GameAssetsHandles::new(vec![], vec![("sheets/monk.png".to_string(), SheetHandle(3))], vec![]).unwrap();
    assert!(new_enemy("monk", 20, 40, v(0, 0), &no_layout, &catalog).is_none());
    let no_sheet = GameAssetsHandles::new(vec![], vec![], vec![("monk_layout".to_string(), LayoutHandle(6))]).unwrap();
    assert!(new_enemy("monk", 20, 40, v(0, 0), &no_sheet, &catalog).is_none());
    assert!(new_enemy("monk", 20, 40, v(0, 0), &h, &catalog).is_some());
}

#[test]
fn spawner_skips_without_layout() {
    let h = GameAssetsHandles::new(
        vec![("sheets/cleric.png".to_string(), SheetHandle(1))],
        vec![("sheets/monk.png".to_string(), SheetHandle(3))],
        vec![],
    )
    .unwrap();
    let mut w = World::new(full_catalog(), h);
    w.finish_loading();
    let n = w.entities.len();
    w.spawn_enemy_with(1000, WindowSize { width: 100, height: 100 }, 3, 0);
    assert_eq!(w.entities.len(), n);
}

#[test]
fn damage_over_time_flashes() {
    let mut w = running_world();
    let id = enemy_at(&mut w, 500, 500);
    w.tick_damage_over_time(1999);
    assert_eq!(live(&w, id).tint.0, WHITE);
    w.tick_damage_over_time(1);
    assert_eq!(live(&w, id).tint.0, FLASH_TINT);
    assert_eq!(live(&w, id).old_tint.map(|t| t.0), Some(WHITE));
    assert!(live(&w, id).flash_timer.is_some());
}

#[test]
fn spawn_point_offscreen_at_player_field_edge() {
    let window = WindowSize { width: 1920, height: 1080 };
    let player = v(-PLAYER_BOUND, PLAYER_BOUND);
    let p = SpawnDirection::West.spawn_point(&window, &player, 0);
    assert_eq!(p.x, -PLAYER_BOUND - 960_000 - 30_000);
    assert_eq!(p.y, PLAYER_BOUND - 540_000);
    assert!(p.x >= -WORLD_BOUND);
    let n = SpawnDirection::North.spawn_point(&window, &player, i64::MAX);
    assert_eq!(n, v(-PLAYER_BOUND + 960_000, PLAYER_BOUND + 540_000 + 30_000));
    assert!(n.y <= WORLD_BOUND);
}

#[test]
fn player_stays_in_its_field() {
    let mut w = running_world();
    let left = KeyInput { up: false, down: false, left: true, right: false };
    for _ in 0..3 {
        w.move_player(left, u32::MAX);
    }
    assert_eq!(live(&w, 0).position.x, -PLAYER_BOUND);
}
