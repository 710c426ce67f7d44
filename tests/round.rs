use meteoroids::{
    boundary_pass, classify, fallback_spot, is_clear_of, place_clear_of, without_number, Action,
    Arena, Collision, Command, Contact, Entity, EntityId, GameState, Kind, Mode, Outcome,
    Registry, METEOROID_COUNT, SAFE_DISTANCE,
};

fn id(kind: Kind, index: u64) -> EntityId {
    EntityId { kind, index }
}

fn player() -> EntityId {
    id(Kind::Player, 0)
}

fn no_keys() -> Command {
    Command { fire: false, left: false, right: false, thrust: false, restart: false, quit: false }
}

fn hit(a: EntityId, b: EntityId) -> Collision {
    Collision { a, b, started: true }
}

fn arena() -> Arena {
    Arena::from_window(1280, 720)
}

/// A game with the player at the origin and a fresh meteoroid batch.
fn setup() -> (GameState, Registry) {
    let mut reg = Registry::new();
    reg.add(Entity { id: player(), x: 0, y: 0 });
    let mut game = GameState::new(arena(), 0);
    game.spawn_meteoroids(&mut reg);
    (game, reg)
}

fn shots(reg: &Registry) -> usize {
    reg.entities.iter().filter(|e| e.id.kind == Kind::Shot).count()
}

#[test]
fn arena_from_window_is_half_of_each_side() {
    let a = arena();
    assert_eq!((a.min_x, a.max_x, a.min_y, a.max_y), (-640, 640, -360, 360));
    assert!(a.contains(640, -360));
    assert!(!a.contains(641, 0));
}

#[test]
fn spawn_places_batch_in_arena_clear_of_origin() {
    let (game, reg) = setup();
    assert_eq!(reg.entities.len(), 1 + METEOROID_COUNT as usize);
    assert_eq!(game.meteoroids, (0..METEOROID_COUNT).collect::<Vec<u64>>());
    for (i, e) in reg.entities.iter().skip(1).enumerate() {
        assert_eq!(e.id, id(Kind::Meteoroid, i as u64));
        assert!(arena().contains(e.x, e.y));
        assert!(is_clear_of(0, 0, e.x, e.y));
    }
}

#[test]
fn relocated_meteoroid_lands_in_arena_clear_of_ship() {
    let a = arena();
    let mut reg = Registry::new();
    reg.add(Entity { id: id(Kind::Meteoroid, 3), x: 5000, y: 0 });
    reg.add(Entity { id: id(Kind::Meteoroid, 4), x: 10, y: 10 });
    let mut pending = Vec::new();
    boundary_pass(&mut reg, a, 100, -50, &mut pending);
    let m = reg.entities[0];
    assert_eq!(m.id, id(Kind::Meteoroid, 3));
    assert!(a.contains(m.x, m.y));
    assert!((m.x - 100).abs() > SAFE_DISTANCE && (m.y + 50).abs() > SAFE_DISTANCE);
    assert_eq!((reg.entities[1].x, reg.entities[1].y), (10, 10));
    assert!(pending.is_empty());
}

#[test]
fn placement_and_fallback_spot() {
    let a = arena();
    for _ in 0..50 {
        let (x, y) = place_clear_of(a, -600, 300);
        assert!(a.contains(x, y));
        assert!(is_clear_of(-600, 300, x, y));
    }
    assert_eq!(fallback_spot(a, 0, 0), (-640, -360));
    assert_eq!(fallback_spot(a, -630, -350), (640, 360));
    let tiny = Arena { min_x: 0, max_x: 10, min_y: 0, max_y: 10 };
    let (x, y) = place_clear_of(tiny, 5, 5);
    assert!(tiny.contains(x, y));
}

#[test]
fn escaped_shot_is_pending_then_removed() {
    let mut reg = Registry::new();
    reg.add(Entity { id: player(), x: 0, y: 0 });
    reg.add(Entity { id: id(Kind::Shot, 1), x: 2000, y: 0 });
    reg.add(Entity { id: id(Kind::Shot, 2), x: 10, y: 0 });
    let mut pending = Vec::new();
    boundary_pass(&mut reg, arena(), 0, 0, &mut pending);
    assert_eq!(pending, vec![id(Kind::Shot, 1)]);
    reg.remove_labels(&pending);
    assert!(!reg.contains(id(Kind::Shot, 1)));
    assert!(reg.contains(id(Kind::Shot, 2)));
    assert_eq!(reg.entities.len(), 2);
}

#[test]
fn escaped_shot_leaves_registry_at_end_of_frame() {
    let (mut game, mut reg) = setup();
    reg.add(Entity { id: id(Kind::Shot, 9), x: 0, y: -900 });
    assert_eq!(game.end_frame(&mut reg, &Vec::new(), 1), None);
    assert!(!reg.contains(id(Kind::Shot, 9)));
    assert!(game.sprites_to_delete.is_empty());
    assert_eq!(game.mode, Mode::Playing);
}

#[test]
fn fire_before_reload_is_rejected() {
    let (mut game, mut reg) = setup();
    let fire = Command { fire: true, ..no_keys() };
    assert_eq!(game.handle_input(&mut reg, fire, 10, 0, 0), Action::Idle);
    assert_eq!(game.end_frame(&mut reg, &Vec::new(), 0), None);
    assert_eq!(shots(&reg), 0);
    assert_eq!(game.shot_counter, 0);
}

#[test]
fn fire_after_reload_spawns_shot_at_ship() {
    let (mut game, mut reg) = setup();
    reg.set_position(player(), 12, -7);
    let fire = Command { fire: true, ..no_keys() };
    assert_eq!(game.handle_input(&mut reg, fire, 200, 0, 0), Action::Fire);
    game.end_frame(&mut reg, &Vec::new(), 0);
    assert_eq!(game.shot_counter, 1);
    let shot = reg.entities.last().unwrap();
    assert_eq!((shot.id, shot.x, shot.y), (id(Kind::Shot, 1), 12, -7));
    // the reload timer started over
    assert_eq!(game.handle_input(&mut reg, fire, 100, 0, 0), Action::Idle);
}

#[test]
fn rejected_fire_falls_through_to_turn() {
    let (mut game, mut reg) = setup();
    let keys = Command { fire: true, left: true, ..no_keys() };
    assert_eq!(game.handle_input(&mut reg, keys, 10, 0, 0), Action::RotateLeft);
    let keys = Command { right: true, ..no_keys() };
    assert_eq!(game.handle_input(&mut reg, keys, 10, 0, 0), Action::RotateRight);
}

#[test]
fn thrust_is_gated_by_its_timer() {
    let (mut game, mut reg) = setup();
    let keys = Command { thrust: true, ..no_keys() };
    assert_eq!(game.handle_input(&mut reg, keys, 100, 7, 0), Action::Idle);
    assert_eq!(game.speed.len(), 0);
    assert_eq!(game.handle_input(&mut reg, keys, 100, 7, 0), Action::Thrust);
    assert_eq!(game.speed.get(0).unwrap().speed, 10);
    assert_eq!(game.speed.get(0).unwrap().rotation, 7);
    assert_eq!(game.handle_input(&mut reg, keys, 100, 7, 0), Action::Idle);
}

#[test]
fn player_meteoroid_collision_loses() {
    let (mut game, mut reg) = setup();
    let events = vec![hit(player(), id(Kind::Meteoroid, 7))];
    assert_eq!(game.end_frame(&mut reg, &events, 5), Some(Outcome::Lost));
    assert_eq!(game.mode, Mode::Ended);
    assert_eq!(game.outcome, Some(Outcome::Lost));
    assert_eq!(game.high_score, 0);
}

#[test]
fn shot_meteoroid_collision_destroys_both() {
    let (mut game, mut reg) = setup();
    reg.add(Entity { id: id(Kind::Shot, 3), x: 0, y: 0 });
    let events = vec![hit(id(Kind::Shot, 3), id(Kind::Meteoroid, 2))];
    assert!(!game.resolve_collisions(&events));
    assert!(!game.meteoroids.contains(&2));
    assert_eq!(game.meteoroids.len(), 7);
    assert_eq!(game.sprites_to_delete, vec![id(Kind::Shot, 3), id(Kind::Meteoroid, 2)]);
    assert_eq!(game.conclude(false, 3), None);
    assert_eq!(game.mode, Mode::Playing);
}

#[test]
fn shot_meteoroid_collision_in_a_frame() {
    let (mut game, mut reg) = setup();
    reg.add(Entity { id: id(Kind::Shot, 3), x: 0, y: 0 });
    let events = vec![
        Collision { a: id(Kind::Meteoroid, 5), b: id(Kind::Shot, 3), started: false },
        hit(id(Kind::Meteoroid, 2), id(Kind::Shot, 3)),
        hit(player(), id(Kind::Shot, 3)),
    ];
    assert_eq!(game.end_frame(&mut reg, &events, 3), None);
    assert!(!reg.contains(id(Kind::Shot, 3)));
    assert!(!reg.contains(id(Kind::Meteoroid, 2)));
    assert!(reg.contains(id(Kind::Meteoroid, 5)));
    assert_eq!(game.meteoroids, vec![0, 1, 3, 4, 5, 6, 7]);
    assert_eq!(game.mode, Mode::Playing);
}

#[test]
fn lethal_contact_stops_the_batch() {
    let (mut game, _reg) = setup();
    let events = vec![
        hit(id(Kind::Meteoroid, 1), player()),
        hit(id(Kind::Shot, 1), id(Kind::Meteoroid, 2)),
    ];
    assert!(game.resolve_collisions(&events));
    assert_eq!(game.meteoroids.len(), 8);
    assert!(game.sprites_to_delete.is_empty());
}

#[test]
fn classify_pairs() {
    let s = id(Kind::Shot, 1);
    let m = id(Kind::Meteoroid, 4);
    assert_eq!(classify(player(), m), Contact::Lethal);
    assert_eq!(classify(m, player()), Contact::Lethal);
    assert_eq!(classify(player(), s), Contact::Ignore);
    assert_eq!(classify(s, m), Contact::Hit(4));
    assert_eq!(classify(m, s), Contact::Hit(4));
    assert_eq!(classify(m, id(Kind::Meteoroid, 5)), Contact::Ignore);
    assert_eq!(without_number(&vec![4, 1, 4, 2], 4), vec![1, 2]);
}

fn win_at(game: &mut GameState, reg: &mut Registry, now: u64) -> Option<Outcome> {
    game.meteoroids = vec![0];
    let events = vec![hit(id(Kind::Shot, 1), id(Kind::Meteoroid, 0))];
    game.end_frame(reg, &events, now)
}

#[test]
fn last_meteoroid_destroyed_wins_and_sets_best_time() {
    let (mut game, mut reg) = setup();
    game.start_time = 10;
    assert_eq!(win_at(&mut game, &mut reg, 52), Some(Outcome::Won));
    assert_eq!(game.mode, Mode::Ended);
    assert_eq!(game.high_score, 42);
}

#[test]
fn best_time_only_improves() {
    let (mut game, mut reg) = setup();
    game.high_score = 30;
    assert_eq!(win_at(&mut game, &mut reg, 42), Some(Outcome::Won));
    assert_eq!(game.high_score, 30);

    let (mut game, mut reg) = setup();
    game.high_score = 30;
    assert_eq!(win_at(&mut game, &mut reg, 30), Some(Outcome::Won));
    assert_eq!(game.high_score, 30);

    let (mut game, mut reg) = setup();
    game.high_score = 30;
    assert_eq!(win_at(&mut game, &mut reg, 20), Some(Outcome::Won));
    assert_eq!(game.high_score, 20);
}

#[test]
fn restart_after_end_starts_a_fresh_round() {
    let (mut game, mut reg) = setup();
    reg.set_position(player(), 40, 40);
    let fire = Command { fire: true, ..no_keys() };
    game.handle_input(&mut reg, fire, 500, 0, 0);
    game.end_frame(&mut reg, &Vec::new(), 1);
    game.handle_input(&mut reg, Command { thrust: true, ..no_keys() }, 500, 3, 1);
    assert_eq!(shots(&reg), 1);
    let events = vec![hit(player(), id(Kind::Meteoroid, 0))];
    game.end_frame(&mut reg, &events, 2);
    assert_eq!(game.mode, Mode::Ended);

    let keys = Command { restart: true, ..no_keys() };
    assert_eq!(game.handle_input(&mut reg, keys, 16, 0, 9), Action::Restart);
    assert_eq!(game.mode, Mode::Playing);
    assert_eq!(game.outcome, None);
    assert_eq!(game.start_time, 9);
    assert_eq!(game.shot_counter, 0);
    assert_eq!(shots(&reg), 0);
    assert_eq!(reg.entities.len(), 1 + METEOROID_COUNT as usize);
    assert_eq!(reg.player_position(), Some((0, 0)));
    assert_eq!(game.meteoroids.len(), METEOROID_COUNT as usize);
    assert_eq!(game.speed.len(), 0);
    for t in [game.shot_timer, game.thrust_timer, game.stop_timer] {
        assert_eq!(t.elapsed, 0);
        assert!(!t.finished());
    }
}

#[test]
fn input_is_ignored_after_the_end() {
    let (mut game, mut reg) = setup();
    let events = vec![hit(player(), id(Kind::Meteoroid, 0))];
    game.end_frame(&mut reg, &events, 2);
    let before = reg.entities.len();
    let keys = Command { fire: true, left: true, thrust: true, ..no_keys() };
    assert_eq!(game.handle_input(&mut reg, keys, 1000, 0, 3), Action::Idle);
    assert_eq!(game.end_frame(&mut reg, &Vec::new(), 3), None);
    assert_eq!(shots(&reg), 0);
    assert_eq!(reg.entities.len(), before);
    assert_eq!(game.shot_counter, 0);
    assert!(!game.shoot);
    assert_eq!(game.handle_input(&mut reg, Command { quit: true, ..no_keys() }, 0, 0, 3), Action::Quit);
    assert_eq!(game.mode, Mode::Ended);
}

#[test]
fn clock_reports_running_time_each_second() {
    let (mut game, mut reg) = setup();
    game.start_time = 4;
    game.handle_input(&mut reg, no_keys(), 600, 0, 5);
    assert_eq!(game.refresh_clock(5), None);
    game.handle_input(&mut reg, no_keys(), 600, 0, 6);
    assert_eq!(game.refresh_clock(6), Some(2));
    assert_eq!(game.stop_timer.elapsed, 0);
}
