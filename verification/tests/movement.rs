use landsknecht::input::reduce_input;
use landsknecht::input::KeySet;
use landsknecht::input::MoveDir;
use landsknecht::movement::step_magnitude;
use landsknecht::movement::RayAnswer;
use landsknecht::movement::ResolveState;
use landsknecht::movement::Resolver;
use landsknecht::player::move_player;
use landsknecht::player::Player;
use landsknecht::components::Transform;
use landsknecht::units::Coord;
use landsknecht::units::Vec2;

fn no_keys() -> KeySet {
    KeySet {
        w: false,
        a: false,
        s: false,
        d: false,
        up: false,
        down: false,
        left: false,
        right: false,
        any_other: false,
    }
}

fn keys(w: bool, a: bool, s: bool, d: bool) -> KeySet {
    KeySet { w, a, s, d, ..no_keys() }
}

fn at_origin() -> Transform {
    Transform {
        translation: Vec2 { x: Coord { base: 0, diag: 0 }, y: Coord { base: 0, diag: 0 } },
        z: 900,
    }
}

fn player() -> Player {
    Player { speed: 5 }
}

// Tile size 10 world units, speed 5, dt 100 ms: magnitude 2.5 units = 2500 subunits.
const DT: u32 = 100;
const MAG: i64 = 2500;

#[test]
fn magnitude_formula_exact() {
    assert_eq!(step_magnitude(5, 100), 2500);
    assert_eq!(step_magnitude(5, 160), 4000);
    assert_eq!(step_magnitude(0, 100), 0);
    assert_eq!(step_magnitude(7, 33), 5 * 7 * 33);
}

#[test]
fn scenario_open_field_east() {
    let mut t = at_origin();
    let answers = vec![RayAnswer::Miss, RayAnswer::Miss, RayAnswer::Miss];
    let r = move_player(&mut t, &player(), &keys(false, false, false, true), DT, &answers);
    assert_eq!(r.probes, 1);
    assert_eq!(r.chosen, Some(MoveDir { dx: 1, dy: 0 }));
    assert_eq!(t.translation.x, Coord { base: MAG, diag: 0 });
    assert_eq!(t.translation.y, Coord { base: 0, diag: 0 });
    assert_eq!(t.z, 900);
}

#[test]
fn scenario_wall_beyond_step_is_cleared() {
    // Wall 5 units east of the player: the hit at 5000 subunits lies
    // strictly beyond the 2500-subunit step, so the move is taken.
    let mut t = at_origin();
    let answers = vec![RayAnswer::Hit(5000), RayAnswer::Hit(5000), RayAnswer::Hit(5000)];
    let r = move_player(&mut t, &player(), &keys(false, false, false, true), DT, &answers);
    assert_eq!(r.probes, 1);
    assert_eq!(t.translation.x, Coord { base: MAG, diag: 0 });
    assert_eq!(t.translation.y, Coord { base: 0, diag: 0 });
}

#[test]
fn scenario_wall_within_step_blocks() {
    // A 4000-subunit step against a hit at 2500: rejected on both probes
    // of the pure-east plan, so no movement at all.
    let mut t = at_origin();
    let answers = vec![RayAnswer::Hit(2500), RayAnswer::Hit(2500), RayAnswer::Hit(2500)];
    let r = move_player(&mut t, &player(), &keys(false, false, false, true), 160, &answers);
    assert_eq!(step_magnitude(5, 160), 4000);
    assert_eq!(r.probes, 2);
    assert_eq!(r.chosen, None);
    assert_eq!(t.translation, at_origin().translation);
}

#[test]
fn scenario_hit_exactly_at_magnitude_rejected() {
    // The comparison is strictly greater: a hit at exactly the magnitude
    // rejects the candidate.
    let mut t = at_origin();
    let answers = vec![RayAnswer::Hit(2500), RayAnswer::Hit(2500), RayAnswer::Hit(2500)];
    let r = move_player(&mut t, &player(), &keys(false, false, false, true), DT, &answers);
    assert_eq!(r.chosen, None);
    assert_eq!(t.translation, at_origin().translation);
}

#[test]
fn scenario_slide_east_along_north_wall() {
    // W+D with a wall close to the north: the diagonal hits at 1 unit,
    // the pure-east probe misses, so the player slides east.
    let mut t = at_origin();
    let answers = vec![RayAnswer::Hit(1000), RayAnswer::Miss, RayAnswer::Hit(1000)];
    let r = move_player(&mut t, &player(), &keys(true, false, false, true), DT, &answers);
    assert_eq!(r.probes, 2);
    assert_eq!(r.chosen, Some(MoveDir { dx: 1, dy: 0 }));
    assert_eq!(t.translation.x, Coord { base: MAG, diag: 0 });
    assert_eq!(t.translation.y, Coord { base: 0, diag: 0 });
}

#[test]
fn scenario_corner_blocks_all_candidates() {
    let mut t = at_origin();
    let answers = vec![RayAnswer::Hit(1000), RayAnswer::Hit(1000), RayAnswer::Hit(1000)];
    let r = move_player(&mut t, &player(), &keys(true, false, false, true), DT, &answers);
    assert_eq!(r.probes, 3);
    assert_eq!(r.chosen, None);
    assert_eq!(t.translation, at_origin().translation);
}

#[test]
fn scenario_south_wall_just_inside_step() {
    // S with a wall 2.4 units below: 2400 <= 2500, both probes of the
    // pure-south plan reject, no movement.
    let mut t = at_origin();
    let answers = vec![RayAnswer::Hit(2400), RayAnswer::Hit(2400), RayAnswer::Hit(2400)];
    let r = move_player(&mut t, &player(), &keys(false, false, true, false), DT, &answers);
    assert_eq!(r.probes, 2);
    assert_eq!(r.chosen, None);
    assert_eq!(t.translation, at_origin().translation);
}

#[test]
fn scenario_diagonal_northwest_in_open_space() {
    // W+A with no hits: the full diagonal is taken; each axis moves by
    // magnitude / sqrt(2), held exactly in the diagonal coordinate part.
    let mut t = at_origin();
    let answers = vec![RayAnswer::Miss, RayAnswer::Miss, RayAnswer::Miss];
    let r = move_player(&mut t, &player(), &keys(true, true, false, false), DT, &answers);
    assert_eq!(r.probes, 1);
    assert_eq!(r.chosen, Some(MoveDir { dx: -1, dy: 1 }));
    assert_eq!(t.translation.x, Coord { base: 0, diag: -MAG });
    assert_eq!(t.translation.y, Coord { base: 0, diag: MAG });
    // The diagonal step keeps the full step length: each axis moves by
    // magnitude / sqrt(2), so the Euclidean length is the magnitude.
    let axis = MAG as f64 / 2f64.sqrt();
    let length = (axis * axis + axis * axis).sqrt();
    assert!((length - MAG as f64).abs() < 1e-9);
}

#[test]
fn opposed_vertical_keys_cancel() {
    let mut t = at_origin();
    let answers = vec![RayAnswer::Miss, RayAnswer::Miss, RayAnswer::Miss];
    let r = move_player(&mut t, &player(), &keys(true, false, true, false), DT, &answers);
    assert_eq!(r.probes, 0);
    assert_eq!(r.chosen, None);
    assert_eq!(t.translation, at_origin().translation);
}

#[test]
fn opposed_horizontal_keys_cancel() {
    let mut t = at_origin();
    let answers = vec![RayAnswer::Miss, RayAnswer::Miss, RayAnswer::Miss];
    let r = move_player(&mut t, &player(), &keys(false, true, false, true), DT, &answers);
    assert_eq!(r.probes, 0);
    assert_eq!(t.translation, at_origin().translation);
}

#[test]
fn no_input_no_movement_no_probes() {
    let mut t = at_origin();
    let answers = vec![RayAnswer::Miss, RayAnswer::Miss, RayAnswer::Miss];
    let r = move_player(&mut t, &player(), &KeySet::empty(), DT, &answers);
    assert_eq!(r.probes, 0);
    assert_eq!(r.chosen, None);
    assert_eq!(t.translation, at_origin().translation);
}

#[test]
fn non_movement_key_alone_moves_nothing() {
    let mut t = at_origin();
    let answers = vec![RayAnswer::Miss, RayAnswer::Miss, RayAnswer::Miss];
    let held = KeySet { any_other: true, ..no_keys() };
    let r = move_player(&mut t, &player(), &held, DT, &answers);
    assert_eq!(r.probes, 0);
    assert_eq!(t.translation, at_origin().translation);
}

#[test]
fn degenerate_hit_rejects_candidate() {
    // A hit with an unusable distance rejects the first probe; the second
    // probe of the pure-east plan (the same direction again) misses and
    // carries the step.
    let mut t = at_origin();
    let answers = vec![RayAnswer::DegenerateHit, RayAnswer::Miss, RayAnswer::Miss];
    let r = move_player(&mut t, &player(), &keys(false, false, false, true), DT, &answers);
    assert_eq!(r.probes, 2);
    assert_eq!(r.chosen, Some(MoveDir { dx: 1, dy: 0 }));
    assert_eq!(t.translation.x, Coord { base: MAG, diag: 0 });
}

#[test]
fn same_inputs_same_trajectory() {
    let answers = vec![RayAnswer::Hit(1000), RayAnswer::Miss, RayAnswer::Hit(1000)];
    let script = [
        keys(true, false, false, true),
        keys(false, true, false, false),
        keys(true, true, false, false),
    ];
    let mut t1 = at_origin();
    let mut t2 = at_origin();
    for k in script.iter() {
        move_player(&mut t1, &player(), k, DT, &answers);
    }
    for k in script.iter() {
        move_player(&mut t2, &player(), k, DT, &answers);
    }
    assert_eq!(t1, t2);
}

#[test]
fn reduce_input_sums_and_cancels() {
    let d = reduce_input(&keys(true, false, false, true));
    assert_eq!((d.dx, d.dy), (1, 1));
    let d = reduce_input(&KeySet { w: true, up: true, ..no_keys() });
    assert_eq!((d.dx, d.dy), (0, 2));
    let d = reduce_input(&KeySet { w: true, s: true, a: true, d: true, ..no_keys() });
    assert_eq!((d.dx, d.dy), (0, 0));
    let d = reduce_input(&KeySet { left: true, down: true, ..no_keys() });
    assert_eq!((d.dx, d.dy), (-1, -1));
}

#[test]
fn resolver_protocol_slides_after_diagonal_reject() {
    let mut res = Resolver::new(MoveDir { dx: 1, dy: 1 }, 2500);
    assert_eq!(res.pending_probe(), Some(MoveDir { dx: 1, dy: 1 }));
    assert_eq!(res.outcome(), None);
    res.feed(RayAnswer::Hit(1000));
    assert_eq!(res.pending_probe(), Some(MoveDir { dx: 1, dy: 0 }));
    res.feed(RayAnswer::Miss);
    assert!(res.is_done());
    assert_eq!(res.pending_probe(), None);
    assert_eq!(res.outcome(), Some(Some(MoveDir { dx: 1, dy: 0 })));
}

#[test]
fn resolver_exhausts_pure_axis_plan() {
    let mut res = Resolver::new(MoveDir { dx: 0, dy: -1 }, 2500);
    assert_eq!(res.pending_probe(), Some(MoveDir { dx: 0, dy: -1 }));
    res.feed(RayAnswer::Hit(2400));
    assert_eq!(res.pending_probe(), Some(MoveDir { dx: 0, dy: -1 }));
    res.feed(RayAnswer::Hit(2400));
    assert_eq!(res.state, ResolveState::Exhausted);
    assert_eq!(res.outcome(), Some(None));
}

#[test]
fn doubled_binding_still_unit_step() {
    // W together with Up doubles the pull, but only the sign enters the
    // chosen step.
    let mut t = at_origin();
    let answers = vec![RayAnswer::Miss, RayAnswer::Miss, RayAnswer::Miss];
    let held = KeySet { w: true, up: true, ..no_keys() };
    let r = move_player(&mut t, &player(), &held, DT, &answers);
    assert_eq!(r.chosen, Some(MoveDir { dx: 0, dy: 1 }));
    assert_eq!(t.translation.y, Coord { base: MAG, diag: 0 });
    assert_eq!(t.translation.x, Coord { base: 0, diag: 0 });
}
