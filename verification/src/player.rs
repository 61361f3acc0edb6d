//! The player: its startup record, the per-tick movement driver, and the
//! laws the tick obeys.
//!
//! One tick runs: reduce the held keys to a net direction; if nothing is
//! held, or the direction sums to zero, do nothing and cast no ray. Else
//! compute the step magnitude and resolve the candidate directions against
//! the oracle's answers, diagonal first; move by the magnitude along the
//! first selected candidate's unit direction, or not at all. The whole tick
//! is pinned to the pure function [`tick_spec`], so the same position,
//! speed, keys, delta and oracle answers always give the same outcome.

use vstd::prelude::*;

use crate::collisions::ActiveCollisions;
use crate::components::CollisionLayers;
use crate::components::CollisionShape;
use crate::components::LayerSet;
use crate::components::PrevTransform;
use crate::components::RigidBody;
use crate::components::Transform;
use crate::components::PLAYER_Z;
use crate::input::no_keys_held;
use crate::input::net_dx;
use crate::input::net_dy;
use crate::input::reduce_input;
use crate::input::KeySet;
use crate::input::MoveDir;
use crate::movement::chosen_ix;
use crate::movement::dir_view;
use crate::movement::magnitude_spec;
use crate::movement::model_add;
use crate::movement::probe_plan;
use crate::movement::selects;
use crate::movement::sign;
use crate::movement::step_magnitude;
use crate::movement::step_model;
use crate::movement::step_vec;
use crate::movement::unit_of;
use crate::movement::RayAnswer;
use crate::movement::Resolver;
use crate::movement::ResolveState;
use crate::units::vec2_in_bounds;
use crate::units::Vec2;
use crate::units::Vec2Model;
use crate::units::MAGNITUDE_LIMIT;
use crate::units::TILE_SIZE;

verus! {

/// The player's movement attribute: speed in tiles per second, entering
/// the tick as the factor of `0.5 * TILE_SIZE * speed * dt`.
#[derive(Clone, Copy, PartialEq, Eq, Structural, Debug)]
pub struct Player {
    pub speed: u32,
}

/// Everything the player entity is spawned with.
pub struct PlayerBundle {
    pub player: Player,
    pub transform: Transform,
    pub prev: PrevTransform,
    pub rigid_body: RigidBody,
    pub shape: CollisionShape,
    pub layers: CollisionLayers,
    pub active: ActiveCollisions,
    pub sprite_index: u8,
}

/// Builds the player as it exists after startup: at the world origin on the
/// player draw layer, at speed five, a dynamic body with a circular collider
/// of half a tile, in the player and unit groups masking every layer, and
/// touching nothing.
pub fn spawn_player() -> (b: PlayerBundle)
    ensures
        b.player.speed == 5,
        b.transform.translation@ == crate::units::vec2_model_zero(),
        b.transform.z == PLAYER_Z,
        b.prev.0.translation@ == crate::units::vec2_model_zero(),
        b.prev.0.z == 0,
        b.rigid_body == RigidBody::Dynamic,
        b.shape == (CollisionShape::Sphere { radius: (TILE_SIZE / 2) as u64 }),
        b.layers.groups.player && b.layers.groups.unit,
        !b.layers.groups.obstacle && !b.layers.groups.bullet,
        forall|l: crate::components::Layer| b.layers.masks.contains(l),
        b.active@ == Map::<u64, crate::collisions::CollisionEvent>::empty(),
        b.sprite_index == 27,
{
    let zero = Vec2::zero();
    PlayerBundle {
        player: Player { speed: 5 },
        transform: Transform { translation: zero, z: PLAYER_Z },
        prev: PrevTransform(Transform { translation: zero, z: 0 }),
        rigid_body: RigidBody::Dynamic,
        shape: CollisionShape::Sphere { radius: TILE_SIZE / 2 },
        layers: CollisionLayers {
            groups: LayerSet { player: true, obstacle: false, unit: true, bullet: false },
            masks: LayerSet::all(),
        },
        active: ActiveCollisions::new(),
        sprite_index: 27,
    }
}

/// What one tick reports back: how many ray casts it made, and the unit
/// direction it moved along, if any.
#[derive(Clone, Copy, PartialEq, Eq, Structural, Debug)]
pub struct TickReport {
    pub probes: usize,
    pub chosen: Option<MoveDir>,
}

/// Ghost outcome of one tick.
pub struct TickModel {
    pub pos: Vec2Model,
    pub probes: int,
    pub chosen: Option<(int, int)>,
}

/// Ghost image of a reported chosen direction.
pub open spec fn chosen_view(c: Option<MoveDir>) -> Option<(int, int)> {
    match c {
        None => None,
        Some(u) => Some(dir_view(u)),
    }
}

/// The whole tick as a pure function of the pre-tick position, the player's
/// speed, the held keys, the frame delta and the oracle's answers (answer
/// `k` belonging to the `k`-th probe). No key held, or a direction summing
/// to zero, moves nothing and casts no ray; otherwise the first selected
/// candidate's unit direction carries the step.
pub open spec fn tick_spec(
    pos: Vec2Model,
    speed: int,
    keys: KeySet,
    dt_ms: int,
    answers: Seq<RayAnswer>,
) -> TickModel {
    if no_keys_held(keys) {
        TickModel { pos, probes: 0, chosen: None }
    } else {
        let dx = net_dx(keys);
        let dy = net_dy(keys);
        if dx == 0 && dy == 0 {
            TickModel { pos, probes: 0, chosen: None }
        } else {
            let m = magnitude_spec(speed, dt_ms);
            let plan = probe_plan(dx, dy);
            match chosen_ix(plan.len() as int, m, answers) {
                None => TickModel { pos, probes: plan.len() as int, chosen: None },
                Some(k) => {
                    let u = unit_of(plan[k]);
                    TickModel {
                        pos: model_add(pos, step_model(u.0, u.1, m)),
                        probes: k + 1,
                        chosen: Some(u),
                    }
                },
            }
        }
    }
}

/// Moves the player for one tick. `answers` is the oracle's transcript:
/// the answer to each ray cast the tick makes, in order; at most three are
/// consumed, and none when no key is held or the direction cancels. The
/// final placement, the probe count and the chosen direction all equal the
/// pure tick function of the inputs.
pub fn move_player(
    trans: &mut Transform,
    player: &Player,
    keys: &KeySet,
    dt_ms: u32,
    answers: &Vec<RayAnswer>,
) -> (r: TickReport)
    requires
        answers@.len() >= 3,
        vec2_in_bounds(old(trans).translation),
        5 * player.speed * dt_ms <= MAGNITUDE_LIMIT,
    ensures
        ({
            let t = tick_spec(
                old(trans).translation@,
                player.speed as int,
                *keys,
                dt_ms as int,
                answers@,
            );
            &&& final(trans).translation@ == t.pos
            &&& final(trans).z == old(trans).z
            &&& r.probes == t.probes
            &&& chosen_view(r.chosen) == t.chosen
        }),
        no_keys_held(*keys) ==> *final(trans) == *old(trans) && r.probes == 0,
        net_dx(*keys) == 0 && net_dy(*keys) == 0 ==> *final(trans) == *old(trans) && r.probes
            == 0,
{
    let any_held = keys.w || keys.a || keys.s || keys.d || keys.up || keys.down || keys.left
        || keys.right || keys.any_other;
    if !any_held {
        return TickReport { probes: 0, chosen: None };
    }
    let d = reduce_input(keys);
    if d.dx == 0 && d.dy == 0 {
        return TickReport { probes: 0, chosen: None };
    }
    let m = step_magnitude(player.speed, dt_ms);
    let mut res = Resolver::new(d, m);
    proof {
        assert(res.fed@ =~= answers@.take(0int));
    }
    let mut i: usize = 0;
    let mut done = res.is_done();
    while !done
        invariant
            res.wf(),
            res.dir == d,
            res.magnitude == m,
            done == res.done(),
            i == res.fed@.len(),
            i <= 3,
            res.fed@ == answers@.take(i as int),
            answers@.len() >= 3,
        decreases 3 - i,
    {
        let a = answers[i];
        res.feed(a);
        proof {
            assert(res.fed@ =~= answers@.take(i + 1));
        }
        i = i + 1;
        done = res.is_done();
    }
    let ghost m_int = m as int;
    let ghost plan_len = res.plan@.len() as int;
    proof {
        assert forall|j: int| 0 <= j < i implies !selects(#[trigger] answers@[j], m_int) || (
        res.state is Chosen && j == i - 1) by {
            assert(res.fed@[j] == answers@[j]);
        }
    }
    match res.state {
        ResolveState::Chosen(u) => {
            proof {
                assert(res.fed@[i - 1] == answers@[i - 1]);
                assert(selects(answers@[i - 1], m_int));
                assert(chosen_ix(plan_len, m_int, answers@) == Some(i - 1));
            }
            let delta = step_vec(u, m);
            trans.translation = trans.translation.translate(delta);
            TickReport { probes: i, chosen: Some(u) }
        },
        ResolveState::Exhausted => {
            proof {
                assert(chosen_ix(plan_len, m_int, answers@) is None);
            }
            TickReport { probes: i, chosen: None }
        },
        ResolveState::Probing => vstd::pervasive::unreached(),
    }
}

/// Runs the fixed per-tick pipeline on the player: snapshot the previous
/// transform, then resolve and apply movement, then drain the tick's
/// collision events into the active-collisions map. `owner` is the player's
/// entity id in the event stream; `answers` is the oracle's transcript for
/// the tick. The bookkeeping is observational and never blocks the move.
pub fn run_tick(
    b: &mut PlayerBundle,
    owner: u64,
    keys: &KeySet,
    dt_ms: u32,
    answers: &Vec<RayAnswer>,
    events: &Vec<crate::collisions::CollisionEvent>,
) -> (r: TickReport)
    requires
        answers@.len() >= 3,
        vec2_in_bounds(old(b).transform.translation),
        5 * old(b).player.speed * dt_ms <= MAGNITUDE_LIMIT,
    ensures
        final(b).prev.0 == old(b).transform,
        ({
            let t = tick_spec(
                old(b).transform.translation@,
                old(b).player.speed as int,
                *keys,
                dt_ms as int,
                answers@,
            );
            &&& final(b).transform.translation@ == t.pos
            &&& final(b).transform.z == old(b).transform.z
            &&& r.probes == t.probes
            &&& chosen_view(r.chosen) == t.chosen
        }),
        final(b).active@ == crate::collisions::drain_spec(old(b).active@, owner, events@),
        final(b).player == old(b).player,
        final(b).rigid_body == old(b).rigid_body,
        final(b).shape == old(b).shape,
        final(b).layers == old(b).layers,
        final(b).sprite_index == old(b).sprite_index,
{
    crate::components::maintain_previous_transform(&b.transform, &mut b.prev);
    let player = b.player;
    let r = move_player(&mut b.transform, &player, keys, dt_ms, answers);
    crate::collisions::active_collisions(&mut b.active, owner, events);
    r
}

/// What a decided tick implies: when no candidate was chosen the position
/// is unchanged; when one was, the chosen direction is the unit of the
/// candidate whose probe came last, its oracle answer cleared the step (a
/// miss, or a hit strictly beyond the magnitude), every earlier probe was
/// rejected, and the position moved by exactly the step along it.
pub proof fn lemma_tick_choice(
    pos: Vec2Model,
    speed: int,
    keys: KeySet,
    dt_ms: int,
    answers: Seq<RayAnswer>,
)
    requires
        answers.len() >= 3,
    ensures
        ({
            let t = tick_spec(pos, speed, keys, dt_ms, answers);
            let m = magnitude_spec(speed, dt_ms);
            let plan = probe_plan(net_dx(keys), net_dy(keys));
            match t.chosen {
                None => t.pos == pos,
                Some(u) => {
                    let k = t.probes - 1;
                    &&& 0 <= k < plan.len()
                    &&& u == unit_of(plan[k])
                    &&& selects(answers[k], m)
                    &&& forall|j: int| 0 <= j < k ==> !selects(#[trigger] answers[j], m)
                    &&& t.pos == model_add(pos, step_model(u.0, u.1, m))
                },
            }
        }),
{
}

/// Per-tick step length: the displacement of any tick is axis-pure in both
/// coordinates and its length is zero or exactly the magnitude
/// `0.5 * TILE_SIZE * speed * dt` (stated as twice its squared length being
/// `0` or `2 * m * m`, the exact form the coordinates admit).
pub proof fn lemma_step_length(
    pos: Vec2Model,
    speed: int,
    keys: KeySet,
    dt_ms: int,
    answers: Seq<RayAnswer>,
)
    requires
        answers.len() >= 3,
    ensures
        ({
            let t = tick_spec(pos, speed, keys, dt_ms, answers);
            let m = magnitude_spec(speed, dt_ms);
            let d = crate::units::model_sub(t.pos, pos);
            &&& crate::units::axis_pure(d.x)
            &&& crate::units::axis_pure(d.y)
            &&& crate::units::double_norm_sq(d) == 0 || crate::units::double_norm_sq(d) == 2 * m
                * m
        }),
{
    let t = tick_spec(pos, speed, keys, dt_ms, answers);
    let m = magnitude_spec(speed, dt_ms);
    let d = crate::units::model_sub(t.pos, pos);
    lemma_tick_choice(pos, speed, keys, dt_ms, answers);
    match t.chosen {
        None => {},
        Some(u) => {
            let plan = probe_plan(net_dx(keys), net_dy(keys));
            let k = t.probes - 1;
            crate::movement::lemma_plan_entry_nonzero(net_dx(keys), net_dy(keys), k);
            let (sx, sy) = u;
            assert(sx == sign(plan[k].0) && sy == sign(plan[k].1));
            assert(-1 <= sx <= 1 && -1 <= sy <= 1 && (sx != 0 || sy != 0));
            assert(d == step_model(sx, sy, m));
            let xb = d.x.base;
            let xd = d.x.diag;
            let yb = d.y.base;
            let yd = d.y.diag;
            if sx != 0 && sy != 0 {
                assert(2 * xb * xb + xd * xd + 2 * yb * yb + yd * yd == 2 * m * m)
                    by (nonlinear_arith)
                    requires
                        xb == 0,
                        yb == 0,
                        xd == sx * m,
                        yd == sy * m,
                        sx == 1 || sx == -1,
                        sy == 1 || sy == -1,
                ;
            } else {
                assert(2 * xb * xb + xd * xd + 2 * yb * yb + yd * yd == 2 * m * m)
                    by (nonlinear_arith)
                    requires
                        xd == 0,
                        yd == 0,
                        xb == sx * m,
                        yb == sy * m,
                        (sx == 1 || sx == -1) && sy == 0 || (sy == 1 || sy == -1) && sx == 0,
                ;
            }
        },
    }
}

/// No tunnelling: a candidate whose oracle answer does not clear the step
/// (a hit at distance at most the magnitude, or a degenerate hit) never
/// carries the step.
pub proof fn lemma_no_tunnelling(
    pos: Vec2Model,
    speed: int,
    keys: KeySet,
    dt_ms: int,
    answers: Seq<RayAnswer>,
    k: int,
)
    requires
        answers.len() >= 3,
        0 <= k < probe_plan(net_dx(keys), net_dy(keys)).len(),
        !selects(answers[k], magnitude_spec(speed, dt_ms)),
    ensures
        ({
            let t = tick_spec(pos, speed, keys, dt_ms, answers);
            t.chosen is Some ==> t.probes - 1 != k
        }),
{
    lemma_tick_choice(pos, speed, keys, dt_ms, answers);
}

/// Sliding along the horizontal axis: when both axes pull, the diagonal is
/// rejected and the horizontal candidate clears, the displacement projects
/// the full magnitude onto the `x` axis and nothing onto the `y` axis.
pub proof fn lemma_sliding_horizontal(
    pos: Vec2Model,
    speed: int,
    keys: KeySet,
    dt_ms: int,
    answers: Seq<RayAnswer>,
)
    requires
        answers.len() >= 3,
        net_dx(keys) != 0,
        net_dy(keys) != 0,
        !selects(answers[0], magnitude_spec(speed, dt_ms)),
        selects(answers[1], magnitude_spec(speed, dt_ms)),
        magnitude_spec(speed, dt_ms) > 0,
    ensures
        ({
            let t = tick_spec(pos, speed, keys, dt_ms, answers);
            let m = magnitude_spec(speed, dt_ms);
            &&& t.chosen == Some((sign(net_dx(keys)), 0int))
            &&& t.pos.x.base == pos.x.base + sign(net_dx(keys)) * m
            &&& t.pos.x.base != pos.x.base
            &&& t.pos.x.diag == pos.x.diag
            &&& t.pos.y == pos.y
        }),
{
    let m = magnitude_spec(speed, dt_ms);
    let sx = sign(net_dx(keys));
    assert(sx * m != 0 && sx * m == sx * m) by (nonlinear_arith)
        requires
            (sx == 1 || sx == -1) && m > 0,
    ;
}

/// Sliding along the vertical axis: when both axes pull and both the
/// diagonal and the horizontal candidate are rejected but the vertical one
/// clears, the displacement projects the full magnitude onto the `y` axis
/// and nothing onto the `x` axis.
pub proof fn lemma_sliding_vertical(
    pos: Vec2Model,
    speed: int,
    keys: KeySet,
    dt_ms: int,
    answers: Seq<RayAnswer>,
)
    requires
        answers.len() >= 3,
        net_dx(keys) != 0,
        net_dy(keys) != 0,
        !selects(answers[0], magnitude_spec(speed, dt_ms)),
        !selects(answers[1], magnitude_spec(speed, dt_ms)),
        selects(answers[2], magnitude_spec(speed, dt_ms)),
        magnitude_spec(speed, dt_ms) > 0,
    ensures
        ({
            let t = tick_spec(pos, speed, keys, dt_ms, answers);
            let m = magnitude_spec(speed, dt_ms);
            &&& t.chosen == Some((0int, sign(net_dy(keys))))
            &&& t.pos.y.base == pos.y.base + sign(net_dy(keys)) * m
            &&& t.pos.y.base != pos.y.base
            &&& t.pos.y.diag == pos.y.diag
            &&& t.pos.x == pos.x
        }),
{
    let m = magnitude_spec(speed, dt_ms);
    let sy = sign(net_dy(keys));
    assert(sy * m != 0 && sy * m == sy * m) by (nonlinear_arith)
        requires
            (sy == 1 || sy == -1) && m > 0,
    ;
}

/// Opposite keys cancel: holding exactly `W` and `S`, or exactly `A` and
/// `D`, moves nothing and casts no ray.
pub proof fn lemma_opposed_keys_cancel(
    pos: Vec2Model,
    speed: int,
    keys: KeySet,
    dt_ms: int,
    answers: Seq<RayAnswer>,
)
    requires
        (keys.w && keys.s && !keys.up && !keys.down && !keys.a && !keys.d && !keys.left
            && !keys.right) || (keys.a && keys.d && !keys.left && !keys.right && !keys.w
            && !keys.s && !keys.up && !keys.down),
    ensures
        tick_spec(pos, speed, keys, dt_ms, answers).pos == pos,
        tick_spec(pos, speed, keys, dt_ms, answers).probes == 0,
{
}

/// No input held: the tick moves nothing and casts no ray.
pub proof fn lemma_idle_tick(
    pos: Vec2Model,
    speed: int,
    keys: KeySet,
    dt_ms: int,
    answers: Seq<RayAnswer>,
)
    requires
        no_keys_held(keys),
    ensures
        tick_spec(pos, speed, keys, dt_ms, answers).pos == pos,
        tick_spec(pos, speed, keys, dt_ms, answers).probes == 0,
{
}

/// The ghost inputs of one tick: held keys, frame delta, oracle answers.
pub struct TickInput {
    pub keys: KeySet,
    pub dt_ms: int,
    pub answers: Seq<RayAnswer>,
}

/// Whether `states` is the player's trajectory from `start` under `script`:
/// it begins at `start` and each later state is the tick function of the
/// one before it and the tick's inputs.
pub open spec fn is_trajectory(
    start: Vec2Model,
    speed: int,
    script: Seq<TickInput>,
    states: Seq<Vec2Model>,
) -> bool {
    &&& states.len() == script.len() + 1
    &&& states[0] == start
    &&& forall|i: int|
        0 <= i < script.len() ==> states[i + 1] == tick_spec(
            #[trigger] states[i],
            speed,
            script[i].keys,
            script[i].dt_ms,
            script[i].answers,
        ).pos
}

proof fn lemma_trajectories_agree_at(
    start: Vec2Model,
    speed: int,
    script: Seq<TickInput>,
    s1: Seq<Vec2Model>,
    s2: Seq<Vec2Model>,
    i: int,
)
    requires
        is_trajectory(start, speed, script, s1),
        is_trajectory(start, speed, script, s2),
        0 <= i < s1.len(),
    ensures
        s1[i] == s2[i],
    decreases i,
{
    if i > 0 {
        lemma_trajectories_agree_at(start, speed, script, s1, s2, i - 1);
        assert(s1[i] == tick_spec(
            s1[i - 1],
            speed,
            script[i - 1].keys,
            script[i - 1].dt_ms,
            script[i - 1].answers,
        ).pos);
        assert(s2[i] == tick_spec(
            s2[i - 1],
            speed,
            script[i - 1].keys,
            script[i - 1].dt_ms,
            script[i - 1].answers,
        ).pos);
    }
}

/// Determinism: the same initial position, speed, key sequence, delta
/// sequence and oracle answers admit exactly one trajectory.
pub proof fn lemma_trajectory_deterministic(
    start: Vec2Model,
    speed: int,
    script: Seq<TickInput>,
    s1: Seq<Vec2Model>,
    s2: Seq<Vec2Model>,
)
    requires
        is_trajectory(start, speed, script, s1),
        is_trajectory(start, speed, script, s2),
    ensures
        s1 == s2,
{
    assert forall|i: int| 0 <= i < s1.len() implies s1[i] == s2[i] by {
        lemma_trajectories_agree_at(start, speed, script, s1, s2, i);
    }
    assert(s1 =~= s2);
}

} // verus!
