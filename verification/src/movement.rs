//! Movement resolution against the ray-cast oracle.
//!
//! Each tick attempts one step of length `magnitude = 0.5 * TILE_SIZE *
//! speed * dt`. Given the reduced direction `(dx, dy)`, the resolver tries,
//! in order, the full diagonal `(dx, dy)`, the horizontal `(dx, 0)` and the
//! vertical `(0, dy)`, asking the oracle for the nearest hit along each. A
//! candidate is selected when the oracle reports no hit, or a hit strictly
//! farther than the magnitude; a hit at or inside the magnitude, or with a
//! degenerate distance, rejects it and the next candidate is tried. A zero
//! candidate gives the ray no direction and counts as rejected without a
//! probe. The player then moves by the magnitude along the first selected
//! candidate's unit direction, or not at all.
//!
//! The oracle lives in the physics engine outside this crate. The resolver
//! is therefore a small protocol: [`Resolver::pending_probe`] names the unit
//! direction to cast next, the caller performs the cast and hands the answer
//! to [`Resolver::feed`], and [`Resolver::outcome`] yields the selected
//! direction once the resolution is done.

use vstd::prelude::*;
use vstd::arithmetic::div_mod::lemma_div_multiples_vanish;

use crate::input::MoveDir;
use crate::units::CoordModel;
use crate::units::Vec2;
use crate::units::Vec2Model;
use crate::units::Coord;
use crate::units::MAGNITUDE_LIMIT;
use crate::units::TILE_SIZE;

verus! {

/// The oracle's answer to one ray cast: no hit at all, the distance from the
/// ray origin to the nearest hit in subunits, or a hit whose distance is
/// degenerate (not a number) and unusable.
#[derive(Clone, Copy, PartialEq, Eq, Structural, Debug)]
pub enum RayAnswer {
    Miss,
    Hit(u64),
    DegenerateHit,
}

/// Whether the answer selects the probed candidate: a miss always does, a
/// hit only when it lies strictly beyond the step magnitude, and a
/// degenerate hit never does.
pub open spec fn selects(a: RayAnswer, m: int) -> bool {
    match a {
        RayAnswer::Miss => true,
        RayAnswer::Hit(h) => h > m,
        RayAnswer::DegenerateHit => false,
    }
}

/// The sign of `v`.
pub open spec fn sign(v: int) -> int {
    if v > 0 {
        1
    } else if v < 0 {
        -1
    } else {
        0
    }
}

/// Unit direction of a candidate: the pair of component signs.
pub open spec fn unit_of(c: (int, int)) -> (int, int) {
    (sign(c.0), sign(c.1))
}

/// Ghost image of an exec direction.
pub open spec fn dir_view(d: MoveDir) -> (int, int) {
    (d.dx as int, d.dy as int)
}

/// The ordered candidate directions that are actually probed for the
/// reduced direction `(dx, dy)`: the full diagonal, then the horizontal,
/// then the vertical, with zero candidates left out. When one axis is zero
/// the diagonal coincides with the remaining axis candidate and that
/// direction is genuinely probed twice, as the candidate list has it.
pub open spec fn probe_plan(dx: int, dy: int) -> Seq<(int, int)> {
    if dx != 0 && dy != 0 {
        seq![(dx, dy), (dx, 0int), (0int, dy)]
    } else if dx != 0 {
        seq![(dx, 0int), (dx, 0int)]
    } else if dy != 0 {
        seq![(0int, dy), (0int, dy)]
    } else {
        Seq::empty()
    }
}

/// Index of the first candidate whose answer selects it, among the first
/// `plan_len` answers; `None` when every probed candidate is rejected.
/// Answer `k` belongs to the `k`-th probe.
pub open spec fn chosen_ix(plan_len: int, m: int, answers: Seq<RayAnswer>) -> Option<int> {
    if 0 < plan_len && 0 < answers.len() && selects(answers[0], m) {
        Some(0int)
    } else if 1 < plan_len && 1 < answers.len() && selects(answers[1], m) {
        Some(1int)
    } else if 2 < plan_len && 2 < answers.len() && selects(answers[2], m) {
        Some(2int)
    } else {
        None
    }
}

/// Exact displacement of a step of length `m` along the unit direction
/// `(sx, sy)`: a cardinal step moves the `base` part of its axis by `m`, a
/// diagonal step moves the `diag` part of both axes by `m` (each axis share
/// being `m / sqrt(2)`).
pub open spec fn step_model(sx: int, sy: int, m: int) -> Vec2Model {
    if sx != 0 && sy != 0 {
        Vec2Model {
            x: CoordModel { base: 0, diag: sx * m },
            y: CoordModel { base: 0, diag: sy * m },
        }
    } else {
        Vec2Model {
            x: CoordModel { base: sx * m, diag: 0 },
            y: CoordModel { base: sy * m, diag: 0 },
        }
    }
}

/// Component-wise sum of a position and a displacement.
pub open spec fn model_add(a: Vec2Model, d: Vec2Model) -> Vec2Model {
    Vec2Model {
        x: CoordModel { base: a.x.base + d.x.base, diag: a.x.diag + d.x.diag },
        y: CoordModel { base: a.y.base + d.y.base, diag: a.y.diag + d.y.diag },
    }
}

/// Step length of one tick, in subunits: `0.5 * TILE_SIZE * speed * dt`,
/// with `dt` in milliseconds (hence the divisor `2 * 1000`).
pub open spec fn magnitude_spec(speed: int, dt_ms: int) -> int {
    (TILE_SIZE * speed * dt_ms) / 2000
}

/// With `TILE_SIZE` at its fixed value the magnitude divides out exactly.
pub proof fn lemma_magnitude_exact(speed: int, dt_ms: int)
    ensures
        magnitude_spec(speed, dt_ms) == 5 * speed * dt_ms,
{
    assert(TILE_SIZE * speed * dt_ms == 2000 * (5 * speed * dt_ms)) by (nonlinear_arith);
    lemma_div_multiples_vanish(5 * speed * dt_ms, 2000);
}

/// Computes the step length of one tick from the player's speed and the
/// preceding tick's wall-clock delta in milliseconds.
pub fn step_magnitude(speed: u32, dt_ms: u32) -> (m: u64)
    requires
        5 * speed * dt_ms <= MAGNITUDE_LIMIT,
    ensures
        m == magnitude_spec(speed as int, dt_ms as int),
        m == 5 * speed * dt_ms,
        m <= MAGNITUDE_LIMIT,
{
    proof {
        lemma_magnitude_exact(speed as int, dt_ms as int);
        assert(TILE_SIZE * (speed as int) * (dt_ms as int) == 2000 * (5 * (speed as int) * (
        dt_ms as int))) by (nonlinear_arith);
    }
    let prod: u64 = TILE_SIZE * (speed as u64) * (dt_ms as u64);
    prod / 2000
}

/// Builds the exact displacement of a step of length `m` along the unit
/// direction `u`.
pub fn step_vec(u: MoveDir, m: u64) -> (v: Vec2)
    requires
        -1 <= u.dx <= 1,
        -1 <= u.dy <= 1,
        u.dx != 0 || u.dy != 0,
        m <= MAGNITUDE_LIMIT,
    ensures
        v@ == step_model(u.dx as int, u.dy as int, m as int),
        -(m as int) <= v.x.base <= m as int,
        -(m as int) <= v.x.diag <= m as int,
        -(m as int) <= v.y.base <= m as int,
        -(m as int) <= v.y.diag <= m as int,
{
    proof {
        assert(-(m as int) <= (u.dx as int) * (m as int) <= m as int) by (nonlinear_arith)
            requires
                -1 <= u.dx as int <= 1,
                0 <= m as int,
        ;
        assert(-(m as int) <= (u.dy as int) * (m as int) <= m as int) by (nonlinear_arith)
            requires
                -1 <= u.dy as int <= 1,
                0 <= m as int,
        ;
    }
    let mx: i64 = (u.dx as i64) * (m as i64);
    let my: i64 = (u.dy as i64) * (m as i64);
    if u.dx != 0 && u.dy != 0 {
        Vec2 { x: Coord { base: 0, diag: mx }, y: Coord { base: 0, diag: my } }
    } else {
        Vec2 { x: Coord { base: mx, diag: 0 }, y: Coord { base: my, diag: 0 } }
    }
}

/// Unit direction of an exec candidate.
pub fn unit_dir(c: MoveDir) -> (u: MoveDir)
    requires
        -2 <= c.dx <= 2,
        -2 <= c.dy <= 2,
    ensures
        dir_view(u) == unit_of(dir_view(c)),
        -1 <= u.dx <= 1,
        -1 <= u.dy <= 1,
{
    let ux: i8 = if c.dx > 0 {
        1
    } else if c.dx < 0 {
        -1
    } else {
        0
    };
    let uy: i8 = if c.dy > 0 {
        1
    } else if c.dy < 0 {
        -1
    } else {
        0
    };
    MoveDir { dx: ux, dy: uy }
}

/// Every candidate the plan probes is a nonzero direction, so its unit
/// direction is nonzero as well.
pub proof fn lemma_plan_entry_nonzero(dx: int, dy: int, i: int)
    requires
        dx != 0 || dy != 0,
        0 <= i < probe_plan(dx, dy).len(),
    ensures
        probe_plan(dx, dy)[i] != (0int, 0int),
        unit_of(probe_plan(dx, dy)[i]) != (0int, 0int),
{
    let plan = probe_plan(dx, dy);
    if dx != 0 && dy != 0 {
        assert(plan[0] == (dx, dy));
        assert(plan[1] == (dx, 0int));
        assert(plan[2] == (0int, dy));
    } else if dx != 0 {
        assert(plan[0] == (dx, 0int));
        assert(plan[1] == (dx, 0int));
    } else {
        assert(plan[0] == (0int, dy));
        assert(plan[1] == (0int, dy));
    }
}

/// Progress of one tick's resolution.
#[derive(Clone, Copy, PartialEq, Eq, Structural, Debug)]
pub enum ResolveState {
    /// The current candidate still awaits its oracle answer.
    Probing,
    /// A candidate was selected; the payload is its unit direction.
    Chosen(MoveDir),
    /// Every candidate was probed and rejected.
    Exhausted,
}

/// One tick's resolution, driven by the caller: ask [`Self::pending_probe`]
/// which unit direction to ray-cast, perform the cast, hand the answer to
/// [`Self::feed`], and repeat until [`Self::outcome`] is decided. The ghost
/// transcript `fed` records the answers received so far.
pub struct Resolver {
    pub magnitude: u64,
    pub dir: MoveDir,
    pub plan: Vec<MoveDir>,
    pub next: usize,
    pub state: ResolveState,
    pub fed: Ghost<Seq<RayAnswer>>,
}

impl Resolver {
    /// Ghost image of the candidate list.
    pub open spec fn plan_view(self) -> Seq<(int, int)> {
        self.plan@.map_values(|c: MoveDir| dir_view(c))
    }

    /// Whether the resolution is decided.
    pub open spec fn done(self) -> bool {
        !(self.state is Probing)
    }

    /// Well-formedness: the candidate list is the probe plan of the reduced
    /// direction, the transcript is aligned with it, and the state sums up
    /// the transcript: still probing while every answer so far rejected and
    /// candidates remain; chosen right after a selecting answer; exhausted
    /// when the whole plan was rejected.
    pub open spec fn wf(self) -> bool {
        &&& -2 <= self.dir.dx <= 2
        &&& -2 <= self.dir.dy <= 2
        &&& self.dir.dx != 0 || self.dir.dy != 0
        &&& self.magnitude <= MAGNITUDE_LIMIT
        &&& self.plan_view() == probe_plan(self.dir.dx as int, self.dir.dy as int)
        &&& self.plan@.len() <= 3
        &&& forall|i: int|
            0 <= i < self.plan@.len() ==> -2 <= (#[trigger] self.plan@[i]).dx <= 2 && -2
                <= self.plan@[i].dy <= 2
        &&& self.fed@.len() <= self.plan@.len()
        &&& self.next == self.fed@.len()
        &&& match self.state {
            ResolveState::Probing => {
                &&& self.fed@.len() < self.plan@.len()
                &&& forall|i: int|
                    0 <= i < self.fed@.len() ==> !selects(
                        #[trigger] self.fed@[i],
                        self.magnitude as int,
                    )
            },
            ResolveState::Chosen(u) => {
                &&& self.fed@.len() >= 1
                &&& forall|i: int|
                    0 <= i < self.fed@.len() - 1 ==> !selects(
                        #[trigger] self.fed@[i],
                        self.magnitude as int,
                    )
                &&& selects(self.fed@.last(), self.magnitude as int)
                &&& dir_view(u) == unit_of(self.plan_view()[self.fed@.len() - 1])
                &&& -1 <= u.dx <= 1
                &&& -1 <= u.dy <= 1
                &&& u.dx != 0 || u.dy != 0
            },
            ResolveState::Exhausted => {
                &&& self.fed@.len() == self.plan@.len()
                &&& forall|i: int|
                    0 <= i < self.fed@.len() ==> !selects(
                        #[trigger] self.fed@[i],
                        self.magnitude as int,
                    )
            },
        }
    }

    /// Starts resolving a tick whose reduced direction is `d` (not zero)
    /// and whose step magnitude is `m`.
    pub fn new(d: MoveDir, m: u64) -> (r: Resolver)
        requires
            -2 <= d.dx <= 2,
            -2 <= d.dy <= 2,
            d.dx != 0 || d.dy != 0,
            m <= MAGNITUDE_LIMIT,
        ensures
            r.wf(),
            !r.done(),
            r.dir == d,
            r.magnitude == m,
            r.fed@ == Seq::<RayAnswer>::empty(),
    {
        let mut plan: Vec<MoveDir> = Vec::new();
        if d.dx != 0 && d.dy != 0 {
            plan.push(MoveDir { dx: d.dx, dy: d.dy });
            plan.push(MoveDir { dx: d.dx, dy: 0 });
            plan.push(MoveDir { dx: 0, dy: d.dy });
        } else if d.dx != 0 {
            plan.push(MoveDir { dx: d.dx, dy: 0 });
            plan.push(MoveDir { dx: d.dx, dy: 0 });
        } else {
            plan.push(MoveDir { dx: 0, dy: d.dy });
            plan.push(MoveDir { dx: 0, dy: d.dy });
        }
        let r = Resolver {
            magnitude: m,
            dir: d,
            plan,
            next: 0,
            state: ResolveState::Probing,
            fed: Ghost(Seq::empty()),
        };
        proof {
            assert(r.plan_view() =~= probe_plan(d.dx as int, d.dy as int));
        }
        r
    }

    /// The unit direction the caller should ray-cast next, or `None` once
    /// the resolution is decided.
    pub fn pending_probe(&self) -> (p: Option<MoveDir>)
        requires
            self.wf(),
        ensures
            match p {
                Some(u) => {
                    &&& !self.done()
                    &&& dir_view(u) == unit_of(self.plan_view()[self.fed@.len() as int])
                    &&& -1 <= u.dx <= 1
                    &&& -1 <= u.dy <= 1
                    &&& u.dx != 0 || u.dy != 0
                },
                None => self.done(),
            },
    {
        match self.state {
            ResolveState::Probing => {
                let cand = self.plan[self.next];
                proof {
                    assert(self.plan_view()[self.next as int] == dir_view(cand));
                    lemma_plan_entry_nonzero(
                        self.dir.dx as int,
                        self.dir.dy as int,
                        self.next as int,
                    );
                }
                Some(unit_dir(cand))
            },
            _ => None,
        }
    }

    /// Hands the resolver the oracle's answer to the pending probe and
    /// advances: a selecting answer decides the tick for that candidate, a
    /// rejecting one moves on, and rejecting the last candidate exhausts
    /// the plan.
    pub fn feed(&mut self, ans: RayAnswer)
        requires
            old(self).wf(),
            !old(self).done(),
        ensures
            final(self).wf(),
            final(self).fed@ == old(self).fed@.push(ans),
            final(self).dir == old(self).dir,
            final(self).magnitude == old(self).magnitude,
            final(self).plan == old(self).plan,
            final(self).done() <==> (selects(ans, old(self).magnitude as int) || old(
                self,
            ).fed@.len() + 1 == old(self).plan@.len()),
            final(self).state is Chosen <==> selects(ans, old(self).magnitude as int),
    {
        let cand = self.plan[self.next];
        let sel: bool = match ans {
            RayAnswer::Miss => true,
            RayAnswer::Hit(h) => h > self.magnitude,
            RayAnswer::DegenerateHit => false,
        };
        proof {
            assert(self.plan_view()[self.next as int] == dir_view(cand));
            lemma_plan_entry_nonzero(self.dir.dx as int, self.dir.dy as int, self.next as int);
        }
        self.fed = Ghost(self.fed@.push(ans));
        self.next = self.next + 1;
        if sel {
            self.state = ResolveState::Chosen(unit_dir(cand));
        } else if self.next == self.plan.len() {
            self.state = ResolveState::Exhausted;
        }
    }

    /// Whether the resolution is decided.
    pub fn is_done(&self) -> (b: bool)
        ensures
            b == self.done(),
    {
        match self.state {
            ResolveState::Probing => false,
            _ => true,
        }
    }

    /// The decided outcome: `Some(Some(u))` to move along unit direction
    /// `u`, `Some(None)` to stay put, `None` while probes are still owed.
    pub fn outcome(&self) -> (oc: Option<Option<MoveDir>>)
        ensures
            match self.state {
                ResolveState::Probing => oc is None,
                ResolveState::Chosen(u) => oc == Some(Some(u)),
                ResolveState::Exhausted => oc == Some(None::<MoveDir>),
            },
    {
        match self.state {
            ResolveState::Probing => None,
            ResolveState::Chosen(u) => Some(Some(u)),
            ResolveState::Exhausted => Some(None),
        }
    }
}

} // verus!
