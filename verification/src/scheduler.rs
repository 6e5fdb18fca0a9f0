//! The simulation scheduler: the per-frame driver that owns all mutable
//! state and advances it at two fixed tick rates — a fast rate for player
//! movement and a slower one for target movement, bouncing and consumption
//! — decoupled from the variable frame rate by per-rate accumulators.

use vstd::arithmetic::div_mod::{lemma_fundamental_div_mod, lemma_mod_bound};
use vstd::arithmetic::mul::lemma_mul_upper_bound;
use vstd::prelude::*;

use crate::geometry::{COORD_MAX, Rect, RectShape};
use crate::player::{
    move_player, player_steps, step_len, DirectionalInput, Player,
};
use crate::scores::{handle_scores, ScoreBoard, ScoreTimer};
use crate::solids::{create_walls, rects_of, wall_layout, walls_wf, Collider};
use crate::targets::{
    change_direction, check_eating, create_targets, move_targets, positions_within, shapes_of,
    sizes_are, spawn_ok, survivors, targets_moved, targets_reflected, Target, TargetShape,
};

verus! {

/// Upper bound on entity speeds: a thousand world units per second, in
/// subunits per second.
pub const MAX_SPEED: i64 = 1_000_000;

/// Upper bound on the fixed tick rates, in ticks per second.
pub const MAX_RATE: i64 = 1000;

/// Upper bound on one frame's elapsed real time, in microseconds.
pub const MAX_FRAME_US: u64 = 1_000_000;

/// Bound on entity positions at the start of a frame. Far inside
/// `COORD_MAX`, so that a frame's worth of movement can never push any
/// coordinate out of the well-formed range.
pub const POS_LIMIT: i64 = 0x100_0000_0000;

/// How far beyond `POS_LIMIT` one frame can carry an entity, with room to
/// spare: a frame runs at most a thousand and one ticks, each moving at
/// most `MAX_SPEED` subunits, which stays below two billion subunits.
pub const FRAME_SLACK: i64 = 0x8000_0000;

/// Bound on the score at the start of a frame, far from `i64` overflow.
pub const SCORE_LIMIT: i64 = 0x1000_0000_0000_0000;

/// Upper bound on the per-interval score step.
pub const MAX_STEP: i64 = 1_000_000;

/// A fixed-timestep accumulator: frame times are added to `acc_us`, and
/// each full `period_us` inside it is consumed as one due simulation step.
#[derive(Clone, Copy, Debug, PartialEq, Eq, Structural)]
pub struct StepAccumulator {
    pub acc_us: u64,
    pub period_us: u64,
}

impl StepAccumulator {
    /// The period is positive and the leftover is strictly below it.
    pub open spec fn wf(self) -> bool {
        0 < self.period_us && self.acc_us < self.period_us
    }

    /// How many steps fall due when `dt` more microseconds arrive.
    pub open spec fn steps_due(self, dt: int) -> int {
        (self.acc_us + dt) / (self.period_us as int)
    }

    /// A fresh accumulator with the given period and no time stored.
    pub fn new(period_us: u64) -> (acc: StepAccumulator)
        requires
            0 < period_us,
        ensures
            acc.period_us == period_us,
            acc.acc_us == 0,
            acc.wf(),
    {
        StepAccumulator { acc_us: 0, period_us }
    }

    /// Adds one frame's elapsed time and consumes every full period from
    /// the accumulator, returning how many fixed steps fell due.
    pub fn advance(&mut self, dt_us: u64) -> (steps: u64)
        requires
            old(self).wf(),
            old(self).acc_us + dt_us <= u64::MAX,
        ensures
            final(self).period_us == old(self).period_us,
            final(self).wf(),
            steps == old(self).steps_due(dt_us as int),
            final(self).acc_us == (old(self).acc_us + dt_us) % (old(self).period_us as int),
            steps * old(self).period_us <= old(self).acc_us + dt_us,
            old(self).acc_us + dt_us < (steps + 1) * old(self).period_us,
    {
        let total = self.acc_us + dt_us;
        let steps = total / self.period_us;
        self.acc_us = total % self.period_us;
        proof {
            lemma_fundamental_div_mod(total as int, self.period_us as int);
            lemma_mod_bound(total as int, self.period_us as int);
            let q = steps as int;
            let p = self.period_us as int;
            assert((q + 1) * p == q * p + p) by (nonlinear_arith);
            assert(q * p == p * q) by (nonlinear_arith);
        }
        steps
    }
}

/// Static configuration of a simulation run: arena geometry, entity sizes
/// and speeds, the two fixed tick rates, the refill batch size and the
/// score clock parameters.
#[derive(Clone, Copy, Debug, PartialEq, Eq, Structural)]
pub struct SimConfig {
    /// Arena half-extent on the horizontal axis, in subunits.
    pub half_w: i64,
    /// Arena half-extent on the vertical axis, in subunits.
    pub half_h: i64,
    /// Wall thickness, in subunits.
    pub wall_thickness: i64,
    /// Player square edge length, in subunits.
    pub player_size: i64,
    /// Player speed, in subunits per second.
    pub player_speed: i64,
    /// Target square edge length, in subunits.
    pub target_size: i64,
    /// Target speed, in subunits per second.
    pub target_speed: i64,
    /// How many targets a refill spawns.
    pub batch: usize,
    /// Player movement ticks per second.
    pub fast_rate: i64,
    /// Target movement ticks per second.
    pub slow_rate: i64,
    /// Score clock interval, in microseconds.
    pub score_interval_us: u64,
    /// Score increment per elapsed interval.
    pub score_step: i64,
}

impl SimConfig {
    /// Everything positive where it must be, and small enough that no
    /// frame can overflow a coordinate or the score.
    pub open spec fn wf(self) -> bool {
        &&& 0 < self.half_w
        &&& 0 < self.half_h
        &&& 0 < self.wall_thickness
        &&& 2 * self.half_w + 3 * self.wall_thickness <= COORD_MAX
        &&& 2 * self.half_h + 3 * self.wall_thickness <= COORD_MAX
        &&& 0 < self.player_size <= COORD_MAX
        &&& 0 <= self.player_speed <= MAX_SPEED
        &&& 0 < self.target_size <= COORD_MAX
        &&& self.target_size / 2 < self.half_w
        &&& self.target_size / 2 < self.half_h
        &&& 0 <= self.target_speed <= MAX_SPEED
        &&& 0 < self.fast_rate <= MAX_RATE
        &&& 0 < self.slow_rate <= MAX_RATE
        &&& 0 < self.score_interval_us <= 1_000_000_000_000u64
        &&& 0 <= self.score_step <= MAX_STEP
        &&& self.half_w <= POS_LIMIT
        &&& self.half_h <= POS_LIMIT
    }
}

/// One tick of the slow phase: every target takes a diagonal step, the
/// bounce state machine reflects directions off the walls (using the
/// pre-reflection direction for this tick's movement), and the player
/// consumes every target it overlaps.
pub open spec fn slow_tick(
    walls: Seq<RectShape>,
    p: RectShape,
    ts: Seq<TargetShape>,
    step: int,
) -> Seq<TargetShape> {
    survivors(p, targets_reflected(walls, targets_moved(ts, step)))
}

/// `n` ticks of the slow phase.
pub open spec fn slow_ticks(
    walls: Seq<RectShape>,
    p: RectShape,
    ts: Seq<TargetShape>,
    step: int,
    n: nat,
) -> Seq<TargetShape>
    decreases n,
{
    if n == 0 {
        ts
    } else {
        slow_tick(walls, p, slow_ticks(walls, p, ts, step, (n - 1) as nat), step)
    }
}

/// The slow phase never adds targets, keeps their sizes, and moves each
/// center by at most one step per tick.
pub proof fn lemma_slow_ticks_bounds(
    walls: Seq<RectShape>,
    p: RectShape,
    ts: Seq<TargetShape>,
    step: int,
    n: nat,
    b: int,
    s: int,
)
    requires
        0 <= step,
        positions_within(ts, b),
        sizes_are(ts, s),
    ensures
        slow_ticks(walls, p, ts, step, n).len() <= ts.len(),
        positions_within(slow_ticks(walls, p, ts, step, n), b + n * step),
        sizes_are(slow_ticks(walls, p, ts, step, n), s),
    decreases n,
{
    if n == 0 {
        assert(n * step == 0) by (nonlinear_arith)
            requires n == 0
        ;
    } else {
        lemma_slow_ticks_bounds(walls, p, ts, step, (n - 1) as nat, b, s);
        let prev = slow_ticks(walls, p, ts, step, (n - 1) as nat);
        let m = n as int;
        assert((m - 1) * step + step == m * step) by (nonlinear_arith);
        crate::targets::lemma_targets_moved_bounds(prev, step, b + (n - 1) * step, s);
        let moved = targets_moved(prev, step);
        crate::targets::lemma_targets_reflected_rects(walls, moved, b + m * step, s);
        let refl = targets_reflected(walls, moved);
        crate::targets::lemma_survivors_bounds(p, refl, b + m * step, s);
    }
}

/// The whole simulation state. The scheduler owns it exclusively; the
/// renderer may read a snapshot after each frame but never mutates it.
pub struct Simulation {
    pub config: SimConfig,
    pub player: Player,
    pub walls: Vec<Collider>,
    pub targets: Vec<Target>,
    pub fast: StepAccumulator,
    pub slow: StepAccumulator,
    pub timer: ScoreTimer,
    pub board: ScoreBoard,
}

impl Simulation {
    /// Structural well-formedness that every frame preserves: a valid
    /// configuration, the four walls exactly as built for it, entity
    /// extents matching the configured sizes, accumulator periods derived
    /// from the tick rates, and a valid score clock.
    pub open spec fn wf_core(self) -> bool {
        &&& self.config.wf()
        &&& rects_of(self.walls@) == wall_layout(
            self.config.half_w as int,
            self.config.half_h as int,
            self.config.wall_thickness as int,
        )
        &&& walls_wf(self.walls@)
        &&& self.player.rect.w == self.config.player_size
        &&& self.player.rect.h == self.config.player_size
        &&& sizes_are(shapes_of(self.targets@), self.config.target_size as int)
        &&& self.fast.wf()
        &&& self.fast.period_us as int == 1_000_000int / (self.config.fast_rate as int)
        &&& 1000 <= self.fast.period_us <= 1_000_000
        &&& self.slow.wf()
        &&& self.slow.period_us as int == 1_000_000int / (self.config.slow_rate as int)
        &&& 1000 <= self.slow.period_us <= 1_000_000
        &&& self.timer.wf()
        &&& self.timer.interval_us == self.config.score_interval_us
    }

    /// Position and score bounds that must hold when a frame starts; one
    /// frame keeps positions within `POS_LIMIT + FRAME_SLACK` and the
    /// score within `SCORE_LIMIT + MAX_STEP`, so a caller re-checks them
    /// before the next frame.
    pub open spec fn in_bounds(self) -> bool {
        &&& -POS_LIMIT <= self.player.rect.x <= POS_LIMIT
        &&& -POS_LIMIT <= self.player.rect.y <= POS_LIMIT
        &&& positions_within(shapes_of(self.targets@), POS_LIMIT as int)
        &&& 0 <= self.board.score <= SCORE_LIMIT
    }

    /// Everything a frame needs.
    pub open spec fn ready(self) -> bool {
        self.wf_core() && self.in_bounds()
    }

    /// Advances the simulation by one rendered frame of `dt_us`
    /// microseconds. Every player movement tick that fell due at the fast
    /// rate runs first; then every slow tick runs, each moving the targets
    /// along their pre-reflection directions, reflecting directions off
    /// walls, and consuming targets the player overlaps; then the
    /// population refills to a full batch if it stands at zero; and the
    /// score clock accumulates the frame time on its own cadence.
    #[verifier::loop_isolation(false)]
    pub fn frame(&mut self, input: DirectionalInput, dt_us: u64)
        requires
            old(self).ready(),
            dt_us <= MAX_FRAME_US,
        ensures
            final(self).config == old(self).config,
            final(self).walls@ == old(self).walls@,
            final(self).wf_core(),
            final(self).fast.acc_us == (old(self).fast.acc_us + dt_us) % (
            old(self).fast.period_us as int),
            final(self).slow.acc_us == (old(self).slow.acc_us + dt_us) % (
            old(self).slow.period_us as int),
            final(self).player@ == player_steps(
                rects_of(old(self).walls@),
                old(self).player@,
                input,
                step_len(old(self).config.player_speed as int, old(self).config.fast_rate as int),
                old(self).fast.steps_due(dt_us as int) as nat,
            ),
            ({
                let after = slow_ticks(
                    rects_of(old(self).walls@),
                    final(self).player@,
                    shapes_of(old(self).targets@),
                    step_len(
                        old(self).config.target_speed as int,
                        old(self).config.slow_rate as int,
                    ),
                    old(self).slow.steps_due(dt_us as int) as nat,
                );
                &&& after.len() > 0 ==> shapes_of(final(self).targets@) == after
                &&& after.len() == 0 ==> final(self).targets@.len() == old(self).config.batch
                &&& after.len() == 0 ==> forall|i: int|
                    0 <= i < final(self).targets@.len() ==> spawn_ok(
                        (#[trigger] final(self).targets@[i])@,
                        old(self).config.half_w as int,
                        old(self).config.half_h as int,
                        old(self).config.target_size as int,
                    )
            }),
            final(self).targets@.len() == old(self).config.batch || final(self).targets@.len()
                <= old(self).targets@.len(),
            final(self).timer.interval_us == old(self).timer.interval_us,
            old(self).timer.fires(dt_us as int) ==> final(self).timer.elapsed_us == 0
                && final(self).board.score == old(self).board.score + old(self).config.score_step,
            !old(self).timer.fires(dt_us as int) ==> final(self).timer.elapsed_us == old(
                self,
            ).timer.elapsed_us + dt_us && final(self).board.score == old(self).board.score,
            -POS_LIMIT - FRAME_SLACK <= final(self).player.rect.x <= POS_LIMIT + FRAME_SLACK,
            -POS_LIMIT - FRAME_SLACK <= final(self).player.rect.y <= POS_LIMIT + FRAME_SLACK,
            positions_within(shapes_of(final(self).targets@), POS_LIMIT + FRAME_SLACK),
            old(self).board.score <= final(self).board.score <= old(self).board.score + MAX_STEP,
    {
        let ghost cfg0 = self.config;
        let ghost ws = rects_of(self.walls@);
        let ghost p0 = self.player@;
        let ghost ts0 = shapes_of(self.targets@);
        let ghost dfast = step_len(cfg0.player_speed as int, cfg0.fast_rate as int);
        let ghost dslow = step_len(cfg0.target_speed as int, cfg0.slow_rate as int);
        proof {
            assert(0 <= dfast <= MAX_SPEED) by (nonlinear_arith)
                requires
                    dfast == cfg0.player_speed as int / cfg0.fast_rate as int,
                    0 <= cfg0.player_speed <= MAX_SPEED,
                    0 < cfg0.fast_rate,
            ;
            assert(0 <= dslow <= MAX_SPEED) by (nonlinear_arith)
                requires
                    dslow == cfg0.target_speed as int / cfg0.slow_rate as int,
                    0 <= cfg0.target_speed <= MAX_SPEED,
                    0 < cfg0.slow_rate,
            ;
        }

        let ghost fast0 = self.fast;
        let nf = self.fast.advance(dt_us);
        let ghost fast1 = self.fast;
        proof {
            assert(nf <= 1000) by (nonlinear_arith)
                requires
                    nf * fast0.period_us <= fast0.acc_us + dt_us,
                    fast0.acc_us < fast0.period_us,
                    dt_us <= 1_000_000,
                    1000 <= fast0.period_us,
            ;
        }
        let mut k: u64 = 0;
        while k < nf
            invariant
                0 <= k <= nf,
                self.config == cfg0,
                self.walls@ == old(self).walls@,
                self.targets@ == old(self).targets@,
                self.fast == fast1,
                self.slow == old(self).slow,
                self.timer == old(self).timer,
                self.board == old(self).board,
                self.player@ == player_steps(ws, p0, input, dfast, k as nat),
            decreases nf - k,
        {
            proof {
                crate::player::lemma_player_steps_bound(
                    ws,
                    p0,
                    input,
                    dfast,
                    k as nat,
                    POS_LIMIT as int,
                );
                lemma_mul_upper_bound(k as int, 1000, dfast, MAX_SPEED as int);
            }
            move_player(
                &mut self.player,
                &self.walls,
                input,
                self.config.player_speed,
                self.config.fast_rate,
            );
            k = k + 1;
        }
        proof {
            crate::player::lemma_player_steps_bound(
                ws,
                p0,
                input,
                dfast,
                nf as nat,
                POS_LIMIT as int,
            );
            lemma_mul_upper_bound(nf as int, 1000, dfast, MAX_SPEED as int);
        }
        let psnap: Player = self.player;
        let ghost p_end = self.player@;

        let ghost slow0 = self.slow;
        let ns = self.slow.advance(dt_us);
        let ghost slow1 = self.slow;
        proof {
            assert(ns <= 1000) by (nonlinear_arith)
                requires
                    ns * slow0.period_us <= slow0.acc_us + dt_us,
                    slow0.acc_us < slow0.period_us,
                    dt_us <= 1_000_000,
                    1000 <= slow0.period_us,
            ;
        }
        proof {
            assert(p_end.wf());
        }
        let mut j: u64 = 0;
        while j < ns
            invariant
                0 <= j <= ns,
                self.config == cfg0,
                self.walls@ == old(self).walls@,
                self.player == psnap,
                self.fast == fast1,
                self.slow == slow1,
                self.timer == old(self).timer,
                self.board == old(self).board,
                shapes_of(self.targets@) == slow_ticks(ws, p_end, ts0, dslow, j as nat),
            decreases ns - j,
        {
            let ghost before = slow_ticks(ws, p_end, ts0, dslow, j as nat);
            proof {
                lemma_slow_ticks_bounds(
                    ws,
                    p_end,
                    ts0,
                    dslow,
                    j as nat,
                    POS_LIMIT as int,
                    cfg0.target_size as int,
                );
                lemma_mul_upper_bound(j as int, 1000, dslow, MAX_SPEED as int);
                crate::targets::lemma_shapes_wf(
                    self.targets@,
                    POS_LIMIT + j * dslow,
                    cfg0.target_size as int,
                );
            }
            move_targets(&mut self.targets, self.config.target_speed, self.config.slow_rate);
            proof {
                crate::targets::lemma_targets_moved_bounds(
                    before,
                    dslow,
                    POS_LIMIT + j * dslow,
                    cfg0.target_size as int,
                );
                crate::targets::lemma_shapes_wf(
                    self.targets@,
                    POS_LIMIT + j * dslow + dslow,
                    cfg0.target_size as int,
                );
            }
            change_direction(&mut self.targets, &self.walls);
            proof {
                crate::targets::lemma_targets_reflected_rects(
                    ws,
                    targets_moved(before, dslow),
                    POS_LIMIT + j * dslow + dslow,
                    cfg0.target_size as int,
                );
                crate::targets::lemma_shapes_wf(
                    self.targets@,
                    POS_LIMIT + j * dslow + dslow,
                    cfg0.target_size as int,
                );
            }
            check_eating(&self.player, &mut self.targets);
            j = j + 1;
        }
        proof {
            lemma_slow_ticks_bounds(
                ws,
                p_end,
                ts0,
                dslow,
                ns as nat,
                POS_LIMIT as int,
                cfg0.target_size as int,
            );
            lemma_mul_upper_bound(ns as int, 1000, dslow, MAX_SPEED as int);
        }

        let ghost after_slow = shapes_of(self.targets@);
        if self.targets.len() == 0 {
            self.targets = create_targets(
                0,
                self.config.half_w,
                self.config.half_h,
                self.config.target_size,
                self.config.batch,
            );
            proof {
                assert forall|i: int| 0 <= i < shapes_of(self.targets@).len() implies {
                    let r = (#[trigger] shapes_of(self.targets@)[i]).rect;
                    &&& -POS_LIMIT <= r.x <= POS_LIMIT
                    &&& -POS_LIMIT <= r.y <= POS_LIMIT
                    &&& r.w == cfg0.target_size
                    &&& r.h == cfg0.target_size
                } by {
                    assert(shapes_of(self.targets@)[i] == self.targets@[i]@);
                    assert(spawn_ok(
                        self.targets@[i]@,
                        cfg0.half_w as int,
                        cfg0.half_h as int,
                        cfg0.target_size as int,
                    ));
                }
            }
        }

        handle_scores(&mut self.timer, &mut self.board, dt_us, self.config.score_step);
    }

    /// A fresh simulation: walls built for the configured arena, the
    /// player centered at the origin, no targets yet (the first frame
    /// refills them), empty accumulators, score zero.
    pub fn new(config: SimConfig) -> (sim: Simulation)
        requires
            config.wf(),
        ensures
            sim.config == config,
            sim.ready(),
            sim.player.rect == (Rect {
                x: 0,
                y: 0,
                w: config.player_size,
                h: config.player_size,
            }),
            sim.targets@.len() == 0,
            sim.fast.acc_us == 0,
            sim.slow.acc_us == 0,
            sim.timer.elapsed_us == 0,
            sim.board.score == 0,
    {
        let walls = create_walls(config.half_w, config.half_h, config.wall_thickness);
        let fast_period: i64 = 1_000_000 / config.fast_rate;
        let slow_period: i64 = 1_000_000 / config.slow_rate;
        proof {
            assert(1000 <= 1_000_000int / (config.fast_rate as int) <= 1_000_000) by (nonlinear_arith)
                requires
                    0 < config.fast_rate <= 1000,
            ;
            assert(1000 <= 1_000_000int / (config.slow_rate as int) <= 1_000_000) by (nonlinear_arith)
                requires
                    0 < config.slow_rate <= 1000,
            ;
        }
        Simulation {
            config,
            player: Player {
                rect: Rect { x: 0, y: 0, w: config.player_size, h: config.player_size },
            },
            walls,
            targets: Vec::new(),
            fast: StepAccumulator::new(fast_period as u64),
            slow: StepAccumulator::new(slow_period as u64),
            timer: ScoreTimer::new(config.score_interval_us),
            board: ScoreBoard { score: 0 },
        }
    }

    /// Runtime check of the bounds half of the frame precondition, for a
    /// driver that runs frame after frame: one frame leaves positions
    /// within `POS_LIMIT + FRAME_SLACK` and the score within
    /// `SCORE_LIMIT + MAX_STEP`, and this answers whether they are back
    /// under the tighter start-of-frame limits.
    pub fn within_limits(&self) -> (ok: bool)
        ensures
            ok == self.in_bounds(),
    {
        if !(-POS_LIMIT <= self.player.rect.x && self.player.rect.x <= POS_LIMIT
            && -POS_LIMIT <= self.player.rect.y && self.player.rect.y <= POS_LIMIT) {
            return false;
        }
        if !(0 <= self.board.score && self.board.score <= SCORE_LIMIT) {
            return false;
        }
        let mut i: usize = 0;
        while i < self.targets.len()
            invariant
                0 <= i <= self.targets@.len(),
                forall|k: int|
                    0 <= k < i ==> {
                        let r = (#[trigger] shapes_of(self.targets@)[k]).rect;
                        -POS_LIMIT <= r.x <= POS_LIMIT && -POS_LIMIT <= r.y <= POS_LIMIT
                    },
            decreases self.targets@.len() - i,
        {
            let r = self.targets[i].rect;
            proof {
                assert(shapes_of(self.targets@)[i as int] == self.targets@[i as int]@);
            }
            if !(-POS_LIMIT <= r.x && r.x <= POS_LIMIT && -POS_LIMIT <= r.y && r.y
                <= POS_LIMIT) {
                return false;
            }
            i = i + 1;
        }
        true
    }
}

} // verus!
