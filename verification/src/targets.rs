//! Mobile targets: diagonal movement, the bounce state machine that
//! reflects a target's direction off walls, consumption by the player, and
//! the population manager that respawns a full batch when none remain.

use vstd::prelude::*;

use crate::geometry::{classify, overlap, COORD_MAX, Rect, RectShape, Side};
use crate::solids::{rects_of, walls_wf, Collider};

verus! {

/// A diagonal movement direction: left/right paired with up/down. Targets
/// always move on both axes at once; there is no straight-line state.
#[derive(Clone, Copy, Debug, PartialEq, Eq, Structural)]
pub enum Direction {
    Lu,
    Ru,
    Ld,
    Rd,
}

/// A target's movement state: one of the four diagonals, or `None` for an
/// inert target that never moves and never reflects.
#[derive(Clone, Copy, Debug, PartialEq, Eq, Structural)]
pub struct MoveDirection(pub Option<Direction>);

/// A mobile target: its rectangle and its movement state.
#[derive(Clone, Copy, Debug, PartialEq, Eq, Structural)]
pub struct Target {
    pub rect: Rect,
    pub direction: MoveDirection,
}

/// The mathematical view of a [`Target`].
pub ghost struct TargetShape {
    pub rect: RectShape,
    pub dir: Option<Direction>,
}

impl View for Target {
    type V = TargetShape;

    open spec fn view(&self) -> TargetShape {
        TargetShape { rect: self.rect@, dir: self.direction.0 }
    }
}

/// The shapes of a sequence of targets, in order.
pub open spec fn shapes_of(ts: Seq<Target>) -> Seq<TargetShape> {
    ts.map_values(|t: Target| t@)
}

/// Every target in the sequence has a well-formed rectangle.
pub open spec fn targets_wf(ts: Seq<Target>) -> bool {
    forall|i: int| 0 <= i < ts.len() ==> (#[trigger] ts[i])@.rect.wf()
}

/// One movement tick of a single target: a diagonal step of `step` subunits
/// on each axis; an inert target stays put.
pub open spec fn target_moved(t: TargetShape, step: int) -> TargetShape {
    match t.dir {
        Some(Direction::Lu) => TargetShape { rect: t.rect.moved(-step, step), ..t },
        Some(Direction::Ru) => TargetShape { rect: t.rect.moved(step, step), ..t },
        Some(Direction::Ld) => TargetShape { rect: t.rect.moved(-step, -step), ..t },
        Some(Direction::Rd) => TargetShape { rect: t.rect.moved(step, -step), ..t },
        None => t,
    }
}

/// One movement tick of the whole population.
pub open spec fn targets_moved(ts: Seq<TargetShape>, step: int) -> Seq<TargetShape> {
    ts.map_values(|t: TargetShape| target_moved(t, step))
}

/// Every target has room to take one step of `step` subunits in any
/// direction without leaving the coordinate bound.
pub open spec fn room_to_move(ts: Seq<TargetShape>, step: int) -> bool {
    forall|i: int|
        0 <= i < ts.len() ==> {
            let r = (#[trigger] ts[i]).rect;
            &&& -COORD_MAX <= r.x - step
            &&& r.x + step <= COORD_MAX
            &&& -COORD_MAX <= r.y - step
            &&& r.y + step <= COORD_MAX
        }
}

/// How a contact classified on side `s` changes a direction: only the two
/// diagonals whose velocity points into that side are mirrored; any other
/// direction is left unchanged.
pub open spec fn reflect_on(s: Side, d: Direction) -> Direction {
    match s {
        Side::Left => match d {
            Direction::Lu => Direction::Ru,
            Direction::Ld => Direction::Rd,
            _ => d,
        },
        Side::Right => match d {
            Direction::Ru => Direction::Lu,
            Direction::Rd => Direction::Ld,
            _ => d,
        },
        Side::Top => match d {
            Direction::Lu => Direction::Ld,
            Direction::Ru => Direction::Rd,
            _ => d,
        },
        Side::Bottom => match d {
            Direction::Ld => Direction::Lu,
            Direction::Rd => Direction::Ru,
            _ => d,
        },
        Side::Inside => d,
    }
}

/// The effect of one wall on a target's state: if the wall overlaps the
/// target with a classified side and the target is not inert, the direction
/// is reflected on that side; the rectangle never changes.
pub open spec fn wall_effect(w: RectShape, t: TargetShape) -> TargetShape {
    match (classify(w, t.rect), t.dir) {
        (Some(s), Some(d)) => TargetShape { dir: Some(reflect_on(s, d)), ..t },
        _ => t,
    }
}

/// The effect of a whole wall set on a target's state, walls applied in
/// sequence order.
pub open spec fn walls_effect(walls: Seq<RectShape>, t: TargetShape) -> TargetShape
    decreases walls.len(),
{
    if walls.len() == 0 {
        t
    } else {
        wall_effect(walls.last(), walls_effect(walls.drop_last(), t))
    }
}

/// One reflection tick of the whole population.
pub open spec fn targets_reflected(walls: Seq<RectShape>, ts: Seq<TargetShape>) -> Seq<
    TargetShape,
> {
    ts.map_values(|t: TargetShape| walls_effect(walls, t))
}

/// Reflection never moves a target.
pub proof fn lemma_walls_effect_rect(walls: Seq<RectShape>, t: TargetShape)
    ensures
        walls_effect(walls, t).rect == t.rect,
    decreases walls.len(),
{
    if walls.len() > 0 {
        lemma_walls_effect_rect(walls.drop_last(), t);
    }
}

/// A single wall's effect is idempotent: once a contact has turned the
/// direction away from the touched side, applying the same contact again
/// changes nothing, so continued contact with a wall in later ticks cannot
/// flip a direction back.
pub proof fn lemma_wall_effect_idempotent(w: RectShape, t: TargetShape)
    ensures
        wall_effect(w, wall_effect(w, t)) == wall_effect(w, t),
{
}

/// The player consumes this target: any classified overlap counts, a
/// directional side as well as full containment.
pub open spec fn eats(p: RectShape, t: TargetShape) -> bool {
    classify(t.rect, p) is Some
}

/// The targets that remain alive after the consumption pass, in order.
pub open spec fn survivors(p: RectShape, ts: Seq<TargetShape>) -> Seq<TargetShape>
    decreases ts.len(),
{
    if ts.len() == 0 {
        Seq::empty()
    } else {
        let rest = survivors(p, ts.drop_last());
        if eats(p, ts.last()) {
            rest
        } else {
            rest.push(ts.last())
        }
    }
}

/// Consumption only ever removes targets.
pub proof fn lemma_survivors_len(p: RectShape, ts: Seq<TargetShape>)
    ensures
        survivors(p, ts).len() <= ts.len(),
    decreases ts.len(),
{
    if ts.len() > 0 {
        lemma_survivors_len(p, ts.drop_last());
    }
}

/// Every target's center lies within `b` on both axes.
pub open spec fn positions_within(ts: Seq<TargetShape>, b: int) -> bool {
    forall|i: int|
        0 <= i < ts.len() ==> {
            let r = (#[trigger] ts[i]).rect;
            -b <= r.x <= b && -b <= r.y <= b
        }
}

/// Every target's extents equal `s`.
pub open spec fn sizes_are(ts: Seq<TargetShape>, s: int) -> bool {
    forall|i: int|
        0 <= i < ts.len() ==> (#[trigger] ts[i]).rect.w == s && ts[i].rect.h == s
}

/// One movement tick keeps the population's length and sizes and moves
/// each center by at most one step on each axis.
pub proof fn lemma_targets_moved_bounds(ts: Seq<TargetShape>, step: int, b: int, s: int)
    requires
        0 <= step,
        positions_within(ts, b),
        sizes_are(ts, s),
    ensures
        targets_moved(ts, step).len() == ts.len(),
        positions_within(targets_moved(ts, step), b + step),
        sizes_are(targets_moved(ts, step), s),
{
    assert forall|i: int| 0 <= i < targets_moved(ts, step).len() implies {
        let r = (#[trigger] targets_moved(ts, step)[i]).rect;
        &&& -(b + step) <= r.x <= b + step
        &&& -(b + step) <= r.y <= b + step
        &&& r.w == s
        &&& r.h == s
    } by {
        assert(targets_moved(ts, step)[i] == target_moved(ts[i], step));
        assert(ts[i].rect.w == s && ts[i].rect.h == s);
    }
}

/// The reflection pass keeps the population's length and every rectangle,
/// and with them any position bound and the sizes.
pub proof fn lemma_targets_reflected_rects(walls: Seq<RectShape>, ts: Seq<TargetShape>, b: int, s: int)
    requires
        positions_within(ts, b),
        sizes_are(ts, s),
    ensures
        targets_reflected(walls, ts).len() == ts.len(),
        forall|i: int|
            0 <= i < ts.len() ==> (#[trigger] targets_reflected(walls, ts)[i]).rect == ts[i].rect,
        positions_within(targets_reflected(walls, ts), b),
        sizes_are(targets_reflected(walls, ts), s),
{
    assert forall|i: int|
        0 <= i < ts.len() implies (#[trigger] targets_reflected(walls, ts)[i]).rect
        == ts[i].rect by {
        lemma_walls_effect_rect(walls, ts[i]);
    }
    assert forall|i: int| 0 <= i < targets_reflected(walls, ts).len() implies {
        let r = (#[trigger] targets_reflected(walls, ts)[i]).rect;
        &&& -b <= r.x <= b
        &&& -b <= r.y <= b
        &&& r.w == s
        &&& r.h == s
    } by {
        assert(targets_reflected(walls, ts)[i].rect == ts[i].rect);
        assert(ts[i].rect.w == s && ts[i].rect.h == s);
    }
}

/// The consumption pass only removes targets and keeps the bounds and
/// sizes of those that survive.
pub proof fn lemma_survivors_bounds(p: RectShape, ts: Seq<TargetShape>, b: int, s: int)
    requires
        positions_within(ts, b),
        sizes_are(ts, s),
    ensures
        survivors(p, ts).len() <= ts.len(),
        positions_within(survivors(p, ts), b),
        sizes_are(survivors(p, ts), s),
    decreases ts.len(),
{
    if ts.len() > 0 {
        assert(positions_within(ts.drop_last(), b) && sizes_are(ts.drop_last(), s));
        lemma_survivors_bounds(p, ts.drop_last(), b, s);
    }
}

/// Bounded positions and positive extents make every target's rectangle
/// well-formed.
pub proof fn lemma_shapes_wf(ts: Seq<Target>, b: int, s: int)
    requires
        positions_within(shapes_of(ts), b),
        sizes_are(shapes_of(ts), s),
        0 <= b <= COORD_MAX,
        0 < s <= COORD_MAX,
    ensures
        targets_wf(ts),
{
    assert forall|i: int| 0 <= i < ts.len() implies (#[trigger] ts[i])@.rect.wf() by {
        assert(shapes_of(ts)[i] == ts[i]@);
    }
}

/// A freshly spawned target: the configured size, a center inside the
/// arena interior shrunk by half the target size on every edge, and some
/// diagonal direction.
pub open spec fn spawn_ok(t: TargetShape, half_w: int, half_h: int, size: int) -> bool {
    &&& t.rect.w == size
    &&& t.rect.h == size
    &&& -half_w + size / 2 <= t.rect.x < half_w - size / 2
    &&& -half_h + size / 2 <= t.rect.y < half_h - size / 2
    &&& t.dir is Some
}

/// Relies on rand's `random_range` on an `i64` range: the draw always lies
/// within the given half-open range; only an empty range panics, which the
/// precondition rules out. Nothing further can be promised of a random
/// draw.
#[verifier::external_body]
fn random_in_range(lo: i64, hi: i64) -> (r: i64)
    requires
        lo < hi,
    ensures
        lo <= r < hi,
{
    rand::random_range(lo..hi)
}

/// Refills the target population: a no-op returning no targets while any
/// remain, and when none do, spawns exactly `batch` fresh targets, each at
/// a position drawn uniformly inside the arena interior shrunk by half the
/// target size on every edge, with a direction drawn uniformly from the
/// four diagonals. Partial refills never happen.
#[verifier::loop_isolation(false)]
pub fn create_targets(
    remaining: usize,
    half_w: i64,
    half_h: i64,
    size: i64,
    batch: usize,
) -> (spawned: Vec<Target>)
    requires
        0 < half_w <= COORD_MAX,
        0 < half_h <= COORD_MAX,
        0 < size <= COORD_MAX,
        size / 2 < half_w,
        size / 2 < half_h,
    ensures
        remaining != 0 ==> spawned@.len() == 0,
        remaining == 0 ==> spawned@.len() == batch,
        forall|i: int|
            0 <= i < spawned@.len() ==> spawn_ok(
                (#[trigger] spawned@[i])@,
                half_w as int,
                half_h as int,
                size as int,
            ),
        targets_wf(spawned@),
{
    let mut spawned: Vec<Target> = Vec::new();
    if remaining != 0 {
        return spawned;
    }
    let half_size: i64 = size / 2;
    let lo_x: i64 = -half_w + half_size;
    let hi_x: i64 = half_w - half_size;
    let lo_y: i64 = -half_h + half_size;
    let hi_y: i64 = half_h - half_size;
    let mut i: usize = 0;
    while i < batch
        invariant
            0 <= i <= batch,
            spawned@.len() == i,
            forall|k: int|
                0 <= k < i ==> spawn_ok(
                    (#[trigger] spawned@[k])@,
                    half_w as int,
                    half_h as int,
                    size as int,
                ),
        decreases batch - i,
    {
        let x = random_in_range(lo_x, hi_x);
        let y = random_in_range(lo_y, hi_y);
        let roll = random_in_range(0, 4);
        let dir: Direction = if roll == 0 {
            Direction::Lu
        } else if roll == 1 {
            Direction::Ru
        } else if roll == 2 {
            Direction::Ld
        } else {
            Direction::Rd
        };
        spawned.push(
            Target {
                rect: Rect { x: x, y: y, w: size, h: size },
                direction: MoveDirection(Some(dir)),
            },
        );
        i = i + 1;
    }
    spawned
}

/// Moves every target one tick along its current diagonal direction.
/// Movement uses the direction as it stands before this tick's reflection
/// pass, so a reflection takes effect on the next tick's movement.
pub fn move_targets(targets: &mut Vec<Target>, speed: i64, rate: i64)
    requires
        0 <= speed,
        0 < rate,
        room_to_move(shapes_of(old(targets)@), crate::player::step_len(speed as int, rate as int)),
    ensures
        shapes_of(final(targets)@) == targets_moved(
            shapes_of(old(targets)@),
            crate::player::step_len(speed as int, rate as int),
        ),
{
    let d: i64 = speed / rate;
    let ghost orig = shapes_of(targets@);
    let mut i: usize = 0;
    while i < targets.len()
        invariant
            0 <= i <= targets.len(),
            targets@.len() == orig.len(),
            orig == shapes_of(old(targets)@),
            room_to_move(orig, d as int),
            0 <= d,
            forall|j: int| 0 <= j < i ==> (#[trigger] targets@[j])@ == target_moved(orig[j], d as int),
            forall|j: int| i <= j < targets@.len() ==> (#[trigger] targets@[j]) == old(targets)@[j],
        decreases targets@.len() - i,
    {
        proof {
            assert(orig[i as int] == old(targets)@[i as int]@);
        }
        let t = targets[i];
        let moved = match t.direction.0 {
            Some(Direction::Lu) => Target {
                rect: Rect { x: t.rect.x - d, y: t.rect.y + d, ..t.rect },
                ..t
            },
            Some(Direction::Ru) => Target {
                rect: Rect { x: t.rect.x + d, y: t.rect.y + d, ..t.rect },
                ..t
            },
            Some(Direction::Ld) => Target {
                rect: Rect { x: t.rect.x - d, y: t.rect.y - d, ..t.rect },
                ..t
            },
            Some(Direction::Rd) => Target {
                rect: Rect { x: t.rect.x + d, y: t.rect.y - d, ..t.rect },
                ..t
            },
            None => t,
        };
        targets.set(i, moved);
        proof {
            assert(t@ == orig[i as int]);
            assert(moved@ == target_moved(orig[i as int], d as int));
        }
        i = i + 1;
    }
    proof {
        assert(shapes_of(targets@) =~= targets_moved(orig, d as int));
    }
}

/// Runs the reflection pass of the bounce state machine: classifies every
/// target against every wall and mirrors the direction component that
/// points into each touched side. Positions are left untouched.
pub fn change_direction(targets: &mut Vec<Target>, walls: &Vec<Collider>)
    requires
        walls_wf(walls@),
        targets_wf(old(targets)@),
    ensures
        shapes_of(final(targets)@) == targets_reflected(
            rects_of(walls@),
            shapes_of(old(targets)@),
        ),
{
    let ghost ws = rects_of(walls@);
    let ghost orig = shapes_of(targets@);
    let mut i: usize = 0;
    while i < targets.len()
        invariant
            0 <= i <= targets.len(),
            targets@.len() == orig.len(),
            orig == shapes_of(old(targets)@),
            ws == rects_of(walls@),
            walls_wf(walls@),
            targets_wf(old(targets)@),
            forall|j: int| 0 <= j < i ==> (#[trigger] targets@[j])@ == walls_effect(ws, orig[j]),
            forall|j: int| i <= j < targets@.len() ==> (#[trigger] targets@[j]) == old(targets)@[j],
        decreases targets@.len() - i,
    {
        proof {
            assert(orig[i as int] == old(targets)@[i as int]@);
        }
        let t = targets[i];
        let mut dir: MoveDirection = t.direction;
        let mut j: usize = 0;
        while j < walls.len()
            invariant
                0 <= j <= walls.len(),
                ws == rects_of(walls@),
                walls_wf(walls@),
                t@.rect.wf(),
                dir.0 == walls_effect(ws.take(j as int), t@).dir,
            decreases walls@.len() - j,
        {
            proof {
                assert(ws[j as int] == walls@[j as int]@);
                lemma_walls_effect_rect(ws.take(j as int), t@);
            }
            let hit = overlap(&walls[j].rect, &t.rect);
            let next: MoveDirection = match (hit, dir.0) {
                (Some(Side::Left), Some(Direction::Lu)) => MoveDirection(Some(Direction::Ru)),
                (Some(Side::Left), Some(Direction::Ld)) => MoveDirection(Some(Direction::Rd)),
                (Some(Side::Right), Some(Direction::Ru)) => MoveDirection(Some(Direction::Lu)),
                (Some(Side::Right), Some(Direction::Rd)) => MoveDirection(Some(Direction::Ld)),
                (Some(Side::Top), Some(Direction::Lu)) => MoveDirection(Some(Direction::Ld)),
                (Some(Side::Top), Some(Direction::Ru)) => MoveDirection(Some(Direction::Rd)),
                (Some(Side::Bottom), Some(Direction::Ld)) => MoveDirection(Some(Direction::Lu)),
                (Some(Side::Bottom), Some(Direction::Rd)) => MoveDirection(Some(Direction::Ru)),
                _ => dir,
            };
            dir = next;
            proof {
                assert(ws.take(j as int + 1).drop_last() =~= ws.take(j as int));
                assert(ws.take(j as int + 1).last() == ws[j as int]);
            }
            j = j + 1;
        }
        proof {
            assert(ws.take(walls@.len() as int) =~= ws);
            lemma_walls_effect_rect(ws, t@);
            assert(Target { rect: t.rect, direction: dir }@ == walls_effect(ws, orig[i as int]));
        }
        targets.set(i, Target { rect: t.rect, direction: dir });
        i = i + 1;
    }
    proof {
        assert(shapes_of(targets@) =~= targets_reflected(ws, orig));
    }
}

/// Removes every target the player currently overlaps, keeping the others
/// in order.
pub fn check_eating(player: &crate::player::Player, targets: &mut Vec<Target>)
    requires
        player@.wf(),
        targets_wf(old(targets)@),
    ensures
        shapes_of(final(targets)@) == survivors(player@, shapes_of(old(targets)@)),
{
    let ghost orig = shapes_of(targets@);
    let mut kept: Vec<Target> = Vec::new();
    let mut i: usize = 0;
    while i < targets.len()
        invariant
            0 <= i <= targets.len(),
            orig == shapes_of(targets@),
            targets_wf(targets@),
            player@.wf(),
            shapes_of(kept@) == survivors(player@, orig.take(i as int)),
        decreases targets@.len() - i,
    {
        proof {
            assert(orig[i as int] == targets@[i as int]@);
        }
        let t = targets[i];
        let hit = overlap(&t.rect, &player.rect);
        proof {
            assert(orig.take(i as int + 1).drop_last() =~= orig.take(i as int));
            assert(orig.take(i as int + 1).last() == orig[i as int]);
        }
        if hit.is_none() {
            kept.push(t);
            proof {
                assert(shapes_of(kept@) =~= survivors(player@, orig.take(i as int + 1)));
            }
        }
        i = i + 1;
    }
    proof {
        assert(orig.take(targets@.len() as int) =~= orig);
    }
    *targets = kept;
}

} // verus!
