//! Player movement: per-tick displacement from directional input, with
//! per-side permission flags that suppress motion into a touching wall.

use vstd::prelude::*;

use crate::geometry::{classify, overlap, COORD_MAX, Rect, RectShape, Side};
use crate::solids::{rects_of, walls_wf, Collider};

verus! {

/// The player-controlled rectangle.
#[derive(Clone, Copy, Debug, PartialEq, Eq, Structural)]
pub struct Player {
    pub rect: Rect,
}

impl View for Player {
    type V = RectShape;

    open spec fn view(&self) -> RectShape {
        self.rect@
    }
}

/// Held directional input for one tick: one flag per axis direction. Both
/// flags of an axis may be held at once, and both axes may be active in the
/// same tick (diagonal movement).
#[derive(Clone, Copy, Debug, PartialEq, Eq, Structural)]
pub struct DirectionalInput {
    pub left: bool,
    pub right: bool,
    pub up: bool,
    pub down: bool,
}

/// Permission flag for one side: the player may move toward side `s` unless
/// some wall currently overlaps it with contact classified on that side.
pub open spec fn may_move(walls: Seq<RectShape>, r: RectShape, s: Side) -> bool {
    forall|i: int| 0 <= i < walls.len() ==> classify(#[trigger] walls[i], r) != Some(s)
}

/// Displacement per tick of an entity moving at `speed` subunits per second
/// stepped `rate` times per second (the tick's `dt` is `1 / rate` seconds).
pub open spec fn step_len(speed: int, rate: int) -> int {
    speed / rate
}

/// Net horizontal displacement of the player for one tick: each held
/// direction contributes a step unless its permission flag is down.
pub open spec fn player_dx(
    walls: Seq<RectShape>,
    r: RectShape,
    input: DirectionalInput,
    d: int,
) -> int {
    (if input.right && may_move(walls, r, Side::Right) {
        d
    } else {
        0
    }) - (if input.left && may_move(walls, r, Side::Left) {
        d
    } else {
        0
    })
}

/// Net vertical displacement of the player for one tick.
pub open spec fn player_dy(
    walls: Seq<RectShape>,
    r: RectShape,
    input: DirectionalInput,
    d: int,
) -> int {
    (if input.up && may_move(walls, r, Side::Top) {
        d
    } else {
        0
    }) - (if input.down && may_move(walls, r, Side::Bottom) {
        d
    } else {
        0
    })
}

/// The player's rectangle after one movement tick.
pub open spec fn player_step(
    walls: Seq<RectShape>,
    r: RectShape,
    input: DirectionalInput,
    d: int,
) -> RectShape {
    r.moved(player_dx(walls, r, input, d), player_dy(walls, r, input, d))
}

/// The player's rectangle after `n` movement ticks against a fixed wall
/// set under held input.
pub open spec fn player_steps(
    walls: Seq<RectShape>,
    r: RectShape,
    input: DirectionalInput,
    d: int,
    n: nat,
) -> RectShape
    decreases n,
{
    if n == 0 {
        r
    } else {
        player_step(walls, player_steps(walls, r, input, d, (n - 1) as nat), input, d)
    }
}

/// Movement ticks never change the player's extents, and `n` of them move
/// the center by at most `n` steps on each axis.
pub proof fn lemma_player_steps_bound(
    walls: Seq<RectShape>,
    r: RectShape,
    input: DirectionalInput,
    d: int,
    n: nat,
    b: int,
)
    requires
        0 <= d,
        -b <= r.x <= b,
        -b <= r.y <= b,
    ensures
        -b - n * d <= player_steps(walls, r, input, d, n).x <= b + n * d,
        -b - n * d <= player_steps(walls, r, input, d, n).y <= b + n * d,
        player_steps(walls, r, input, d, n).w == r.w,
        player_steps(walls, r, input, d, n).h == r.h,
    decreases n,
{
    if n > 0 {
        lemma_player_steps_bound(walls, r, input, d, (n - 1) as nat, b);
        let m = n as int;
        assert((m - 1) * d + d == m * d) by (nonlinear_arith);
    }
}

/// Moves the player for one tick: classifies contact against every wall,
/// drops the displacement component of any side already in contact, and
/// applies the rest unconditionally. The displacement is not swept, so a
/// step longer than a wall is thick can pass through it; that discrete-step
/// behavior is part of the contract.
pub fn move_player(
    player: &mut Player,
    walls: &Vec<Collider>,
    input: DirectionalInput,
    speed: i64,
    rate: i64,
)
    requires
        old(player)@.wf(),
        walls_wf(walls@),
        0 <= speed,
        0 < rate,
        -COORD_MAX <= old(player)@.x - step_len(speed as int, rate as int),
        old(player)@.x + step_len(speed as int, rate as int) <= COORD_MAX,
        -COORD_MAX <= old(player)@.y - step_len(speed as int, rate as int),
        old(player)@.y + step_len(speed as int, rate as int) <= COORD_MAX,
    ensures
        final(player)@ == player_step(
            rects_of(walls@),
            old(player)@,
            input,
            step_len(speed as int, rate as int),
        ),
        final(player)@.wf(),
{
    let prect: Rect = player.rect;
    let ghost ws = rects_of(walls@);

    let mut left_ok = true;
    let mut right_ok = true;
    let mut up_ok = true;
    let mut down_ok = true;

    let mut i: usize = 0;
    while i < walls.len()
        invariant
            0 <= i <= walls.len(),
            walls_wf(walls@),
            prect@.wf(),
            ws == rects_of(walls@),
            left_ok <==> (forall|j: int|
                0 <= j < i ==> classify(#[trigger] ws[j], prect@) != Some(Side::Left)),
            right_ok <==> (forall|j: int|
                0 <= j < i ==> classify(#[trigger] ws[j], prect@) != Some(Side::Right)),
            up_ok <==> (forall|j: int|
                0 <= j < i ==> classify(#[trigger] ws[j], prect@) != Some(Side::Top)),
            down_ok <==> (forall|j: int|
                0 <= j < i ==> classify(#[trigger] ws[j], prect@) != Some(Side::Bottom)),
        decreases walls.len() - i,
    {
        let hit = overlap(&walls[i].rect, &prect);
        proof {
            assert(ws[i as int] == walls@[i as int]@);
        }
        match hit {
            Some(Side::Left) => {
                left_ok = false;
            },
            Some(Side::Right) => {
                right_ok = false;
            },
            Some(Side::Top) => {
                up_ok = false;
            },
            Some(Side::Bottom) => {
                down_ok = false;
            },
            Some(Side::Inside) => {},
            None => {},
        }
        i = i + 1;
    }

    let d: i64 = speed / rate;
    let mut dx: i64 = 0;
    let mut dy: i64 = 0;
    if input.left && left_ok {
        dx = dx - d;
    }
    if input.right && right_ok {
        dx = dx + d;
    }
    if input.up && up_ok {
        dy = dy + d;
    }
    if input.down && down_ok {
        dy = dy - d;
    }

    player.rect = Rect { x: prect.x + dx, y: prect.y + dy, w: prect.w, h: prect.h };
}

/// While a positive gap still separates the player from a dividing wall set
/// on its right, moving rightward by no more than the gap changes no
/// permission flag: every flag stays up until the rectangles actually
/// penetrate.
pub proof fn lemma_gap_keeps_permissions(walls: Seq<RectShape>, p: RectShape, q: RectShape)
    requires
        q.y == p.y,
        q.w == p.w,
        q.h == p.h,
        p.x <= q.x,
        forall|i: int| 0 <= i < walls.len() ==> q.right2() <= (#[trigger] walls[i]).left2(),
    ensures
        forall|s: Side| may_move(walls, p, s),
        forall|s: Side| may_move(walls, q, s),
        forall|s: Side| may_move(walls, q, s) == may_move(walls, p, s),
{
    assert forall|s: Side| may_move(walls, p, s) by {
        assert forall|i: int| 0 <= i < walls.len() implies classify(
            #[trigger] walls[i],
            p,
        ) != Some(s) by {
            crate::geometry::lemma_disjoint_axis_no_overlap(walls[i], p);
        }
    }
    assert forall|s: Side| may_move(walls, q, s) by {
        assert forall|i: int| 0 <= i < walls.len() implies classify(
            #[trigger] walls[i],
            q,
        ) != Some(s) by {
            crate::geometry::lemma_disjoint_axis_no_overlap(walls[i], q);
        }
    }
}

} // verus!
