//! The general laws of the game, stated and proved over the spec functions
//! that the executable functions' contracts use.

use vstd::arithmetic::div_mod::lemma_fundamental_div_mod;
use vstd::prelude::*;

use crate::game::BRICK_COUNT;
use crate::game::Brick;
use crate::game::GameState;
use crate::game::bricks_after;
use crate::game::clamped_paddle_x;
use crate::game::flip_times;
use crate::game::hit_count;
use crate::game::vx_after;
use crate::game::vy_after;
use crate::geom::in_cell;
use crate::geom::in_rect;
use crate::render::DrawCmd;
use crate::render::ball_cmd;
use crate::render::border_cmd;
use crate::render::brick_cmd;
use crate::render::brick_cmds;
use crate::render::paddle_cmd;
use crate::render::plan_spec;

verus! {

/// In a well-formed state, each component of the ball's velocity is +1 or
/// -1, so every tick moves the ball by exactly one cell on each axis.
pub proof fn lemma_velocity_components_unit(g: GameState)
    requires
        g.wf(),
    ensures
        g.ball_speed.x == 1 || g.ball_speed.x == -1,
        g.ball_speed.y == 1 || g.ball_speed.y == -1,
{
}

/// Whatever the paddle's x coordinate before a tick, after the tick's clamp
/// it lies in [1, dim - pw - 1].
pub proof fn lemma_paddle_clamped_range(px: int, pw: int, dim: int)
    requires
        dim - pw - 1 >= 1,
    ensures
        1 <= clamped_paddle_x(px, pw, dim) <= dim - pw - 1,
{
}

/// In a well-formed state, no point lies inside two distinct bricks' cell
/// areas: the grid's bricks occupy disjoint cells. (The half-open cell sense
/// is the strongest that holds: the inclusive collision rectangles of
/// vertically adjacent bricks share their boundary row of cells.)
pub proof fn lemma_bricks_nonoverlapping(g: GameState, a: int, b: int, x: int, y: int)
    requires
        g.wf(),
        0 <= a < BRICK_COUNT,
        0 <= b < BRICK_COUNT,
        a != b,
        in_cell(
            x,
            y,
            g.bricks@[a].position.x as int,
            g.bricks@[a].position.y as int,
            g.bricks@[a].size.x as int,
            g.bricks@[a].size.y as int,
        ),
    ensures
        !in_cell(
            x,
            y,
            g.bricks@[b].position.x as int,
            g.bricks@[b].position.y as int,
            g.bricks@[b].size.x as int,
            g.bricks@[b].size.y as int,
        ),
{
    lemma_fundamental_div_mod(a, 5);
    lemma_fundamental_div_mod(b, 5);
    let ja = a % 5;
    let jb = b % 5;
    let ia = a / 5;
    let ib = b / 5;
    assert(ja != jb || ia != ib);
    assert(ja < jb ==> 5 + 20 * ja + 15 <= 5 + 20 * jb) by (nonlinear_arith);
    assert(jb < ja ==> 5 + 20 * jb + 15 <= 5 + 20 * ja) by (nonlinear_arith);
    assert(ia < ib ==> 5 + 2 * ia + 2 <= 5 + 2 * ib) by (nonlinear_arith);
    assert(ib < ia ==> 5 + 2 * ib + 2 <= 5 + 2 * ia) by (nonlinear_arith);
}

/// A brick that is broken before a tick's collision pass is still broken
/// after it — and no brick ever moves or changes size.
pub proof fn lemma_broken_bricks_stay_broken(bs: Seq<Brick>, bx: int, by: int)
    ensures
        bricks_after(bs, bx, by).len() == bs.len(),
        forall|k: int|
            0 <= k < bs.len() && bs[k].broken ==> (#[trigger] bricks_after(bs, bx, by)[k]).broken,
        forall|k: int|
            0 <= k < bs.len() ==> (#[trigger] bricks_after(bs, bx, by)[k]).position == bs[k].position
                && bricks_after(bs, bx, by)[k].size == bs[k].size,
{
}

/// Every brick command of a render plan depicts an unbroken brick of the
/// sequence it was planned from.
pub proof fn lemma_drawn_bricks_are_unbroken(bs: Seq<Brick>)
    ensures
        forall|c: DrawCmd|
            brick_cmds(bs).contains(c) ==> exists|k: int|
                0 <= k < bs.len() && !bs[k].broken && c == brick_cmd(#[trigger] bs[k]),
    decreases bs.len(),
{
    if bs.len() == 0 {
    } else {
        let dl = bs.drop_last();
        lemma_drawn_bricks_are_unbroken(dl);
        assert forall|c: DrawCmd| brick_cmds(bs).contains(c) implies exists|k: int|
            0 <= k < bs.len() && !bs[k].broken && c == brick_cmd(#[trigger] bs[k]) by {
            let cs = brick_cmds(bs);
            let i = choose|i: int| 0 <= i < cs.len() && cs[i] == c;
            if i < brick_cmds(dl).len() {
                assert(brick_cmds(dl).contains(c));
                let k = choose|k: int|
                    0 <= k < dl.len() && !dl[k].broken && c == brick_cmd(#[trigger] dl[k]);
                assert(bs[k] == dl[k]);
                assert(0 <= k < bs.len() && !bs[k].broken && c == brick_cmd(bs[k]));
            } else {
                assert(!bs.last().broken && c == brick_cmd(bs.last()));
                let k = bs.len() - 1;
                assert(0 <= k < bs.len() && !bs[k].broken && c == brick_cmd(bs[k]));
            }
        }
    }
}

/// Once a brick of a well-formed state is broken, no frame's render plan
/// holds its rectangle any more: a broken brick is never drawn again.
pub proof fn lemma_broken_brick_never_drawn(g: GameState, k: int)
    requires
        g.wf(),
        0 <= k < BRICK_COUNT,
        g.bricks@[k].broken,
    ensures
        !plan_spec(g).contains(brick_cmd(g.bricks@[k])),
{
    let c = brick_cmd(g.bricks@[k]);
    if plan_spec(g).contains(c) {
        let plan = plan_spec(g);
        let i = choose|i: int| 0 <= i < plan.len() && plan[i] == c;
        assert(c != border_cmd(g) && c != paddle_cmd(g) && c != ball_cmd(g));
        let head = seq![border_cmd(g), paddle_cmd(g)];
        if i < 2 {
            assert(plan[i] == head[i]);
            assert(false);
        } else if i < 2 + brick_cmds(g.bricks@).len() {
            assert(plan[i] == brick_cmds(g.bricks@)[i - 2]);
            assert(brick_cmds(g.bricks@).contains(c));
            lemma_drawn_bricks_are_unbroken(g.bricks@);
            let j = choose|j: int|
                0 <= j < g.bricks@.len() && !g.bricks@[j].broken && c == brick_cmd(
                    #[trigger] g.bricks@[j],
                );
            assert(j != k);
            assert(g.bricks@[j].position == g.bricks@[k].position);
            let px = g.bricks@[k].position.x as int;
            let py = g.bricks@[k].position.y as int;
            assert(in_cell(
                px,
                py,
                px,
                py,
                g.bricks@[k].size.x as int,
                g.bricks@[k].size.y as int,
            ));
            lemma_bricks_nonoverlapping(g, k, j, px, py);
            assert(false);
        } else {
            assert(plan[i] == ball_cmd(g));
            assert(false);
        }
    }
}

/// Flipping m times and then n more times is flipping m + n times.
pub proof fn lemma_flip_add(v: int, m: nat, n: nat)
    ensures
        flip_times(flip_times(v, m), n) == flip_times(v, m + n),
{
    assert((m % 2 == 0 && n % 2 == 0) ==> (m + n) % 2 == 0) by (nonlinear_arith);
    assert((m % 2 == 0 && n % 2 == 1) ==> (m + n) % 2 == 1) by (nonlinear_arith);
    assert((m % 2 == 1 && n % 2 == 0) ==> (m + n) % 2 == 1) by (nonlinear_arith);
    assert((m % 2 == 1 && n % 2 == 1) ==> (m + n) % 2 == 0) by (nonlinear_arith);
    assert(m % 2 == 0 || m % 2 == 1) by (nonlinear_arith);
    assert(n % 2 == 0 || n % 2 == 1) by (nonlinear_arith);
}

/// A tick's vertical velocity flips once per qualifying collision: once if
/// the ball reached the top wall, once per freshly hit brick, and once on
/// paddle contact — the net sign is the parity of that total.
pub proof fn lemma_vertical_flip_parity(
    vy: int,
    bx: int,
    by: int,
    bs: Seq<Brick>,
    ppx: int,
    ppy: int,
    pw: int,
    ph: int,
)
    ensures
        vy_after(vy, bx, by, bs, ppx, ppy, pw, ph) == flip_times(
            vy,
            (if by <= 1 {
                1nat
            } else {
                0nat
            }) + hit_count(bs, bx, by) + (if in_rect(bx, by, ppx, ppy, pw, ph) {
                1nat
            } else {
                0nat
            }),
        ),
{
    let w: nat = if by <= 1 {
        1nat
    } else {
        0nat
    };
    let h: nat = hit_count(bs, bx, by);
    let p: nat = if in_rect(bx, by, ppx, ppy, pw, ph) {
        1nat
    } else {
        0nat
    };
    assert(flip_times(vy, w) == (if by <= 1 {
        -vy
    } else {
        vy
    }));
    lemma_flip_add(vy, w, h);
    lemma_flip_add(vy, w + h, p);
    assert(flip_times(flip_times(vy, w + h), p) == (if in_rect(bx, by, ppx, ppy, pw, ph) {
        -flip_times(vy, w + h)
    } else {
        flip_times(vy, w + h)
    }));
}

/// With exactly one qualifying collision in a tick — the top wall, the
/// paddle, or exactly one freshly hit brick — the vertical velocity's sign
/// flips exactly once.
pub proof fn lemma_single_collision_flips_once(
    vy: int,
    bx: int,
    by: int,
    bs: Seq<Brick>,
    ppx: int,
    ppy: int,
    pw: int,
    ph: int,
)
    requires
        (if by <= 1 {
            1nat
        } else {
            0nat
        }) + hit_count(bs, bx, by) + (if in_rect(bx, by, ppx, ppy, pw, ph) {
            1nat
        } else {
            0nat
        }) == 1,
    ensures
        vy_after(vy, bx, by, bs, ppx, ppy, pw, ph) == -vy,
{
    lemma_vertical_flip_parity(vy, bx, by, bs, ppx, ppy, pw, ph);
}

/// The horizontal velocity flips once per side-wall contact, and depends on
/// nothing but the ball's x coordinate and the playfield width — vertical
/// collisions never touch it.
pub proof fn lemma_horizontal_flip_parity(vx: int, bx: int, dim: int)
    ensures
        vx_after(vx, bx, dim) == flip_times(
            vx,
            (if bx >= dim {
                1nat
            } else {
                0nat
            }) + (if bx <= 1 {
                1nat
            } else {
                0nat
            }),
        ),
{
    let r: nat = if bx >= dim {
        1nat
    } else {
        0nat
    };
    let l: nat = if bx <= 1 {
        1nat
    } else {
        0nat
    };
    lemma_flip_add(vx, r, l);
    assert(flip_times(vx, r) == (if bx >= dim {
        -vx
    } else {
        vx
    }));
    assert(flip_times(flip_times(vx, r), l) == (if bx <= 1 {
        -flip_times(vx, r)
    } else {
        flip_times(vx, r)
    }));
}

} // verus!
