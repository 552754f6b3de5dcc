//! Game state and deterministic integer-grid physics: construction of the
//! playfield, the per-tick update, paddle input, and the loss condition.

use vstd::prelude::*;

use crate::geom::Vec2;
use crate::geom::in_rect;

verus! {

/// Paddle width in cells.
pub const PADDLE_WIDTH: i32 = 12;
/// Paddle height in cells.
pub const PADDLE_HEIGHT: i32 = 2;
/// Brick width in cells.
pub const BRICK_WIDTH: i32 = 15;
/// Brick height in cells.
pub const BRICK_HEIGHT: i32 = 2;
/// Horizontal gap between brick columns, and the grid's offset from the
/// playfield's top-left corner on both axes.
pub const BRICK_GAP: i32 = 5;
/// Number of brick rows.
pub const BRICK_ROWS: i32 = 4;
/// Number of brick columns.
pub const BRICK_COLS: i32 = 5;
/// Total brick count: BRICK_ROWS * BRICK_COLS.
pub const BRICK_COUNT: usize = 20;
/// Playfield width: 5 + (BRICK_WIDTH + BRICK_GAP) * BRICK_COLS.
pub const PLAYFIELD_WIDTH: i32 = 105;

/// One brick: a fixed rectangle that can be broken at most once.
#[derive(Clone, Copy, PartialEq, Eq, Structural, Debug)]
pub struct Brick {
    /// Top-left corner.
    pub position: Vec2,
    /// Width and height.
    pub size: Vec2,
    /// False while the brick is visible and collidable; true once removed.
    pub broken: bool,
}

/// The whole mutable simulation state.
pub struct GameState {
    /// Playfield width and height in cells, fixed at construction.
    pub dimensions: Vec2,
    /// Paddle top-left corner.
    pub paddle_position: Vec2,
    /// Paddle width and height, fixed at construction.
    pub paddle_size: Vec2,
    /// Ball position.
    pub ball_position: Vec2,
    /// Ball velocity; each component stays in {-1, +1}.
    pub ball_speed: Vec2,
    /// The brick grid, in row-major order; bricks are only ever broken.
    pub bricks: Vec<Brick>,
}

/// The x coordinate of the brick in column j (columns run left to right).
pub open spec fn grid_x(j: int) -> int {
    BRICK_GAP + (BRICK_WIDTH + BRICK_GAP) * j
}

/// The y coordinate of the brick in row i (rows run top to bottom). Rows are
/// stacked directly on each other, so the inclusive collision rectangles of
/// vertically adjacent bricks share their boundary row of cells.
pub open spec fn grid_y(i: int) -> int {
    BRICK_GAP + BRICK_HEIGHT * i
}

/// The brick at index k of the row-major grid sits in column k % 5, row k / 5.
pub open spec fn brick_in_place(b: Brick, k: int) -> bool {
    &&& b.position.x == grid_x(k % (BRICK_COLS as int))
    &&& b.position.y == grid_y(k / (BRICK_COLS as int))
    &&& b.size.x == BRICK_WIDTH
    &&& b.size.y == BRICK_HEIGHT
}

/// Whether the ball at (bx, by) hits brick b: the brick is still unbroken and
/// the ball's position lies inside the brick's rectangle, edges included.
pub open spec fn brick_hit(b: Brick, bx: int, by: int) -> bool {
    &&& !b.broken
    &&& in_rect(bx, by, b.position.x as int, b.position.y as int, b.size.x as int, b.size.y as int)
}

/// How many bricks of the sequence the ball at (bx, by) freshly hits.
pub open spec fn hit_count(bs: Seq<Brick>, bx: int, by: int) -> nat
    decreases bs.len(),
{
    if bs.len() == 0 {
        0
    } else {
        hit_count(bs.drop_last(), bx, by) + if brick_hit(bs.last(), bx, by) {
            1nat
        } else {
            0nat
        }
    }
}

/// The velocity component v after n sign flips: negated when n is odd.
pub open spec fn flip_times(v: int, n: nat) -> int {
    if n % 2 == 1 {
        -v
    } else {
        v
    }
}

/// Brick b after the collision pass for a ball at (bx, by): broken as soon as
/// the ball's position lies in its rectangle; position and size never change.
pub open spec fn brick_after(b: Brick, bx: int, by: int) -> Brick {
    Brick {
        position: b.position,
        size: b.size,
        broken: b.broken || in_rect(
            bx,
            by,
            b.position.x as int,
            b.position.y as int,
            b.size.x as int,
            b.size.y as int,
        ),
    }
}

/// The whole brick sequence after the collision pass for a ball at (bx, by).
pub open spec fn bricks_after(bs: Seq<Brick>, bx: int, by: int) -> Seq<Brick> {
    bs.map(|k: int, b: Brick| brick_after(b, bx, by))
}

/// The paddle's x coordinate after the two clamp checks of a tick: first snap
/// the right edge back to dim - 1 if it reached it, then snap the left edge
/// to 1 if it is at or past it; the left clamp runs second and so wins.
pub open spec fn clamped_paddle_x(px: int, pw: int, dim: int) -> int {
    let snapped = if px + pw >= dim - 1 {
        dim - pw - 1
    } else {
        px
    };
    if snapped <= 1 {
        1
    } else {
        snapped
    }
}

/// The horizontal velocity after the wall checks for a ball at x = bx: the
/// sign flips at the right wall (bx >= dim) and at the left wall (bx <= 1),
/// each check running independently.
pub open spec fn vx_after(vx: int, bx: int, dim: int) -> int {
    let v1 = if bx >= dim {
        -vx
    } else {
        vx
    };
    if bx <= 1 {
        -v1
    } else {
        v1
    }
}

/// The vertical velocity after a tick's collision checks for a ball at
/// (bx, by): one flip at the top wall (by <= 1), one flip per freshly hit
/// brick, and one flip on paddle contact, in that order. The paddle rectangle
/// has top-left corner (ppx, ppy) and size (pw, ph), with ppx already
/// clamped.
pub open spec fn vy_after(
    vy: int,
    bx: int,
    by: int,
    bs: Seq<Brick>,
    ppx: int,
    ppy: int,
    pw: int,
    ph: int,
) -> int {
    let v1 = if by <= 1 {
        -vy
    } else {
        vy
    };
    let v2 = flip_times(v1, hit_count(bs, bx, by));
    if in_rect(bx, by, ppx, ppy, pw, ph) {
        -v2
    } else {
        v2
    }
}

/// One more brick in the collision pass adds its own hit, if any, to the
/// count over the prefix.
proof fn lemma_hit_count_step(bs: Seq<Brick>, bx: int, by: int, k: int)
    requires
        0 <= k < bs.len(),
    ensures
        hit_count(bs.take(k + 1), bx, by) == hit_count(bs.take(k), bx, by) + (if brick_hit(
            bs[k],
            bx,
            by,
        ) {
            1nat
        } else {
            0nat
        }),
{
    let t = bs.take(k + 1);
    assert(t.drop_last() =~= bs.take(k));
    assert(t.last() == bs[k]);
}

/// One more flip negates the result of flipping n times.
proof fn lemma_flip_once_more(v: int, n: nat)
    ensures
        flip_times(v, n + 1) == -flip_times(v, n),
{
    assert((n + 1) % 2 != n % 2) by (nonlinear_arith);
}

impl GameState {
    /// Well-formedness: everything that construction fixes once and every
    /// later mutation preserves — dimensions, paddle size and row, unit
    /// velocity components, and the brick grid layout.
    pub open spec fn wf(self) -> bool {
        &&& self.dimensions.x == PLAYFIELD_WIDTH
        &&& self.paddle_size.x == PADDLE_WIDTH
        &&& self.paddle_size.y == PADDLE_HEIGHT
        &&& self.paddle_position.y == self.dimensions.y - 5
        &&& (self.ball_speed.x == 1 || self.ball_speed.x == -1)
        &&& (self.ball_speed.y == 1 || self.ball_speed.y == -1)
        &&& self.bricks@.len() == BRICK_COUNT
        &&& forall|k: int|
            0 <= k < BRICK_COUNT ==> brick_in_place(#[trigger] self.bricks@[k], k)
    }

    /// Builds the starting state from the terminal window size: a 105-cell
    /// wide playfield as tall as the window, the paddle near the bottom, the
    /// ball five cells above the paddle moving up-right, and a fresh 4-by-5
    /// grid of bricks.
    pub fn new(win_size: Vec2) -> (s: GameState)
        requires
            win_size.y >= i32::MIN + 10,
        ensures
            s.wf(),
            s.dimensions.x == PLAYFIELD_WIDTH,
            s.dimensions.y == win_size.y,
            s.paddle_position.x == 5,
            s.paddle_position.y == win_size.y - 5,
            s.paddle_size.x == PADDLE_WIDTH,
            s.paddle_size.y == PADDLE_HEIGHT,
            s.ball_position.x == 5,
            s.ball_position.y == win_size.y - 10,
            s.ball_speed.x == 1,
            s.ball_speed.y == -1,
            forall|k: int| 0 <= k < BRICK_COUNT ==> !(#[trigger] s.bricks@[k]).broken,
    {
        let dimensions = Vec2::xy(5 + (BRICK_WIDTH + BRICK_GAP) * BRICK_COLS, win_size.y);

        let paddle_position = Vec2::xy(5, win_size.y - 5);
        let paddle_size = Vec2::xy(PADDLE_WIDTH, PADDLE_HEIGHT);

        let ball_position = Vec2::xy(paddle_position.x, paddle_position.y - 5);
        let ball_speed = Vec2::xy(1, -1);

        let mut bricks: Vec<Brick> = Vec::new();
        let mut k: usize = 0;
        while k < BRICK_COUNT
            invariant
                0 <= k <= BRICK_COUNT,
                bricks@.len() == k,
                forall|m: int|
                    0 <= m < k ==> brick_in_place(#[trigger] bricks@[m], m) && !bricks@[m].broken,
            decreases BRICK_COUNT - k,
        {
            let col: i32 = (k as i32) % BRICK_COLS;
            let row: i32 = (k as i32) / BRICK_COLS;
            assert(0 <= col < 5 && 0 <= row < 4) by (nonlinear_arith)
                requires col == (k as i32) % 5 && row == (k as i32) / 5 && 0 <= (k as i32) < 20;
            assert(0 <= (BRICK_WIDTH + BRICK_GAP) * col <= 80) by (nonlinear_arith)
                requires 0 <= col < 5 && BRICK_WIDTH == 15 && BRICK_GAP == 5;
            assert(0 <= BRICK_HEIGHT * row <= 6) by (nonlinear_arith)
                requires 0 <= row < 4 && BRICK_HEIGHT == 2;
            bricks.push(Brick {
                position: Vec2::xy(
                    BRICK_GAP + (BRICK_WIDTH + BRICK_GAP) * col,
                    BRICK_GAP + BRICK_HEIGHT * row,
                ),
                size: Vec2::xy(BRICK_WIDTH, BRICK_HEIGHT),
                broken: false,
            });
            k = k + 1;
        }

        GameState { dimensions, paddle_position, paddle_size, ball_position, ball_speed, bricks }
    }

    /// Advances the simulation by one tick, in this exact order: move the
    /// ball by its velocity, clamp the paddle into the playfield, bounce off
    /// the side walls and the top wall, break every freshly hit brick
    /// (flipping the vertical velocity once per hit), and finally bounce off
    /// the paddle. There is no bottom wall: falling past the bottom is the
    /// loss condition, checked by the driver through `ball_lost`.
    pub fn update(&mut self)
        requires
            old(self).wf(),
            i32::MIN < old(self).ball_position.x < i32::MAX,
            i32::MIN < old(self).ball_position.y < i32::MAX,
            old(self).paddle_position.x + old(self).paddle_size.x <= i32::MAX,
        ensures
            final(self).wf(),
            final(self).dimensions == old(self).dimensions,
            final(self).paddle_size == old(self).paddle_size,
            final(self).paddle_position.y == old(self).paddle_position.y,
            final(self).ball_position.x == old(self).ball_position.x + old(self).ball_speed.x,
            final(self).ball_position.y == old(self).ball_position.y + old(self).ball_speed.y,
            final(self).paddle_position.x == clamped_paddle_x(
                old(self).paddle_position.x as int,
                old(self).paddle_size.x as int,
                old(self).dimensions.x as int,
            ),
            1 <= final(self).paddle_position.x <= old(self).dimensions.x - old(
                self,
            ).paddle_size.x - 1,
            ({
                let bx = old(self).ball_position.x + old(self).ball_speed.x;
                let by = old(self).ball_position.y + old(self).ball_speed.y;
                &&& final(self).ball_speed.x == vx_after(
                    old(self).ball_speed.x as int,
                    bx,
                    old(self).dimensions.x as int,
                )
                &&& final(self).ball_speed.y == vy_after(
                    old(self).ball_speed.y as int,
                    bx,
                    by,
                    old(self).bricks@,
                    clamped_paddle_x(
                        old(self).paddle_position.x as int,
                        old(self).paddle_size.x as int,
                        old(self).dimensions.x as int,
                    ),
                    old(self).paddle_position.y as int,
                    old(self).paddle_size.x as int,
                    old(self).paddle_size.y as int,
                )
                &&& final(self).bricks@ == bricks_after(old(self).bricks@, bx, by)
            }),
    {
        let ghost g0 = *self;
        let ghost bx: int = g0.ball_position.x + g0.ball_speed.x;
        let ghost by: int = g0.ball_position.y + g0.ball_speed.y;

        self.ball_position.x = self.ball_position.x + self.ball_speed.x;
        self.ball_position.y = self.ball_position.y + self.ball_speed.y;

        // Keep the paddle in bounds
        if self.paddle_position.x + self.paddle_size.x >= self.dimensions.x - 1 {
            self.paddle_position.x = self.dimensions.x - self.paddle_size.x - 1;
        }
        if self.paddle_position.x <= 1 {
            self.paddle_position.x = 1;
        }

        // Keep the ball in bounds
        if self.ball_position.x >= self.dimensions.x {
            self.ball_speed.x = -self.ball_speed.x;
        }
        if self.ball_position.x <= 1 {
            self.ball_speed.x = -self.ball_speed.x;
        }
        if self.ball_position.y <= 1 {
            self.ball_speed.y = -self.ball_speed.y;
        }

        let ghost bricks0 = g0.bricks@;
        let ghost vy1: int = if by <= 1 {
            -(g0.ball_speed.y as int)
        } else {
            g0.ball_speed.y as int
        };
        let ghost vx2: i32 = self.ball_speed.x;
        let ghost paddle1 = self.paddle_position;

        // Ball and brick collisions
        let mut k: usize = 0;
        while k < BRICK_COUNT
            invariant
                0 <= k <= BRICK_COUNT,
                self.bricks@.len() == BRICK_COUNT,
                bricks0.len() == BRICK_COUNT,
                forall|m: int| 0 <= m < BRICK_COUNT ==> brick_in_place(#[trigger] bricks0[m], m),
                forall|m: int| k <= m < BRICK_COUNT ==> self.bricks@[m] == bricks0[m],
                forall|m: int|
                    0 <= m < k ==> self.bricks@[m] == brick_after(#[trigger] bricks0[m], bx, by),
                self.ball_position.x == bx,
                self.ball_position.y == by,
                self.ball_speed.x == vx2,
                self.paddle_position == paddle1,
                self.paddle_size == g0.paddle_size,
                self.dimensions == g0.dimensions,
                vy1 == 1 || vy1 == -1,
                self.ball_speed.y == flip_times(vy1, hit_count(bricks0.take(k as int), bx, by)),
                self.ball_speed.y == 1 || self.ball_speed.y == -1,
            decreases BRICK_COUNT - k,
        {
            let b = self.bricks[k];
            proof {
                lemma_hit_count_step(bricks0, bx, by, k as int);
            }
            if !b.broken && self.ball_position.x >= b.position.x && self.ball_position.x
                <= b.position.x + b.size.x && self.ball_position.y >= b.position.y
                && self.ball_position.y <= b.position.y + b.size.y {
                self.bricks[k] = Brick { position: b.position, size: b.size, broken: true };
                proof {
                    lemma_flip_once_more(vy1, hit_count(bricks0.take(k as int), bx, by));
                }
                self.ball_speed.y = -self.ball_speed.y;
            }
            k = k + 1;
        }
        proof {
            assert(bricks0.take(BRICK_COUNT as int) =~= bricks0);
            assert forall|m: int| 0 <= m < BRICK_COUNT implies bricks_after(bricks0, bx, by)[m]
                == brick_after(bricks0[m], bx, by) by {}
            assert(self.bricks@ =~= bricks_after(bricks0, bx, by));
        }

        // Ball and paddle collision
        if self.ball_position.x >= self.paddle_position.x && self.ball_position.x
            <= self.paddle_position.x + self.paddle_size.x && self.ball_position.y
            >= self.paddle_position.y && self.ball_position.y <= self.paddle_position.y
            + self.paddle_size.y {
            self.ball_speed.y = -self.ball_speed.y;
        }
    }

    /// Moves the paddle one cell left per frame the left key is held and one
    /// cell right per frame the right key is held; both held cancel out.
    /// Nothing else changes, and no clamping happens here: the next tick's
    /// update clamps.
    pub fn move_paddle(&mut self, left: bool, right: bool)
        requires
            left ==> old(self).paddle_position.x > i32::MIN,
            right ==> old(self).paddle_position.x < i32::MAX,
        ensures
            final(self).paddle_position.x == old(self).paddle_position.x - (if left {
                1int
            } else {
                0int
            }) + (if right {
                1int
            } else {
                0int
            }),
            final(self).paddle_position.y == old(self).paddle_position.y,
            final(self).dimensions == old(self).dimensions,
            final(self).paddle_size == old(self).paddle_size,
            final(self).ball_position == old(self).ball_position,
            final(self).ball_speed == old(self).ball_speed,
            final(self).bricks@ == old(self).bricks@,
            old(self).wf() ==> final(self).wf(),
    {
        if left {
            self.paddle_position.x = self.paddle_position.x - 1;
        }
        if right {
            self.paddle_position.x = self.paddle_position.x + 1;
        }
    }

    /// Whether the ball has fallen past the bottom of the playfield — the
    /// sole loss condition, checked by the driver after every frame.
    pub fn ball_lost(&self) -> (lost: bool)
        ensures
            lost == (self.ball_position.y >= self.dimensions.y),
    {
        self.ball_position.y >= self.dimensions.y
    }

    /// Runtime check of the well-formedness invariant, so that unverified
    /// driver code can test it before calling into the physics.
    pub fn is_wf(&self) -> (r: bool)
        ensures
            r == self.wf(),
    {
        if self.dimensions.x != PLAYFIELD_WIDTH {
            return false;
        }
        if self.paddle_size.x != PADDLE_WIDTH || self.paddle_size.y != PADDLE_HEIGHT {
            return false;
        }
        if (self.paddle_position.y as i64) != (self.dimensions.y as i64) - 5 {
            return false;
        }
        if self.ball_speed.x != 1 && self.ball_speed.x != -1 {
            return false;
        }
        if self.ball_speed.y != 1 && self.ball_speed.y != -1 {
            return false;
        }
        if self.bricks.len() != BRICK_COUNT {
            return false;
        }
        let mut k: usize = 0;
        while k < BRICK_COUNT
            invariant
                0 <= k <= BRICK_COUNT,
                self.bricks@.len() == BRICK_COUNT,
                forall|m: int| 0 <= m < k ==> brick_in_place(#[trigger] self.bricks@[m], m),
            decreases BRICK_COUNT - k,
        {
            let b = self.bricks[k];
            let col: i32 = (k as i32) % BRICK_COLS;
            let row: i32 = (k as i32) / BRICK_COLS;
            assert(0 <= col < 5 && 0 <= row < 4) by (nonlinear_arith)
                requires col == (k as i32) % 5 && row == (k as i32) / 5 && 0 <= (k as i32) < 20;
            assert(0 <= (BRICK_WIDTH + BRICK_GAP) * col <= 80) by (nonlinear_arith)
                requires 0 <= col < 5 && BRICK_WIDTH == 15 && BRICK_GAP == 5;
            assert(0 <= BRICK_HEIGHT * row <= 6) by (nonlinear_arith)
                requires 0 <= row < 4 && BRICK_HEIGHT == 2;
            if b.position.x != BRICK_GAP + (BRICK_WIDTH + BRICK_GAP) * col || b.position.y
                != BRICK_GAP + BRICK_HEIGHT * row || b.size.x != BRICK_WIDTH
                || b.size.y != BRICK_HEIGHT {
                return false;
            }
            k = k + 1;
        }
        true
    }
}

/// The distilled keyboard state of one frame: whether the quit key was
/// pressed this frame, and whether the left and right movement keys are
/// currently held down.
#[derive(Clone, Copy, PartialEq, Eq, Structural, Debug)]
pub struct FrameInput {
    /// Edge-triggered: the quit key went down this frame.
    pub quit: bool,
    /// Level-triggered: the move-left key is held.
    pub left: bool,
    /// Level-triggered: the move-right key is held.
    pub right: bool,
}

/// Runs the decisions of one frame of the driver loop: apply the held
/// movement keys to the paddle, advance the physics on every second frame
/// (even step numbers), and report whether the loop must stop — which it
/// must exactly when the quit key was pressed or the ball has fallen past
/// the bottom of the playfield.
pub fn advance_frame(state: &mut GameState, input: &FrameInput, step: u64) -> (stop: bool)
    requires
        old(state).wf(),
        i32::MIN < old(state).ball_position.x < i32::MAX,
        i32::MIN < old(state).ball_position.y < i32::MAX,
        i32::MIN + 1 < old(state).paddle_position.x,
        old(state).paddle_position.x + old(state).paddle_size.x < i32::MAX - 1,
    ensures
        final(state).wf(),
        stop == (input.quit || final(state).ball_position.y >= final(state).dimensions.y),
        input.quit ==> stop,
        final(state).dimensions == old(state).dimensions,
        final(state).paddle_size == old(state).paddle_size,
        final(state).paddle_position.y == old(state).paddle_position.y,
        ({
            let px1 = old(state).paddle_position.x - (if input.left {
                1int
            } else {
                0int
            }) + (if input.right {
                1int
            } else {
                0int
            });
            let ppx = clamped_paddle_x(
                px1,
                old(state).paddle_size.x as int,
                old(state).dimensions.x as int,
            );
            let bx = old(state).ball_position.x + old(state).ball_speed.x;
            let by = old(state).ball_position.y + old(state).ball_speed.y;
            if step % 2 == 0 {
                &&& final(state).ball_position.x == bx
                &&& final(state).ball_position.y == by
                &&& final(state).paddle_position.x == ppx
                &&& final(state).ball_speed.x == vx_after(
                    old(state).ball_speed.x as int,
                    bx,
                    old(state).dimensions.x as int,
                )
                &&& final(state).ball_speed.y == vy_after(
                    old(state).ball_speed.y as int,
                    bx,
                    by,
                    old(state).bricks@,
                    ppx,
                    old(state).paddle_position.y as int,
                    old(state).paddle_size.x as int,
                    old(state).paddle_size.y as int,
                )
                &&& final(state).bricks@ == bricks_after(old(state).bricks@, bx, by)
            } else {
                &&& final(state).ball_position == old(state).ball_position
                &&& final(state).paddle_position.x == px1
                &&& final(state).ball_speed == old(state).ball_speed
                &&& final(state).bricks@ == old(state).bricks@
            }
        }),
{
    state.move_paddle(input.left, input.right);
    if step % 2 == 0 {
        state.update();
    }
    input.quit || state.ball_lost()
}

} // verus!
