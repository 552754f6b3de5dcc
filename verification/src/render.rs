//! Render planning: the exact, ordered list of drawing commands for one
//! frame. The commands are plain values; the unverified driver forwards each
//! one to the terminal framework's drawing surface.

use vstd::prelude::*;

use crate::game::Brick;
use crate::game::GameState;
use crate::geom::Vec2;

verus! {

/// Which line charset an outline rectangle is drawn with.
#[derive(Clone, Copy, PartialEq, Eq, Structural, Debug)]
pub enum LineKind {
    /// Double lines — the playfield border.
    Double,
    /// Rounded simple lines — the paddle.
    Rounded,
    /// Plain simple lines — the bricks.
    Simple,
}

/// The foreground colour a command is drawn with.
#[derive(Clone, Copy, PartialEq, Eq, Structural, Debug)]
pub enum ColorSel {
    /// The drawing surface's starting foreground colour.
    Terminal,
    /// An indexed xterm palette colour.
    Xterm(u8),
}

/// One drawing command of a frame.
#[derive(Clone, Copy, PartialEq, Eq, Structural, Debug)]
pub enum DrawCmd {
    /// An axis-aligned rectangle outline.
    Rect { kind: LineKind, color: ColorSel, position: Vec2, size: Vec2 },
    /// A single character, optionally bold.
    Glyph { ch: char, color: ColorSel, bold: bool, position: Vec2 },
}

/// The playfield border: a double-line rectangle at the origin spanning the
/// full dimensions.
pub open spec fn border_cmd(g: GameState) -> DrawCmd {
    DrawCmd::Rect {
        kind: LineKind::Double,
        color: ColorSel::Terminal,
        position: Vec2 { x: 0, y: 0 },
        size: g.dimensions,
    }
}

/// The paddle: a rounded-line rectangle in palette colour 3.
pub open spec fn paddle_cmd(g: GameState) -> DrawCmd {
    DrawCmd::Rect {
        kind: LineKind::Rounded,
        color: ColorSel::Xterm(3),
        position: g.paddle_position,
        size: g.paddle_size,
    }
}

/// One unbroken brick: a simple-line rectangle in palette colour 1.
pub open spec fn brick_cmd(b: Brick) -> DrawCmd {
    DrawCmd::Rect {
        kind: LineKind::Simple,
        color: ColorSel::Xterm(1),
        position: b.position,
        size: b.size,
    }
}

/// The ball: a bold 'o' in palette colour 2 at the ball's position.
pub open spec fn ball_cmd(g: GameState) -> DrawCmd {
    DrawCmd::Glyph {
        ch: 'o',
        color: ColorSel::Xterm(2),
        bold: true,
        position: g.ball_position,
    }
}

/// The commands for the brick sequence, in order: one rectangle per unbroken
/// brick, and nothing at all for a broken one.
pub open spec fn brick_cmds(bs: Seq<Brick>) -> Seq<DrawCmd>
    decreases bs.len(),
{
    if bs.len() == 0 {
        Seq::empty()
    } else {
        brick_cmds(bs.drop_last()) + (if !bs.last().broken {
            seq![brick_cmd(bs.last())]
        } else {
            Seq::empty()
        })
    }
}

/// The full draw order of one frame: border, paddle, the unbroken bricks in
/// sequence order, then the ball on top.
pub open spec fn plan_spec(g: GameState) -> Seq<DrawCmd> {
    seq![border_cmd(g), paddle_cmd(g)] + brick_cmds(g.bricks@) + seq![ball_cmd(g)]
}

/// One more brick appends its command exactly when it is unbroken.
proof fn lemma_brick_cmds_step(bs: Seq<Brick>, k: int)
    requires
        0 <= k < bs.len(),
    ensures
        brick_cmds(bs.take(k + 1)) == brick_cmds(bs.take(k)) + (if !bs[k].broken {
            seq![brick_cmd(bs[k])]
        } else {
            Seq::<DrawCmd>::empty()
        }),
{
    let t = bs.take(k + 1);
    assert(t.drop_last() =~= bs.take(k));
    assert(t.last() == bs[k]);
}

/// Computes the frame's drawing commands in draw order: the border, the
/// paddle, every brick that is not broken, and the ball.
pub fn render_plan(g: &GameState) -> (plan: Vec<DrawCmd>)
    ensures
        plan@ == plan_spec(*g),
{
    let mut plan: Vec<DrawCmd> = Vec::new();
    plan.push(DrawCmd::Rect {
        kind: LineKind::Double,
        color: ColorSel::Terminal,
        position: Vec2::xy(0, 0),
        size: g.dimensions,
    });
    plan.push(DrawCmd::Rect {
        kind: LineKind::Rounded,
        color: ColorSel::Xterm(3),
        position: g.paddle_position,
        size: g.paddle_size,
    });
    let mut k: usize = 0;
    while k < g.bricks.len()
        invariant
            0 <= k <= g.bricks@.len(),
            plan@ == seq![border_cmd(*g), paddle_cmd(*g)] + brick_cmds(g.bricks@.take(k as int)),
        decreases g.bricks@.len() - k,
    {
        let b = g.bricks[k];
        proof {
            lemma_brick_cmds_step(g.bricks@, k as int);
        }
        if !b.broken {
            plan.push(DrawCmd::Rect {
                kind: LineKind::Simple,
                color: ColorSel::Xterm(1),
                position: b.position,
                size: b.size,
            });
        }
        proof {
            assert(plan@ =~= seq![border_cmd(*g), paddle_cmd(*g)] + brick_cmds(
                g.bricks@.take(k as int + 1),
            ));
        }
        k = k + 1;
    }
    plan.push(DrawCmd::Glyph {
        ch: 'o',
        color: ColorSel::Xterm(2),
        bold: true,
        position: g.ball_position,
    });
    proof {
        assert(g.bricks@.take(g.bricks@.len() as int) =~= g.bricks@);
        assert(plan@ =~= plan_spec(*g));
    }
    plan
}

} // verus!
