use breakout::game::GameState;
use breakout::geom::Vec2;
use breakout::render::ColorSel;
use breakout::render::DrawCmd;
use breakout::render::LineKind;
use breakout::render::render_plan;

fn fresh() -> GameState {
    GameState::new(Vec2::xy(80, 30))
}

#[test]
fn initial_plan_draws_everything_in_order() {
    let s = fresh();
    let plan = render_plan(&s);
    assert_eq!(plan.len(), 23);
    assert_eq!(
        plan[0],
        DrawCmd::Rect {
            kind: LineKind::Double,
            color: ColorSel::Terminal,
            position: Vec2::xy(0, 0),
            size: Vec2::xy(105, 30),
        }
    );
    assert_eq!(
        plan[1],
        DrawCmd::Rect {
            kind: LineKind::Rounded,
            color: ColorSel::Xterm(3),
            position: Vec2::xy(5, 25),
            size: Vec2::xy(12, 2),
        }
    );
    for k in 0..20usize {
        assert_eq!(
            plan[2 + k],
            DrawCmd::Rect {
                kind: LineKind::Simple,
                color: ColorSel::Xterm(1),
                position: s.bricks[k].position,
                size: s.bricks[k].size,
            }
        );
    }
    assert_eq!(
        plan[22],
        DrawCmd::Glyph {
            ch: 'o',
            color: ColorSel::Xterm(2),
            bold: true,
            position: Vec2::xy(5, 20),
        }
    );
}

#[test]
fn broken_brick_is_not_drawn() {
    let mut s = fresh();
    s.bricks[0].broken = true;
    let plan = render_plan(&s);
    assert_eq!(plan.len(), 22);
    for cmd in &plan {
        if let DrawCmd::Rect { kind: LineKind::Simple, position, .. } = cmd {
            assert_ne!(*position, Vec2::xy(5, 5));
        }
    }
    // The remaining bricks still appear, in order.
    assert_eq!(
        plan[2],
        DrawCmd::Rect {
            kind: LineKind::Simple,
            color: ColorSel::Xterm(1),
            position: Vec2::xy(25, 5),
            size: Vec2::xy(15, 2),
        }
    );
}

#[test]
fn plan_tracks_the_moving_ball() {
    let mut s = fresh();
    s.update();
    let plan = render_plan(&s);
    assert_eq!(
        plan[plan.len() - 1],
        DrawCmd::Glyph {
            ch: 'o',
            color: ColorSel::Xterm(2),
            bold: true,
            position: Vec2::xy(6, 19),
        }
    );
}
