use digital_rain::{
    fall_distance, normalize_channel, on_input, total_drops, ColorParseError,
    ColorTheme, Drop, FrameClock, InputEvent, LoopAction, MatrixEngine, Rain, RgbColor, Screen, TermOp,
    TRAIL_STEPS,
};

fn rgb(r: u8, g: u8, b: u8) -> RgbColor {
    RgbColor { r, g, b }
}

const CHARS: [char; 2] = ['0', '1'];

#[test]
fn blend_endpoints_exact() {
    let a = rgb(10, 200, 33);
    let b = rgb(250, 3, 128);
    assert_eq!(RgbColor::blend(a, b, 0, 7), a);
    assert_eq!(RgbColor::blend(a, b, 7, 7), b);
    assert_eq!(RgbColor::blend(a, b, 0, 1), a);
    assert_eq!(RgbColor::blend(a, b, 1, 1), b);
}

#[test]
fn blend_clamps_factor() {
    let a = rgb(10, 20, 30);
    let b = rgb(110, 120, 130);
    assert_eq!(RgbColor::blend(a, b, 5, 2), b);
}

#[test]
fn blend_rounds_to_nearest() {
    // 0 * 0.5 + 255 * 0.5 = 127.5, rounded away from zero
    assert_eq!(RgbColor::blend(rgb(0, 0, 0), rgb(255, 1, 3), 1, 2), rgb(128, 1, 2));
    // 100 * 0.75 + 200 * 0.25 = 125
    assert_eq!(RgbColor::blend(rgb(100, 100, 100), rgb(200, 0, 101), 1, 4), rgb(125, 75, 100));
}

#[test]
fn blend_same_color_is_fixed() {
    let c = rgb(17, 99, 254);
    for k in 0..20u32 {
        assert_eq!(RgbColor::blend(c, c, k, 13), c);
    }
}

#[test]
fn brighten_identity_and_cap() {
    let c = rgb(0, 128, 255);
    assert_eq!(c.brighten(1, 1), c);
    assert_eq!(c.brighten(7, 5), rgb(0, 179, 255));
    assert_eq!(rgb(200, 250, 255).brighten(1000, 1), rgb(255, 255, 255));
    // truncation, not rounding: 3 * 1.5 = 4.5 -> 4
    assert_eq!(rgb(3, 3, 3).brighten(3, 2), rgb(4, 4, 4));
    assert_eq!(rgb(100, 50, 1).brighten(1, 2), rgb(50, 25, 0));
}

#[test]
fn fade_palette_shape() {
    let base = rgb(255, 191, 0);
    let bg = rgb(10, 20, 30);
    let p = MatrixEngine::calculate_trail_colors(base, bg, TRAIL_STEPS);
    assert_eq!(p.len(), 8);
    assert_eq!(p[0], base.brighten(7, 5));
    assert_eq!(p[7], bg);
    assert_eq!(p[1], RgbColor::blend(base, bg, 1, 49));
    assert_eq!(p[3], RgbColor::blend(base, bg, 9, 49));
}

#[test]
fn green_on_black_palette() {
    let p = MatrixEngine::calculate_trail_colors(ColorTheme::Green.to_rgb(), rgb(0, 0, 0), TRAIL_STEPS);
    assert_eq!(p[7], rgb(0, 0, 0));
    assert_eq!(p[0], rgb(0, 255, 0));
    // (2/7)^2 = 4/49: 255 * 45 / 49 = 234.18
    assert_eq!(p[2], rgb(0, 234, 0));
}

#[test]
fn parse_color_literals() {
    assert_eq!(RgbColor::from_str("255,255,255"), Ok(rgb(255, 255, 255)));
    assert_eq!(RgbColor::from_str("0,10,+7"), Ok(rgb(0, 10, 7)));
    assert_eq!(RgbColor::from_str("007,1,2"), Ok(rgb(7, 1, 2)));
    assert_eq!(RgbColor::from_str("1,2"), Err(ColorParseError::Format));
    assert_eq!(RgbColor::from_str("1,2,3,4"), Err(ColorParseError::Format));
    assert_eq!(RgbColor::from_str(""), Err(ColorParseError::Format));
    assert_eq!(RgbColor::from_str("256,0,0"), Err(ColorParseError::Red));
    assert_eq!(RgbColor::from_str("1, 2,3"), Err(ColorParseError::Green));
    assert_eq!(RgbColor::from_str("1,2,"), Err(ColorParseError::Blue));
    assert_eq!(RgbColor::from_str("1,2,-3"), Err(ColorParseError::Blue));
    assert_eq!(RgbColor::from_str("+,2,3"), Err(ColorParseError::Red));
}

#[test]
fn theme_colors() {
    assert_eq!(ColorTheme::Green.to_rgb(), rgb(0, 255, 0));
    assert_eq!(ColorTheme::Pink.to_rgb(), rgb(255, 20, 147));
    assert_eq!(ColorTheme::Purple.to_rgb(), rgb(128, 0, 255));
}

#[test]
fn normalize_terminal_channels() {
    assert_eq!(normalize_channel(0), 0);
    assert_eq!(normalize_channel(255), 255);
    assert_eq!(normalize_channel(65535), 255);
    assert_eq!(normalize_channel(32896), 128);
    assert_eq!(normalize_channel(256), 1);
}

#[test]
fn new_screen_is_blank() {
    let s = Screen::new(3, 4, rgb(1, 2, 3));
    assert_eq!(s.height(), 3);
    assert_eq!(s.width(), 4);
    for r in 0..3 {
        for c in 0..4 {
            assert_eq!(s.get_char(r, c), Some(' '));
            assert_eq!(s.get_color(r, c), None);
        }
    }
    assert_eq!(s.get_char(3, 0), None);
}

#[test]
fn resize_gives_blank_grid_of_new_size() {
    let mut s = Screen::new(2, 2, rgb(0, 0, 0));
    s.put(1, 1, 'x', Some(rgb(9, 9, 9)));
    s.resize(5, 7);
    assert_eq!(s.height(), 5);
    assert_eq!(s.width(), 7);
    for r in 0..5 {
        for c in 0..7 {
            assert_eq!(s.get_char(r, c), Some(' '));
            assert_eq!(s.get_color(r, c), None);
        }
    }
    assert_eq!(s.get_char(5, 0), None);
    assert_eq!(s.get_char(0, 7), None);
}

#[test]
fn clear_blanks_cells() {
    let mut s = Screen::new(2, 2, rgb(0, 0, 0));
    s.put(0, 1, 'x', Some(rgb(9, 9, 9)));
    assert_eq!(s.get_char(0, 1), Some('x'));
    s.clear();
    assert_eq!(s.get_char(0, 1), Some(' '));
    assert_eq!(s.get_color(0, 1), None);
}

#[test]
fn identical_screens_emit_nothing() {
    let mut a = Screen::new(4, 5, rgb(0, 0, 0));
    let mut b = Screen::new(4, 5, rgb(0, 0, 0));
    assert!(a.render_changes(&b).is_empty());
    a.put(2, 3, 'q', Some(rgb(1, 2, 3)));
    b.put(2, 3, 'q', Some(rgb(1, 2, 3)));
    assert!(a.render_changes(&b).is_empty());
}

#[test]
fn diff_writes_only_changed_cells() {
    let bg = rgb(0, 0, 0);
    let green = rgb(0, 255, 0);
    let prev = Screen::new(2, 3, bg);
    let mut cur = Screen::new(2, 3, bg);
    cur.put(0, 1, 'a', Some(green));
    cur.put(0, 2, 'b', Some(green));
    cur.put(1, 0, 'c', Some(rgb(1, 1, 1)));
    let ops = cur.render_changes(&prev);
    assert_eq!(
        ops,
        vec![
            TermOp::MoveTo { col: 1, row: 0 },
            TermOp::SetColor(green),
            TermOp::Print('a'),
            TermOp::MoveTo { col: 2, row: 0 },
            TermOp::Print('b'),
            TermOp::MoveTo { col: 0, row: 1 },
            TermOp::SetColor(rgb(1, 1, 1)),
            TermOp::Print('c'),
        ]
    );
}

#[test]
fn diff_compares_painted_colors() {
    let bg = rgb(5, 5, 5);
    let prev = Screen::new(1, 1, bg);
    let mut cur = Screen::new(1, 1, bg);
    // an explicit background colour paints the same as no colour
    cur.put(0, 0, ' ', Some(bg));
    assert!(cur.render_changes(&prev).is_empty());
}

#[test]
fn diff_after_resize_redraws_everything() {
    let prev = Screen::new(1, 1, rgb(0, 0, 0));
    let cur = Screen::new(2, 2, rgb(0, 0, 0));
    let ops = cur.render_changes(&prev);
    // three cells lie outside the previous grid
    assert_eq!(ops.len(), 3 * 2 + 1);
    assert_eq!(ops[0], TermOp::MoveTo { col: 1, row: 0 });
    assert_eq!(ops[1], TermOp::SetColor(rgb(0, 0, 0)));
}

fn active(pos: i64, length: i32) -> Drop {
    Drop { pos, length, glyph: 'z', active: true }
}

#[test]
fn still_drop_keeps_position() {
    let mut d = active(5_000, 10);
    let fresh = active(0, 8);
    d.update_with(20, 700, 0, 0, fresh);
    assert_eq!(d, active(5_000, 10));
}

#[test]
fn drop_moves_by_fall() {
    let mut d = active(5_000, 10);
    d.update_with(20, 700, 2_500, 0, active(0, 8));
    assert_eq!(d.pos, 7_500);
    assert!(d.active);
}

#[test]
fn drop_leaves_exactly_past_bottom() {
    // head 30 rows, length 10, screen 20 rows: 30 - 10 = 20 is not past 20
    let mut d = active(30_000, 10);
    d.update_with(20, 700, 0, 0, active(0, 8));
    assert_eq!(d, active(30_000, 10));
    // one thousandth further is past: a low roll pauses it
    let mut d = active(30_000, 10);
    d.update_with(20, 700, 1, 0, active(0, 8));
    assert_eq!(d, Drop { pos: 30_001, length: 10, glyph: 'z', active: false });
    // a high roll respawns it
    let mut d = active(30_000, 10);
    d.update_with(20, 700, 1, 999_999, active(123, 9));
    assert_eq!(d, active(123, 9));
}

#[test]
fn pause_chance_follows_density() {
    // density 0.7: 0.15 - 0.035 = 0.115
    let mut d = active(40_000, 10);
    d.update_with(20, 700, 0, 114_999, active(0, 8));
    assert!(!d.active);
    let mut d = active(40_000, 10);
    d.update_with(20, 700, 0, 115_000, active(0, 8));
    assert_eq!(d, active(0, 8));
    // density 3: floor of 0.01
    let mut d = active(40_000, 10);
    d.update_with(20, 3_000, 0, 10_000, active(0, 8));
    assert!(d.active);
}

#[test]
fn paused_drop_waits_or_returns() {
    let paused = Drop { pos: 99_000, length: 12, glyph: 'k', active: false };
    let mut d = paused;
    // density 1: chance 0.005
    d.update_with(20, 1_000, 5_000, 5_000, active(0, 8));
    assert_eq!(d, paused);
    let mut d = paused;
    d.update_with(20, 1_000, 5_000, 4_999, active(0, 8));
    assert_eq!(d, active(0, 8));
}

#[test]
fn random_drops_are_in_range() {
    for _ in 0..200 {
        let d = Drop::new_random(30, &CHARS);
        assert!(d.active);
        assert!(d.length >= 8 && d.length < 20);
        assert!(d.pos > -15_000 && d.pos < 30_000);
        assert!(CHARS.contains(&d.glyph));
    }
}

#[test]
fn random_update_keeps_state_valid() {
    let mut d = Drop::new_random(10, &CHARS);
    for _ in 0..2_000 {
        d.update(10, 700, &CHARS, 300);
        assert!(d.length >= 8 && d.length < 20);
        if d.active {
            assert!(d.pos - d.length as i64 * 1000 <= 10_000 || d.pos < 10_000);
        }
    }
}

#[test]
fn draw_paints_trail() {
    let palette = MatrixEngine::calculate_trail_colors(rgb(0, 255, 0), rgb(0, 0, 0), TRAIL_STEPS);
    let mut s = Screen::new(10, 3, rgb(0, 0, 0));
    // head at row 4, length 8: tail at row -4
    let d = Drop { pos: 4_000, length: 8, glyph: 'x', active: true };
    d.draw(&mut s, 1, &palette);
    for r in 0..5u16 {
        assert_eq!(s.get_char(r, 1), Some('x'));
        let dist = 4 - r as usize;
        assert_eq!(s.get_color(r, 1), Some(palette[dist * 8 / 8]));
    }
    for r in 5..10u16 {
        assert_eq!(s.get_char(r, 1), Some(' '));
        assert_eq!(s.get_color(r, 1), None);
    }
    assert_eq!(s.get_color(0, 0), None);
}

#[test]
fn draw_blanks_faded_tip() {
    let palette = MatrixEngine::calculate_trail_colors(rgb(0, 255, 0), rgb(0, 0, 0), TRAIL_STEPS);
    let mut s = Screen::new(20, 1, rgb(0, 0, 0));
    let d = Drop { pos: 10_000, length: 10, glyph: 'x', active: true };
    d.draw(&mut s, 0, &palette);
    // tail row 0: distance 10, fade 1.0 > 0.95
    assert_eq!(s.get_char(0, 0), Some(' '));
    assert_eq!(s.get_color(0, 0), Some(palette[7]));
    assert_eq!(s.get_char(1, 0), Some('x'));
    assert_eq!(s.get_color(1, 0), Some(palette[7]));
    assert_eq!(s.get_color(10, 0), Some(palette[0]));
    assert_eq!(s.get_char(11, 0), Some(' '));
}

#[test]
fn inactive_drop_draws_nothing() {
    let palette = MatrixEngine::calculate_trail_colors(rgb(0, 255, 0), rgb(0, 0, 0), TRAIL_STEPS);
    let mut s = Screen::new(5, 1, rgb(0, 0, 0));
    let d = Drop { pos: 3_000, length: 8, glyph: 'x', active: false };
    d.draw(&mut s, 0, &palette);
    assert!(s.render_changes(&Screen::new(5, 1, rgb(0, 0, 0))).is_empty());
}

#[test]
fn drop_counts_follow_width_and_density() {
    assert_eq!(total_drops(80, 1_000), 80);
    assert_eq!(total_drops(80, 2_000), 160);
    assert_eq!(total_drops(80, 700), 80);
    assert_eq!(total_drops(80, 1_506), 120);
    assert_eq!(total_drops(0, 2_000), 0);
}

#[test]
fn engine_creates_drops_per_density() {
    let e = MatrixEngine::new(24, 80, rgb(0, 255, 0), 1_000, rgb(0, 0, 0), &CHARS);
    assert_eq!(e.drops().len(), 80);
    let e = MatrixEngine::new(24, 80, rgb(0, 255, 0), 2_000, rgb(0, 0, 0), &CHARS);
    assert_eq!(e.drops().len(), 160);
    assert_eq!(e.trail_colors()[7], rgb(0, 0, 0));
    assert_eq!(e.trail_colors()[0], rgb(0, 255, 0));
    assert_eq!(e.density(), 2_000);
}

#[test]
fn resize_drops_grows_and_truncates() {
    let mut e = MatrixEngine::new(24, 10, rgb(0, 255, 0), 1_000, rgb(0, 0, 0), &CHARS);
    let before: Vec<Drop> = e.drops().clone();
    e.resize_drops(15, 24, &CHARS);
    assert_eq!(e.drops().len(), 15);
    assert_eq!(&e.drops()[..10], &before[..]);
    e.resize_drops(4, 24, &CHARS);
    assert_eq!(e.drops().len(), 4);
    assert_eq!(&e.drops()[..], &before[..4]);
}

#[test]
fn render_drops_last_write_wins() {
    let mut e = MatrixEngine::new(6, 2, rgb(0, 255, 0), 2_000, rgb(0, 0, 0), &['a']);
    let mut s = Screen::new(6, 2, rgb(0, 0, 0));
    s.put(5, 0, 'q', None);
    e.update_drops(6, &['a'], 0);
    e.render_drops(&mut s);
    let drops = e.drops().clone();
    for r in 0..6u16 {
        for c in 0..2u16 {
            let mut expect = ' ';
            for (i, d) in drops.iter().enumerate() {
                if i % 2 == c as usize && d.active {
                    let head = (d.pos as f64 / 1000.0).round() as i64;
                    let tail = ((d.pos - d.length as i64 * 1000) as f64 / 1000.0).round() as i64;
                    if tail <= r as i64 && r as i64 <= head {
                        let dist = head - r as i64;
                        expect = if dist as f64 / d.length as f64 > 0.95 { ' ' } else { d.glyph };
                    }
                }
            }
            assert_eq!(s.get_char(r, c), Some(expect));
        }
    }
}

#[test]
fn exit_only_on_ctrl_c_or_stream_end() {
    assert_eq!(on_input(InputEvent::Key { ch: Some('c'), ctrl: true }), LoopAction::Exit);
    assert_eq!(on_input(InputEvent::Key { ch: Some('c'), ctrl: false }), LoopAction::Ignore);
    assert_eq!(on_input(InputEvent::Key { ch: Some('x'), ctrl: true }), LoopAction::Ignore);
    assert_eq!(on_input(InputEvent::Key { ch: None, ctrl: true }), LoopAction::Ignore);
    assert_eq!(on_input(InputEvent::Other), LoopAction::Ignore);
    assert_eq!(on_input(InputEvent::Failed), LoopAction::Exit);
    assert_eq!(on_input(InputEvent::Ended), LoopAction::Exit);
}

#[test]
fn fall_is_speed_times_elapsed() {
    // 5 rows per second for 33 ms: 0.165 rows
    assert_eq!(fall_distance(5_000, 33_000), 165);
    assert_eq!(fall_distance(0, 33_000), 0);
    assert_eq!(fall_distance(u64::MAX, u64::MAX), 1_099_511_627_776);
}

#[test]
fn frame_deadline_is_absolute() {
    let mut clock = FrameClock::new(1_000, 33_000);
    assert_eq!(clock.deadline(), 34_000);
    assert_eq!(clock.tick(40_000), 39_000);
    assert_eq!(clock.deadline(), 73_000);
    assert_eq!(FrameClock::new(u64::MAX - 5, 33_000).deadline(), u64::MAX);
}

fn count_prints(ops: &[TermOp]) -> usize {
    ops.iter().filter(|op| matches!(op, TermOp::Print(_))).count()
}

#[test]
fn identical_screens_with_other_background_emit_nothing() {
    let mut a = Screen::new(2, 2, rgb(0, 0, 0));
    let mut b = Screen::new(2, 2, rgb(9, 9, 9));
    a.put(1, 0, 'q', Some(rgb(1, 2, 3)));
    b.put(1, 0, 'q', Some(rgb(1, 2, 3)));
    assert!(a.render_changes(&b).is_empty());
}

#[test]
fn resized_screens_redraw_every_cell() {
    let mut cur = Screen::new(1, 1, rgb(0, 0, 0));
    let mut prev = Screen::new(1, 1, rgb(0, 0, 0));
    cur.resize(2, 3);
    prev.resize(2, 3);
    let ops = cur.render_changes(&prev);
    assert_eq!(count_prints(&ops), 6);
    assert_eq!(ops[0], TermOp::MoveTo { col: 0, row: 0 });
    assert_eq!(ops[1], TermOp::SetColor(rgb(0, 0, 0)));
    assert_eq!(ops[2], TermOp::Print(' '));
    assert_eq!(ops[3], TermOp::MoveTo { col: 1, row: 0 });
    assert_eq!(ops[4], TermOp::Print(' '));
    assert_eq!(ops.len(), 6 * 2 + 1);
    // once painted afresh, the screen is no longer stale
    prev.clear();
    assert!(cur.render_changes(&prev).is_empty());
}

#[test]
fn rain_redraws_fully_after_resize() {
    let mut rain = Rain::new(4, 3, rgb(0, 255, 0), 1_000, rgb(0, 0, 0), &CHARS);
    let first = rain.frame(&CHARS, 0);
    assert!(count_prints(&first) <= 12);
    assert!(rain.observe_size(5, 2, &CHARS));
    let ops = rain.frame(&CHARS, 0);
    assert_eq!(count_prints(&ops), 10);
    for r in 0..2u16 {
        for c in 0..5u16 {
            assert!(ops.contains(&TermOp::MoveTo { col: c, row: r }));
        }
    }
    // the frame after that writes only what changed
    let again = rain.frame(&CHARS, 0);
    assert!(count_prints(&again) <= 10);
}

#[test]
fn rain_frame_swaps_and_paints() {
    let mut rain = Rain::new(6, 4, rgb(0, 255, 0), 1_000, rgb(0, 0, 0), &['a']);
    let ops = rain.frame(&['a'], 0);
    let drops = rain.engine().drops().clone();
    let painted = rain.previous();
    for r in 0..6u16 {
        for c in 0..4u16 {
            let d = drops[c as usize];
            let head = (d.pos as f64 / 1000.0).round() as i64;
            let tail = ((d.pos - d.length as i64 * 1000) as f64 / 1000.0).round() as i64;
            let mut expect = ' ';
            if d.active && tail <= r as i64 && r as i64 <= head {
                let dist = head - r as i64;
                expect = if dist as f64 / d.length as f64 > 0.95 { ' ' } else { 'a' };
            }
            assert_eq!(painted.get_char(r, c), Some(expect));
        }
    }
    // against the blank screen it replaced, only cells with a colour are written
    let coloured = (0..6u16)
        .flat_map(|r| (0..4u16).map(move |c| (r, c)))
        .filter(|&(r, c)| painted.get_color(r, c).map_or(false, |k| k != rgb(0, 0, 0)) || painted.get_char(r, c) != Some(' '))
        .count();
    assert_eq!(count_prints(&ops), coloured);
}

#[test]
fn rain_resizes_and_swaps() {
    let mut rain = Rain::new(10, 8, rgb(0, 255, 0), 1_000, rgb(0, 0, 0), &CHARS);
    assert!(!rain.observe_size(8, 10, &CHARS));
    assert!(rain.observe_size(12, 5, &CHARS));
    assert_eq!(rain.width(), 12);
    assert_eq!(rain.height(), 5);
    assert_eq!(rain.engine().drops().len(), 12);
    assert_eq!(rain.previous().width(), 12);
    let ops = rain.frame(&CHARS, 100);
    assert_eq!(count_prints(&ops), 12 * 5);
    // the screen just painted is now the previous one
    assert_eq!(rain.previous().height(), 5);
}
