use vstd::prelude::*;
use crate::color::RgbColor;
use crate::drop::MAX_FALL;
use crate::engine::{MatrixEngine, MAX_DENSITY, TRAIL_STEPS, drop_count, fade_palette, painted_char, painted_color};
use crate::screen::{Screen, TermOp, diff_ops, writes_cell, lemma_stale_redraws_everything};

verus! {

/// What the input stream delivered.
#[derive(Debug, Clone, Copy, PartialEq, Eq, Structural)]
pub enum InputEvent {
    /// A key press: the character of the key, if it has one, and whether
    /// Control was held.
    Key { ch: Option<char>, ctrl: bool },
    /// Any other event (mouse, focus, paste, resize notice).
    Other,
    /// Reading the stream failed.
    Failed,
    /// The stream ended.
    Ended,
}

/// What the loop does with an input event.
#[derive(Debug, Clone, Copy, PartialEq, Eq, Structural)]
pub enum LoopAction {
    /// Leave the loop and restore the terminal.
    Exit,
    /// Discard the event and wait again, without touching the frame deadline.
    Ignore,
}

pub open spec fn is_exit_chord(ev: InputEvent) -> bool {
    ev == (InputEvent::Key { ch: Some('c'), ctrl: true })
}

pub open spec fn input_action(ev: InputEvent) -> LoopAction {
    if is_exit_chord(ev) || ev is Failed || ev is Ended {
        LoopAction::Exit
    } else {
        LoopAction::Ignore
    }
}

/// Ctrl+C, a read error and the end of the stream end the loop; every other
/// event is discarded.
pub fn on_input(ev: InputEvent) -> (r: LoopAction)
    ensures
        r == input_action(ev),
{
    match ev {
        InputEvent::Key { ch, ctrl } => {
            let exit = match ch {
                Some(c) => c == 'c' && ctrl,
                None => false,
            };
            if exit { LoopAction::Exit } else { LoopAction::Ignore }
        },
        InputEvent::Other => LoopAction::Ignore,
        InputEvent::Failed => LoopAction::Exit,
        InputEvent::Ended => LoopAction::Exit,
    }
}

/// Microseconds in a second.
pub const MICROS: u64 = 1_000_000;

/// The fall for a tick: `speed × elapsed seconds` rows, with `speed` in
/// thousandths of a row per second and the result in thousandths of a row,
/// truncated and capped at the largest fall one tick may take.
pub open spec fn fall_for(speed: int, elapsed_us: int) -> int {
    let f = speed * elapsed_us / MICROS as int;
    if f > MAX_FALL { MAX_FALL as int } else { f }
}

pub fn fall_distance(speed: u64, elapsed_us: u64) -> (r: i64)
    ensures
        r == fall_for(speed as int, elapsed_us as int),
        0 <= r <= MAX_FALL,
{
    proof {
        assert(speed * elapsed_us <= 0xffff_ffff_ffff_ffff * 0xffff_ffff_ffff_ffff) by (nonlinear_arith)
            requires speed <= 0xffff_ffff_ffff_ffff, elapsed_us <= 0xffff_ffff_ffff_ffff;
    }
    let f: u128 = speed as u128 * elapsed_us as u128 / MICROS as u128;
    if f > MAX_FALL as u128 { MAX_FALL } else { f as i64 }
}

/// The frame timer: the instant of the last frame and the frame interval, in
/// microseconds. The next deadline is always the last frame plus one interval,
/// an absolute instant that input does not move.
pub struct FrameClock {
    pub last_frame: u64,
    pub interval: u64,
}

pub open spec fn deadline_after(last: int, interval: int) -> int {
    if last + interval > u64::MAX { u64::MAX as int } else { last + interval }
}

impl FrameClock {
    pub fn new(now: u64, interval: u64) -> (r: Self)
        ensures
            r.last_frame == now,
            r.interval == interval,
    {
        FrameClock { last_frame: now, interval }
    }

    /// The instant at which the next frame is due.
    pub fn deadline(&self) -> (r: u64)
        ensures
            r == deadline_after(self.last_frame as int, self.interval as int),
    {
        if self.last_frame > u64::MAX - self.interval {
            u64::MAX
        } else {
            self.last_frame + self.interval
        }
    }

    /// Records a frame at `now` and returns the time since the one before.
    pub fn tick(&mut self, now: u64) -> (elapsed: u64)
        ensures
            final(self).last_frame == now,
            final(self).interval == old(self).interval,
            elapsed == (if now >= old(self).last_frame { now - old(self).last_frame } else { 0 }),
    {
        let elapsed = if now >= self.last_frame { now - self.last_frame } else { 0 };
        self.last_frame = now;
        elapsed
    }
}

/// The whole animation: the engine, the screen being painted and the one last
/// written to the terminal, and the terminal size they were made for.
pub struct Rain {
    engine: MatrixEngine,
    current: Screen,
    previous: Screen,
    width: u16,
    height: u16,
}

impl Rain {
    pub closed spec fn spec_engine(&self) -> MatrixEngine {
        self.engine
    }

    pub closed spec fn spec_current(&self) -> Screen {
        self.current
    }

    pub closed spec fn spec_previous(&self) -> Screen {
        self.previous
    }

    pub closed spec fn spec_width(&self) -> int {
        self.width as int
    }

    pub closed spec fn spec_height(&self) -> int {
        self.height as int
    }

    /// Both screens are of the tracked size.
    pub open spec fn wf(&self) -> bool {
        &&& self.spec_engine().wf()
        &&& self.spec_current().wf()
        &&& self.spec_previous().wf()
        &&& self.spec_current().spec_height() == self.spec_height()
        &&& self.spec_current().spec_width() == self.spec_width()
        &&& self.spec_previous().spec_height() == self.spec_height()
        &&& self.spec_previous().spec_width() == self.spec_width()
    }

    pub fn new(height: u16, width: u16, base_color: RgbColor, density: u32, background_rgb: RgbColor, char_set: &[char]) -> (r: Self)
        requires
            density <= MAX_DENSITY,
            char_set@.len() > 0,
        ensures
            r.wf(),
            r.spec_height() == height,
            r.spec_width() == width,
            r.spec_current().is_blank(),
            r.spec_previous().is_blank(),
            r.spec_engine().spec_trail() == fade_palette(base_color, background_rgb, TRAIL_STEPS as int),
            r.spec_engine().spec_drops().len() == drop_count(width as int, density as int),
    {
        Rain {
            engine: MatrixEngine::new(height, width, base_color, density, background_rgb, char_set),
            current: Screen::new(height, width, background_rgb),
            previous: Screen::new(height, width, background_rgb),
            width,
            height,
        }
    }

    /// Takes in the terminal size polled at the start of an iteration: when it
    /// differs from the tracked one, both screens are reallocated blank at the
    /// new size and marked stale, so that the next frame's diff writes every
    /// cell, and the streams are brought to the count for the new width.
    pub fn observe_size(&mut self, new_width: u16, new_height: u16, char_set: &[char]) -> (changed: bool)
        requires
            old(self).wf(),
            char_set@.len() > 0,
        ensures
            final(self).wf(),
            changed == (new_width != old(self).spec_width() || new_height != old(self).spec_height()),
            final(self).spec_width() == new_width,
            final(self).spec_height() == new_height,
            !changed ==> *final(self) == *old(self),
            changed ==> final(self).spec_current().is_blank() && final(self).spec_previous().is_blank(),
            changed ==> final(self).spec_previous().is_stale(),
            changed ==> final(self).spec_engine().spec_trail() == old(self).spec_engine().spec_trail(),
            changed ==> final(self).spec_engine().spec_density() == old(self).spec_engine().spec_density(),
            changed ==> forall|i: int| 0 <= i < final(self).spec_engine().spec_drops().len()
                && i < old(self).spec_engine().spec_drops().len()
                ==> #[trigger] final(self).spec_engine().spec_drops()[i] == old(self).spec_engine().spec_drops()[i],
            changed ==> forall|i: int| old(self).spec_engine().spec_drops().len() <= i
                < final(self).spec_engine().spec_drops().len()
                ==> #[trigger] final(self).spec_engine().spec_drops()[i].is_fresh(new_height as int, char_set@),
            changed ==> final(self).spec_engine().spec_drops().len() == drop_count(
                new_width as int,
                old(self).spec_engine().spec_density() as int,
            ),
    {
        if new_width == self.width && new_height == self.height {
            return false;
        }
        self.current.resize(new_height, new_width);
        self.previous.resize(new_height, new_width);
        self.engine.resize_drops(new_width, new_height, char_set);
        self.width = new_width;
        self.height = new_height;
        true
    }

    /// One frame: advances the streams by `fall`, paints them, returns the
    /// output that brings the terminal from the last written screen to the new
    /// one (every cell, when that screen is stale), and exchanges the two
    /// screens' roles.
    pub fn frame(&mut self, char_set: &[char], fall: i64) -> (r: Vec<TermOp>)
        requires
            old(self).wf(),
            char_set@.len() > 0,
            0 <= fall <= MAX_FALL,
        ensures
            final(self).wf(),
            final(self).spec_width() == old(self).spec_width(),
            final(self).spec_height() == old(self).spec_height(),
            final(self).spec_current() == old(self).spec_previous(),
            !final(self).spec_previous().is_stale(),
            final(self).spec_previous().background() == old(self).spec_current().background(),
            final(self).spec_engine().spec_trail() == old(self).spec_engine().spec_trail(),
            final(self).spec_engine().spec_density() == old(self).spec_engine().spec_density(),
            final(self).spec_engine().spec_drops().len() == old(self).spec_engine().spec_drops().len(),
            forall|i: int| 0 <= i < old(self).spec_engine().spec_drops().len()
                ==> #[trigger] old(self).spec_engine().spec_drops()[i].may_step(
                final(self).spec_engine().spec_drops()[i],
                old(self).spec_height(),
                old(self).spec_engine().spec_density() as int,
                fall as int,
                char_set@,
            ),
            forall|r: int, c: int| #![trigger final(self).spec_previous().char_at(r, c)]
                final(self).spec_previous().in_bounds(r, c) ==> final(self).spec_previous().char_at(r, c)
                    == painted_char(final(self).spec_engine().spec_drops(), final(self).spec_width(), r, c),
            forall|r: int, c: int| #![trigger final(self).spec_previous().color_at(r, c)]
                final(self).spec_previous().in_bounds(r, c) ==> final(self).spec_previous().color_at(r, c)
                    == painted_color(
                    final(self).spec_engine().spec_drops(),
                    final(self).spec_width(),
                    final(self).spec_engine().spec_trail(),
                    r,
                    c,
                ),
            r@ == diff_ops(final(self).spec_previous(), old(self).spec_previous()),
            old(self).spec_previous().is_stale() ==> forall|row: int, col: int|
                #![trigger final(self).spec_previous().char_at(row, col)]
                final(self).spec_previous().in_bounds(row, col) ==> writes_cell(
                    r@,
                    row,
                    col,
                    final(self).spec_previous().char_at(row, col),
                ),
    {
        let out = self.engine.frame(&mut self.current, &self.previous, self.height, char_set, fall);
        core::mem::swap(&mut self.current, &mut self.previous);
        proof {
            if old(self).spec_previous().is_stale() {
                lemma_stale_redraws_everything(self.previous, old(self).previous);
            }
        }
        out
    }

    pub fn engine(&self) -> (r: &MatrixEngine)
        ensures
            *r == self.spec_engine(),
    {
        &self.engine
    }

    /// The screen written to the terminal last.
    pub fn previous(&self) -> (r: &Screen)
        ensures
            *r == self.spec_previous(),
    {
        &self.previous
    }

    pub fn width(&self) -> (r: u16)
        ensures
            r == self.spec_width(),
    {
        self.width
    }

    pub fn height(&self) -> (r: u16)
        ensures
            r == self.spec_height(),
    {
        self.height
    }
}

} // verus!
