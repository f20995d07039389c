use vstd::prelude::*;
use rand::Rng;
use rand::seq::SliceRandom;
use crate::color::RgbColor;
use crate::screen::Screen;

verus! {

/// Position units per screen row: positions are kept in thousandths of a row.
pub const SUBROWS: i64 = 1000;

/// Half a row, in position units.
pub const HALF_ROW: i64 = 500;

/// The shortest trail a stream is given.
pub const MIN_LENGTH: i32 = 8;

/// One more than the longest trail a stream is given.
pub const MAX_LENGTH: i32 = 20;

/// Chances are stated in parts per million.
pub const CHANCE_SCALE: u64 = 1_000_000;

/// The largest fall in one tick, in position units.
pub const MAX_FALL: i64 = 1_099_511_627_776;

/// No position ever lies further from row 0 than this.
pub const POS_LIMIT: i64 = 4_398_046_511_104;

/// No active stream's head lies further down than this.
pub const ACTIVE_LIMIT: i64 = 4_294_967_296;

/// One falling stream of a single glyph, with its head at `pos` (in
/// thousandths of a row; negative above the screen) and a trail of `length` rows.
#[derive(Debug, Clone, Copy, PartialEq, Eq, Structural)]
pub struct Drop {
    pub pos: i64,
    pub length: i32,
    pub glyph: char,
    pub active: bool,
}

/// Relies on rand's `Rng::gen_range` on `thread_rng()`: a draw from `0..bound`.
#[verifier::external_body]
fn random_below(bound: u64) -> (r: u64)
    requires
        bound > 0,
    ensures
        r < bound,
{
    rand::thread_rng().gen_range(0..bound)
}

/// Relies on rand's `SliceRandom::choose` on `thread_rng()`: one element of a
/// non-empty slice.
#[verifier::external_body]
fn random_glyph(set: &[char]) -> (r: char)
    requires
        set@.len() > 0,
    ensures
        set@.contains(r),
{
    *set.choose(&mut rand::thread_rng()).unwrap()
}

/// `p / SUBROWS` rounded to the nearest integer, halves away from zero.
pub open spec fn round_rows(p: int) -> int {
    if p >= 0 {
        (p + HALF_ROW) / SUBROWS as int
    } else {
        -((-p + HALF_ROW) / SUBROWS as int)
    }
}

/// The chance per tick that a paused stream comes back: `0.005 × density`.
pub open spec fn activation_ppm(density: int) -> int {
    5 * density
}

/// The chance that a stream past the bottom pauses: `max(0.15 − 0.05 × density, 0.01)`.
pub open spec fn pause_ppm(density: int) -> int {
    if 150_000 - 50 * density > 10_000 {
        150_000 - 50 * density
    } else {
        10_000
    }
}

impl Drop {
    /// The state that every drop keeps.
    pub open spec fn wf(&self) -> bool {
        &&& MIN_LENGTH <= self.length < MAX_LENGTH
        &&& -POS_LIMIT <= self.pos <= POS_LIMIT
        &&& self.active ==> self.pos <= ACTIVE_LIMIT
    }

    /// A drop as `new_random` makes it for a screen of `height` rows: active,
    /// head drawn from `U(0, height) − U(0, height / 2)`, length from `[8, 20)`,
    /// glyph from `set`.
    pub open spec fn is_fresh(&self, height: int, set: Seq<char>) -> bool {
        &&& self.wf()
        &&& self.active
        &&& set.contains(self.glyph)
        &&& if height > 0 {
            -(height * HALF_ROW) < self.pos < height * SUBROWS
        } else {
            self.pos == 0
        }
    }

    /// The trail has scrolled wholly past the bottom of a screen of `height` rows.
    pub open spec fn past_bottom(&self, height: int) -> bool {
        self.pos - self.length * SUBROWS > height * SUBROWS
    }

    /// The drop moved down by `fall`.
    pub open spec fn moved(&self, fall: int) -> Drop {
        Drop { pos: (self.pos + fall) as i64, ..*self }
    }

    /// One tick of the life cycle, with `roll` a draw from `0..1_000_000` and
    /// `fresh` the drop to respawn as.
    pub open spec fn stepped(&self, height: int, density: int, fall: int, roll: int, fresh: Drop) -> Drop {
        if !self.active {
            if roll < activation_ppm(density) { fresh } else { *self }
        } else {
            let m = self.moved(fall);
            if m.past_bottom(height) {
                if roll < pause_ppm(density) {
                    Drop { active: false, ..m }
                } else {
                    fresh
                }
            } else {
                m
            }
        }
    }

    /// What one tick may make of the drop, whatever was drawn.
    pub open spec fn may_step(&self, next: Drop, height: int, density: int, fall: int, set: Seq<char>) -> bool {
        if !self.active {
            next == *self || next.is_fresh(height, set)
        } else {
            let m = self.moved(fall);
            if m.past_bottom(height) {
                next == (Drop { active: false, ..m }) || next.is_fresh(height, set)
            } else {
                next == m
            }
        }
    }

    /// A new active stream at a random place, with a random length and glyph.
    pub fn new_random(screen_height: u16, char_set: &[char]) -> (r: Self)
        requires
            char_set@.len() > 0,
        ensures
            r.is_fresh(screen_height as int, char_set@),
    {
        let span: u64 = screen_height as u64 * SUBROWS as u64;
        let head: u64 = if span > 0 { random_below(span) } else { 0 };
        let half: u64 = span / 2;
        let lag: u64 = if half > 0 { random_below(half) } else { 0 };
        let extra: u64 = random_below((MAX_LENGTH - MIN_LENGTH) as u64);
        let glyph = random_glyph(char_set);
        Drop {
            pos: head as i64 - lag as i64,
            length: MIN_LENGTH + extra as i32,
            glyph,
            active: true,
        }
    }

    /// One tick with the draws given: a paused stream comes back as `fresh` when
    /// `roll` falls under the activation chance; an active one moves down by
    /// `fall`, and once its trail is past the bottom it pauses where it is when
    /// `roll` falls under the pause chance, and is replaced by `fresh` otherwise.
    pub fn update_with(&mut self, screen_height: u16, density: u32, fall: i64, roll: u64, fresh: Drop)
        requires
            old(self).wf(),
            fresh.wf(),
            0 <= fall <= MAX_FALL,
        ensures
            *final(self) == old(self).stepped(screen_height as int, density as int, fall as int, roll as int, fresh),
            final(self).wf(),
    {
        if !self.active {
            if roll < 5 * density as u64 {
                *self = fresh;
            }
            return;
        }
        self.pos = self.pos + fall;
        let height: i64 = screen_height as i64;
        if self.pos - self.length as i64 * SUBROWS > height * SUBROWS {
            let reduction: u64 = 50 * density as u64;
            let pause: u64 = if reduction < 140_000 { 150_000 - reduction } else { 10_000 };
            if roll < pause {
                self.active = false;
            } else {
                *self = fresh;
            }
        }
    }

    /// One tick of the stream's life cycle, drawing at random whether it pauses
    /// or comes back and where it respawns.
    pub fn update(&mut self, screen_height: u16, density: u32, char_set: &[char], fall: i64)
        requires
            old(self).wf(),
            char_set@.len() > 0,
            0 <= fall <= MAX_FALL,
        ensures
            final(self).wf(),
            old(self).may_step(*final(self), screen_height as int, density as int, fall as int, char_set@),
    {
        let roll = random_below(CHANCE_SCALE);
        let fresh = Drop::new_random(screen_height, char_set);
        self.update_with(screen_height, density, fall, roll, fresh);
    }
}

impl Drop {
    /// The row of the head, rounded.
    pub open spec fn head_row(&self) -> int {
        round_rows(self.pos as int)
    }

    /// The row of the trail's end, rounded.
    pub open spec fn tail_row(&self) -> int {
        round_rows(self.pos - self.length * SUBROWS)
    }

    /// The drop paints row `r`.
    pub open spec fn covers(&self, r: int) -> bool {
        self.active && self.tail_row() <= r <= self.head_row()
    }

    /// The glyph painted at row `r`: blank where the trail has faded past
    /// 0.95 of its length.
    pub open spec fn glyph_at(&self, r: int) -> char {
        let dist = self.head_row() - r;
        if 20 * dist > 19 * self.length { ' ' } else { self.glyph }
    }

    /// The palette entry for row `r`: `min(floor(dist / length × n), n − 1)`.
    pub open spec fn color_index_at(&self, r: int, n: int) -> int {
        let dist = self.head_row() - r;
        let i = dist * n / self.length as int;
        if i > n - 1 { n - 1 } else { i }
    }

    /// Paints the trail into column `col` of `screen`, from its end to its head,
    /// on the rows that lie on screen; an inactive drop paints nothing.
    pub fn draw(&self, screen: &mut Screen, col: u16, trail_colors: &[RgbColor])
        requires
            self.wf(),
            old(screen).wf(),
            trail_colors@.len() > 0,
        ensures
            final(screen).wf(),
            final(screen).spec_height() == old(screen).spec_height(),
            final(screen).spec_width() == old(screen).spec_width(),
            final(screen).background() == old(screen).background(),
            final(screen).is_stale() == old(screen).is_stale(),
            forall|r: int, c: int| #![trigger final(screen).char_at(r, c)]
                old(screen).in_bounds(r, c) ==> final(screen).char_at(r, c) == (if c == col && self.covers(r) {
                    self.glyph_at(r)
                } else {
                    old(screen).char_at(r, c)
                }),
            forall|r: int, c: int| #![trigger final(screen).color_at(r, c)]
                old(screen).in_bounds(r, c) ==> final(screen).color_at(r, c) == (if c == col && self.covers(r) {
                    Some(trail_colors@[self.color_index_at(r, trail_colors@.len() as int)])
                } else {
                    old(screen).color_at(r, c)
                }),
    {
        if !self.active || col >= screen.width() {
            return;
        }
        let tail = rows_of(self.pos - self.length as i64 * SUBROWS);
        let head = rows_of(self.pos);
        let height: i64 = screen.height() as i64;
        let n: usize = trail_colors.len();
        let mut row: i64 = if tail > 0 { tail } else { 0 };
        let ghost start = row;
        let ghost before = *screen;
        while row <= head && row < height
            invariant
                before == *old(screen),
                self.wf(),
                self.active,
                tail == self.tail_row(),
                head == self.head_row(),
                height == before.spec_height(),
                height <= 65535,
                n == trail_colors@.len(),
                n > 0,
                col < before.spec_width(),
                0 <= start <= row,
                tail <= start,
                screen.wf(),
                screen.spec_height() == before.spec_height(),
                screen.spec_width() == before.spec_width(),
                screen.background() == before.background(),
                screen.is_stale() == before.is_stale(),
                forall|r: int, c: int| #![trigger screen.char_at(r, c)]
                    before.in_bounds(r, c) ==> screen.char_at(r, c) == (if c == col && self.covers(r) && r < row {
                        self.glyph_at(r)
                    } else {
                        before.char_at(r, c)
                    }),
                forall|r: int, c: int| #![trigger screen.color_at(r, c)]
                    before.in_bounds(r, c) ==> screen.color_at(r, c) == (if c == col && self.covers(r) && r < row {
                        Some(trail_colors@[self.color_index_at(r, n as int)])
                    } else {
                        before.color_at(r, c)
                    }),
            decreases height - row,
        {
            let dist: i64 = head - row;
            let len: i64 = self.length as i64;
            proof {
                assert(0 <= dist <= 1_000_000_000_000_000) by {
                    assert(head <= POS_LIMIT);
                }
                assert(dist * (n as int) <= 1_000_000_000_000_000 * (n as int)) by (nonlinear_arith)
                    requires 0 <= dist <= 1_000_000_000_000_000, n >= 0;
            }
            let scaled: u128 = dist as u128 * n as u128 / len as u128;
            let index: usize = if scaled > (n - 1) as u128 { n - 1 } else { scaled as usize };
            let ch = if 20 * dist > 19 * len { ' ' } else { self.glyph };
            proof {
                assert(self.covers(row as int));
                assert(ch == self.glyph_at(row as int));
                assert(index == self.color_index_at(row as int, n as int));
            }
            let ghost mid = *screen;
            screen.put(row as u16, col, ch, Some(trail_colors[index]));
            proof {
                assert forall|r: int, c: int| #![trigger screen.char_at(r, c)]
                    before.in_bounds(r, c) implies screen.char_at(r, c) == (if c == col && self.covers(r) && r < row + 1 {
                        self.glyph_at(r)
                    } else {
                        before.char_at(r, c)
                    }) by {
                    assert(mid.in_bounds(r, c));
                    assert(mid.char_at(r, c) == (if c == col && self.covers(r) && r < row {
                        self.glyph_at(r)
                    } else {
                        before.char_at(r, c)
                    }));
                }
                assert forall|r: int, c: int| #![trigger screen.color_at(r, c)]
                    before.in_bounds(r, c) implies screen.color_at(r, c) == (if c == col && self.covers(r) && r < row + 1 {
                        Some(trail_colors@[self.color_index_at(r, n as int)])
                    } else {
                        before.color_at(r, c)
                    }) by {
                    assert(mid.in_bounds(r, c));
                    assert(mid.color_at(r, c) == (if c == col && self.covers(r) && r < row {
                        Some(trail_colors@[self.color_index_at(r, n as int)])
                    } else {
                        before.color_at(r, c)
                    }));
                }
            }
            row += 1;
        }
    }
}

/// The position `p` in whole rows, rounded half away from zero.
fn rows_of(p: i64) -> (r: i64)
    requires
        -2 * POS_LIMIT <= p <= 2 * POS_LIMIT,
    ensures
        r == round_rows(p as int),
        -POS_LIMIT <= r <= POS_LIMIT,
{
    if p >= 0 {
        (p + HALF_ROW) / SUBROWS
    } else {
        -((-p + HALF_ROW) / SUBROWS)
    }
}

/// A stream that does not fall keeps its place while its trail is on screen.
pub proof fn lemma_still_drop_keeps_position(d: Drop, height: int, density: int, roll: int, fresh: Drop)
    requires
        d.wf(),
        d.active,
        !d.past_bottom(height),
    ensures
        d.stepped(height, density, 0, roll, fresh) == d,
        forall|set: Seq<char>, next: Drop| #[trigger] d.may_step(next, height, density, 0, set) ==> next == d,
{
    assert(d.moved(0) == d);
}

/// An active stream pauses or respawns exactly when, after moving, its head
/// less its length lies below the last row; otherwise it only moves.
pub proof fn lemma_leaves_only_past_bottom(d: Drop, height: int, density: int, fall: int, roll: int, fresh: Drop)
    requires
        d.wf(),
        d.active,
    ensures
        !d.moved(fall).past_bottom(height) ==> d.stepped(height, density, fall, roll, fresh) == d.moved(fall),
        d.moved(fall).past_bottom(height) ==> d.stepped(height, density, fall, roll, fresh) == fresh
            || d.stepped(height, density, fall, roll, fresh) == (Drop { active: false, ..d.moved(fall) }),
        forall|set: Seq<char>, next: Drop| #[trigger] d.may_step(next, height, density, fall, set) ==> (if d.moved(
            fall,
        ).past_bottom(height) {
            next == (Drop { active: false, ..d.moved(fall) }) || next.is_fresh(height, set)
        } else {
            next == d.moved(fall)
        }),
{
}

} // verus!
