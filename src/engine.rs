use vstd::prelude::*;
use crate::color::{RgbColor, blend_spec, brighten_spec, round_ratio, lemma_blend_endpoints};
use crate::drop::{Drop, MAX_FALL};
use crate::screen::{Screen, TermOp, diff_ops};

verus! {

/// The number of entries of the fade palette.
pub const TRAIL_STEPS: usize = 8;

/// The head of a stream is brightened by `HEAD_BOOST_NUM / HEAD_BOOST_DEN` (1.4).
pub const HEAD_BOOST_NUM: u32 = 7;

pub const HEAD_BOOST_DEN: u32 = 5;

/// Density is given in thousandths: 1000 puts one stream in each column.
pub const DENSITY_SCALE: u64 = 1000;

/// The largest density accepted: a thousand streams per column.
pub const MAX_DENSITY: u32 = 1_000_000;

/// Entry `i` of a fade palette of `steps` entries from `base` to `background`:
/// the blend by `(i / (steps − 1))²`, but for entry 0, which is `base` brightened by 1.4.
pub open spec fn fade_entry(base: RgbColor, background: RgbColor, steps: int, i: int) -> RgbColor {
    if i == 0 {
        brighten_spec(base, HEAD_BOOST_NUM as int, HEAD_BOOST_DEN as int)
    } else {
        blend_spec(base, background, i * i, (steps - 1) * (steps - 1))
    }
}

pub open spec fn fade_palette(base: RgbColor, background: RgbColor, steps: int) -> Seq<RgbColor> {
    Seq::new(steps as nat, |i: int| fade_entry(base, background, steps, i))
}

/// The number of streams for a width: `round(width × density)`, and never
/// fewer than `width`.
pub open spec fn drop_count(width: int, density: int) -> int {
    let scaled = if width * density > width * DENSITY_SCALE { width * density } else { width * DENSITY_SCALE };
    round_ratio(scaled, DENSITY_SCALE as int)
}

/// The character painted at a cell once `drops` are drawn in order into a
/// cleared screen `width` columns wide, drop `i` into column `i % width`.
pub open spec fn painted_char(drops: Seq<Drop>, width: int, r: int, c: int) -> char
    decreases drops.len(),
{
    if drops.len() == 0 || width == 0 {
        ' '
    } else {
        let d = drops.last();
        if (drops.len() - 1) % width == c && d.covers(r) {
            d.glyph_at(r)
        } else {
            painted_char(drops.drop_last(), width, r, c)
        }
    }
}

/// The colour of a cell once `drops` are drawn as for `painted_char`.
pub open spec fn painted_color(drops: Seq<Drop>, width: int, palette: Seq<RgbColor>, r: int, c: int) -> Option<RgbColor>
    decreases drops.len(),
{
    if drops.len() == 0 || width == 0 {
        None
    } else {
        let d = drops.last();
        if (drops.len() - 1) % width == c && d.covers(r) {
            Some(palette[d.color_index_at(r, palette.len() as int)])
        } else {
            painted_color(drops.drop_last(), width, palette, r, c)
        }
    }
}

/// The fade palette has its eight entries, its first is the base colour
/// brightened by 1.4, and its last is the background.
pub proof fn lemma_fade_palette_ends(base: RgbColor, background: RgbColor)
    ensures
        fade_palette(base, background, TRAIL_STEPS as int).len() == TRAIL_STEPS,
        fade_palette(base, background, TRAIL_STEPS as int)[0] == brighten_spec(base, 7, 5),
        fade_palette(base, background, TRAIL_STEPS as int)[7] == background,
{
    lemma_blend_endpoints(base, background, 49);
    assert(fade_palette(base, background, 8)[7] == blend_spec(base, background, 49, 49));
}

/// The stream engine: its streams, the fade palette they are painted with,
/// and the density that sets how many there are.
pub struct MatrixEngine {
    drops: Vec<Drop>,
    trail_colors: Vec<RgbColor>,
    density: u32,
}

/// Computes `drop_count`.
pub fn total_drops(width: u16, density: u32) -> (r: usize)
    requires
        density <= MAX_DENSITY,
    ensures
        r == drop_count(width as int, density as int),
{
    let w: u64 = width as u64;
    proof {
        assert(w * density as u64 <= 65535 * 1_000_000) by (nonlinear_arith)
            requires w <= 65535, density <= 1_000_000;
    }
    let a: u64 = w * density as u64;
    let b: u64 = w * DENSITY_SCALE;
    let scaled: u64 = if a > b { a } else { b };
    ((2 * scaled + DENSITY_SCALE) / (2 * DENSITY_SCALE)) as usize
}

impl MatrixEngine {
    pub closed spec fn spec_drops(&self) -> Seq<Drop> {
        self.drops@
    }

    pub closed spec fn spec_trail(&self) -> Seq<RgbColor> {
        self.trail_colors@
    }

    pub closed spec fn spec_density(&self) -> u32 {
        self.density
    }

    /// Every stream is well formed and the palette has its eight entries.
    pub open spec fn wf(&self) -> bool {
        &&& self.spec_trail().len() == TRAIL_STEPS
        &&& self.spec_density() <= MAX_DENSITY
        &&& forall|i: int| 0 <= i < self.spec_drops().len() ==> #[trigger] self.spec_drops()[i].wf()
    }

    /// Builds the fade palette of `steps` entries from `base` towards `background`.
    pub fn calculate_trail_colors(base: RgbColor, background: RgbColor, steps: usize) -> (r: Vec<RgbColor>)
        requires
            2 <= steps <= 65536,
        ensures
            r@ == fade_palette(base, background, steps as int),
    {
        let last: u32 = (steps - 1) as u32;
        proof {
            assert(0 < last * last <= 65535 * 65535) by (nonlinear_arith)
                requires 1 <= last <= 65535;
        }
        let den: u32 = last * last;
        let mut colors: Vec<RgbColor> = Vec::new();
        colors.push(base.brighten(HEAD_BOOST_NUM, HEAD_BOOST_DEN));
        let mut i: usize = 1;
        while i < steps
            invariant
                1 <= i <= steps,
                steps <= 65536,
                den == (steps - 1) * (steps - 1),
                den > 0,
                colors@ =~= fade_palette(base, background, steps as int).take(i as int),
            decreases steps - i,
        {
            proof {
                assert(i * i <= 65535 * 65535) by (nonlinear_arith)
                    requires i < 65536;
            }
            let k: u32 = (i as u32) * (i as u32);
            colors.push(RgbColor::blend(base, background, k, den));
            i += 1;
        }
        colors
    }

    /// `width × density` fresh streams for a screen of `height` rows.
    pub fn create_drops(width: u16, height: u16, density: u32, char_set: &[char]) -> (r: Vec<Drop>)
        requires
            density <= MAX_DENSITY,
            char_set@.len() > 0,
        ensures
            r@.len() == drop_count(width as int, density as int),
            forall|i: int| 0 <= i < r@.len() ==> #[trigger] r@[i].is_fresh(height as int, char_set@),
    {
        let total = total_drops(width, density);
        let mut drops: Vec<Drop> = Vec::new();
        let mut i: usize = 0;
        while i < total
            invariant
                i <= total,
                char_set@.len() > 0,
                drops@.len() == i,
                forall|j: int| 0 <= j < i ==> #[trigger] drops@[j].is_fresh(height as int, char_set@),
            decreases total - i,
        {
            drops.push(Drop::new_random(height, char_set));
            i += 1;
        }
        drops
    }

    /// An engine for a screen of the given size, with its fade palette from
    /// `base_color` to `background_rgb` and `width × density` fresh streams.
    pub fn new(height: u16, width: u16, base_color: RgbColor, density: u32, background_rgb: RgbColor, char_set: &[char]) -> (r: Self)
        requires
            density <= MAX_DENSITY,
            char_set@.len() > 0,
        ensures
            r.wf(),
            r.spec_trail() == fade_palette(base_color, background_rgb, TRAIL_STEPS as int),
            r.spec_density() == density,
            r.spec_drops().len() == drop_count(width as int, density as int),
            forall|i: int| 0 <= i < r.spec_drops().len() ==> #[trigger] r.spec_drops()[i].is_fresh(height as int, char_set@),
    {
        let trail_colors = Self::calculate_trail_colors(base_color, background_rgb, TRAIL_STEPS);
        let drops = Self::create_drops(width, height, density, char_set);
        let r = MatrixEngine { drops, trail_colors, density };
        proof {
            assert forall|i: int| 0 <= i < r.spec_drops().len() implies #[trigger] r.spec_drops()[i].wf() by {
                assert(r.spec_drops()[i].is_fresh(height as int, char_set@));
            }
        }
        r
    }

    /// Brings the number of streams to `width × density` for the new width:
    /// existing streams are kept as they are, new ones appended, or the
    /// highest-indexed ones dropped.
    pub fn resize_drops(&mut self, new_width: u16, new_height: u16, char_set: &[char])
        requires
            old(self).wf(),
            char_set@.len() > 0,
        ensures
            final(self).wf(),
            final(self).spec_trail() == old(self).spec_trail(),
            final(self).spec_density() == old(self).spec_density(),
            final(self).spec_drops().len() == drop_count(new_width as int, old(self).spec_density() as int),
            forall|i: int| 0 <= i < final(self).spec_drops().len() && i < old(self).spec_drops().len()
                ==> #[trigger] final(self).spec_drops()[i] == old(self).spec_drops()[i],
            forall|i: int| old(self).spec_drops().len() <= i < final(self).spec_drops().len()
                ==> #[trigger] final(self).spec_drops()[i].is_fresh(new_height as int, char_set@),
    {
        let total = total_drops(new_width, self.density);
        if total > self.drops.len() {
            let ghost before = self.drops@;
            proof {
                assert forall|i: int| 0 <= i < before.len() implies #[trigger] before[i].wf() by {
                    assert(old(self).spec_drops()[i].wf());
                }
            }
            while self.drops.len() < total
                invariant
                    before.len() <= self.drops@.len() <= total,
                    char_set@.len() > 0,
                    self.trail_colors@ == old(self).trail_colors@,
                    self.density == old(self).density,
                    self.trail_colors@.len() == TRAIL_STEPS,
                    forall|i: int| 0 <= i < before.len() ==> #[trigger] self.drops@[i] == before[i],
                    forall|i: int| 0 <= i < before.len() ==> #[trigger] before[i].wf(),
                    forall|i: int| before.len() <= i < self.drops@.len()
                        ==> #[trigger] self.drops@[i].is_fresh(new_height as int, char_set@),
                decreases total - self.drops@.len(),
            {
                self.drops.push(Drop::new_random(new_height, char_set));
            }
            proof {
                assert forall|i: int| 0 <= i < self.drops@.len() implies #[trigger] self.drops@[i].wf() by {
                    if i < before.len() {
                        assert(self.drops@[i] == before[i]);
                    } else {
                        assert(self.drops@[i].is_fresh(new_height as int, char_set@));
                    }
                }
            }
        } else {
            self.drops.truncate(total);
        }
    }

    /// Advances every stream by one tick, all by the same `fall`.
    pub fn update_drops(&mut self, screen_height: u16, char_set: &[char], fall: i64)
        requires
            old(self).wf(),
            char_set@.len() > 0,
            0 <= fall <= MAX_FALL,
        ensures
            final(self).wf(),
            final(self).spec_trail() == old(self).spec_trail(),
            final(self).spec_density() == old(self).spec_density(),
            final(self).spec_drops().len() == old(self).spec_drops().len(),
            forall|i: int| 0 <= i < old(self).spec_drops().len() ==> #[trigger] old(self).spec_drops()[i].may_step(
                final(self).spec_drops()[i],
                screen_height as int,
                old(self).spec_density() as int,
                fall as int,
                char_set@,
            ),
    {
        let ghost before = self.drops@;
        proof {
            assert forall|j: int| 0 <= j < before.len() implies #[trigger] before[j].wf() by {
                assert(old(self).spec_drops()[j].wf());
            }
        }
        let n = self.drops.len();
        let mut i: usize = 0;
        while i < n
            invariant
                n == before.len(),
                self.drops@.len() == n,
                i <= n,
                char_set@.len() > 0,
                0 <= fall <= MAX_FALL,
                self.trail_colors@ == old(self).trail_colors@,
                self.trail_colors@.len() == TRAIL_STEPS,
                self.density == old(self).density,
                forall|j: int| 0 <= j < n ==> #[trigger] before[j].wf(),
                forall|j: int| 0 <= j < n ==> #[trigger] self.drops@[j].wf(),
                forall|j: int| i <= j < n ==> #[trigger] self.drops@[j] == before[j],
                forall|j: int| 0 <= j < i ==> #[trigger] before[j].may_step(
                    self.drops@[j],
                    screen_height as int,
                    self.density as int,
                    fall as int,
                    char_set@,
                ),
            decreases n - i,
        {
            let mut d = self.drops[i];
            d.update(screen_height, self.density, char_set, fall);
            self.drops.set(i, d);
            i += 1;
        }
    }

    /// Clears `screen` and draws every stream into it in order, stream `i`
    /// into column `i % width`, later streams over earlier ones.
    pub fn render_drops(&self, screen: &mut Screen)
        requires
            self.wf(),
            old(screen).wf(),
        ensures
            final(screen).wf(),
            final(screen).spec_height() == old(screen).spec_height(),
            final(screen).spec_width() == old(screen).spec_width(),
            final(screen).background() == old(screen).background(),
            !final(screen).is_stale(),
            forall|r: int, c: int| #![trigger final(screen).char_at(r, c)] final(screen).in_bounds(r, c)
                ==> final(screen).char_at(r, c) == painted_char(self.spec_drops(), final(screen).spec_width(), r, c),
            forall|r: int, c: int| #![trigger final(screen).color_at(r, c)] final(screen).in_bounds(r, c)
                ==> final(screen).color_at(r, c) == painted_color(
                    self.spec_drops(),
                    final(screen).spec_width(),
                    self.spec_trail(),
                    r,
                    c,
                ),
    {
        screen.clear();
        let width = screen.width();
        if width == 0 {
            return;
        }
        let n = self.drops.len();
        let mut i: usize = 0;
        while i < n
            invariant
                self.wf(),
                n == self.drops@.len(),
                i <= n,
                width == screen.spec_width(),
                width > 0,
                screen.wf(),
                screen.spec_height() == old(screen).spec_height(),
                screen.spec_width() == old(screen).spec_width(),
                screen.background() == old(screen).background(),
                !screen.is_stale(),
                forall|r: int, c: int| #![trigger screen.char_at(r, c)] screen.in_bounds(r, c)
                    ==> screen.char_at(r, c) == painted_char(self.drops@.take(i as int), width as int, r, c),
                forall|r: int, c: int| #![trigger screen.color_at(r, c)] screen.in_bounds(r, c)
                    ==> screen.color_at(r, c) == painted_color(
                        self.drops@.take(i as int),
                        width as int,
                        self.trail_colors@,
                        r,
                        c,
                    ),
            decreases n - i,
        {
            let col: u16 = (i % width as usize) as u16;
            let ghost mid = *screen;
            proof {
                assert(self.spec_drops()[i as int].wf());
            }
            self.drops[i].draw(screen, col, self.trail_colors.as_slice());
            proof {
                let t = self.drops@.take(i as int + 1);
                assert(t.drop_last() =~= self.drops@.take(i as int));
                assert(t.last() == self.drops@[i as int]);
                assert forall|r: int, c: int| #![trigger screen.char_at(r, c)] screen.in_bounds(r, c)
                    implies screen.char_at(r, c) == painted_char(t, width as int, r, c) by {
                    assert(mid.in_bounds(r, c));
                }
                assert forall|r: int, c: int| #![trigger screen.color_at(r, c)] screen.in_bounds(r, c)
                    implies screen.color_at(r, c) == painted_color(t, width as int, self.trail_colors@, r, c) by {
                    assert(mid.in_bounds(r, c));
                }
            }
            i += 1;
        }
        proof {
            assert(self.drops@.take(n as int) =~= self.drops@);
        }
    }

    /// One frame: advances every stream by `fall`, paints them into `current`,
    /// and returns the output that brings the terminal from `previous` to it.
    pub fn frame(&mut self, current: &mut Screen, previous: &Screen, screen_height: u16, char_set: &[char], fall: i64) -> (r: Vec<TermOp>)
        requires
            old(self).wf(),
            old(current).wf(),
            previous.wf(),
            char_set@.len() > 0,
            0 <= fall <= MAX_FALL,
        ensures
            final(self).wf(),
            final(current).wf(),
            final(current).spec_height() == old(current).spec_height(),
            final(current).spec_width() == old(current).spec_width(),
            final(current).background() == old(current).background(),
            !final(current).is_stale(),
            final(self).spec_trail() == old(self).spec_trail(),
            final(self).spec_density() == old(self).spec_density(),
            final(self).spec_drops().len() == old(self).spec_drops().len(),
            forall|i: int| 0 <= i < old(self).spec_drops().len() ==> #[trigger] old(self).spec_drops()[i].may_step(
                final(self).spec_drops()[i],
                screen_height as int,
                old(self).spec_density() as int,
                fall as int,
                char_set@,
            ),
            forall|r: int, c: int| #![trigger final(current).char_at(r, c)] final(current).in_bounds(r, c)
                ==> final(current).char_at(r, c) == painted_char(final(self).spec_drops(), final(current).spec_width(), r, c),
            forall|r: int, c: int| #![trigger final(current).color_at(r, c)] final(current).in_bounds(r, c)
                ==> final(current).color_at(r, c) == painted_color(
                    final(self).spec_drops(),
                    final(current).spec_width(),
                    final(self).spec_trail(),
                    r,
                    c,
                ),
            r@ == diff_ops(*final(current), *previous),
    {
        self.update_drops(screen_height, char_set, fall);
        self.render_drops(current);
        current.render_changes(previous)
    }

    pub fn drops(&self) -> (r: &Vec<Drop>)
        ensures
            r@ == self.spec_drops(),
    {
        &self.drops
    }

    pub fn trail_colors(&self) -> (r: &Vec<RgbColor>)
        ensures
            r@ == self.spec_trail(),
    {
        &self.trail_colors
    }

    pub fn density(&self) -> (r: u32)
        ensures
            r == self.spec_density(),
    {
        self.density
    }
}

} // verus!
