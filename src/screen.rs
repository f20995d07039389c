use vstd::prelude::*;
use crate::color::RgbColor;

verus! {

/// One instruction to the terminal.
#[derive(Debug, Clone, Copy, PartialEq, Eq, Structural)]
pub enum TermOp {
    /// Put the cursor at a cell.
    MoveTo { col: u16, row: u16 },
    /// Set the foreground colour.
    SetColor(RgbColor),
    /// Write a character at the cursor.
    Print(char),
}

/// A grid of characters, each with an optional colour (`None` paints with
/// the background colour).
pub struct Screen {
    chars: Vec<Vec<char>>,
    colors: Vec<Vec<Option<RgbColor>>>,
    height: u16,
    width: u16,
    background_rgb: RgbColor,
    stale: bool,
}

fn blank_chars(height: u16, width: u16) -> (r: Vec<Vec<char>>)
    ensures
        r@.len() == height,
        forall|i: int| #![trigger r@[i]] 0 <= i < height ==> r@[i]@.len() == width
            && forall|j: int| 0 <= j < width ==> r@[i]@[j] == ' ',
{
    let mut rows: Vec<Vec<char>> = Vec::new();
    let mut i: u16 = 0;
    while i < height
        invariant
            i <= height,
            rows@.len() == i,
            forall|k: int| #![trigger rows@[k]] 0 <= k < i ==> rows@[k]@.len() == width
                && forall|j: int| 0 <= j < width ==> rows@[k]@[j] == ' ',
        decreases height - i,
    {
        let row: Vec<char> = vec![' '; width as usize];
        rows.push(row);
        i += 1;
    }
    rows
}

fn blank_colors(height: u16, width: u16) -> (r: Vec<Vec<Option<RgbColor>>>)
    ensures
        r@.len() == height,
        forall|i: int| #![trigger r@[i]] 0 <= i < height ==> r@[i]@.len() == width
            && forall|j: int| 0 <= j < width ==> r@[i]@[j] is None,
{
    let mut rows: Vec<Vec<Option<RgbColor>>> = Vec::new();
    let mut i: u16 = 0;
    while i < height
        invariant
            i <= height,
            rows@.len() == i,
            forall|k: int| #![trigger rows@[k]] 0 <= k < i ==> rows@[k]@.len() == width
                && forall|j: int| 0 <= j < width ==> rows@[k]@[j] is None,
        decreases height - i,
    {
        let row: Vec<Option<RgbColor>> = vec![None; width as usize];
        rows.push(row);
        i += 1;
    }
    rows
}

impl Screen {
    pub closed spec fn spec_height(&self) -> int {
        self.height as int
    }

    pub closed spec fn spec_width(&self) -> int {
        self.width as int
    }

    pub closed spec fn background(&self) -> RgbColor {
        self.background_rgb
    }

    /// The grid does not hold what the terminal shows: set by `resize`, so that
    /// a diff against this screen redraws every cell, and dropped once the
    /// screen is painted afresh from `clear`.
    pub closed spec fn is_stale(&self) -> bool {
        self.stale
    }

    pub closed spec fn char_at(&self, r: int, c: int) -> char {
        self.chars@[r]@[c]
    }

    pub closed spec fn color_at(&self, r: int, c: int) -> Option<RgbColor> {
        self.colors@[r]@[c]
    }

    /// The colour a cell is painted with.
    pub open spec fn resolved_at(&self, r: int, c: int) -> RgbColor {
        match self.color_at(r, c) {
            Some(c) => c,
            None => self.background(),
        }
    }

    pub open spec fn in_bounds(&self, r: int, c: int) -> bool {
        0 <= r < self.spec_height() && 0 <= c < self.spec_width()
    }

    /// Both grids have `height` rows of `width` cells.
    pub closed spec fn wf(&self) -> bool {
        &&& self.chars@.len() == self.height
        &&& self.colors@.len() == self.height
        &&& forall|r: int| #![trigger self.chars@[r]] 0 <= r < self.height
            ==> self.chars@[r]@.len() == self.width
        &&& forall|r: int| #![trigger self.colors@[r]] 0 <= r < self.height
            ==> self.colors@[r]@.len() == self.width
    }

    /// Every cell is a space with no colour.
    pub open spec fn is_blank(&self) -> bool {
        forall|r: int, c: int| #![trigger self.char_at(r, c)] #![trigger self.color_at(r, c)]
            self.in_bounds(r, c) ==> self.char_at(r, c) == ' ' && self.color_at(r, c) is None
    }

    /// A blank screen of the given size.
    pub fn new(height: u16, width: u16, background_rgb: RgbColor) -> (r: Self)
        ensures
            r.wf(),
            r.spec_height() == height,
            r.spec_width() == width,
            r.background() == background_rgb,
            r.is_blank(),
            !r.is_stale(),
    {
        Screen {
            chars: blank_chars(height, width),
            colors: blank_colors(height, width),
            height,
            width,
            background_rgb,
            stale: false,
        }
    }

    /// Reallocates both grids at the new size, blank, and marks the screen
    /// stale: what the terminal shows is no longer known.
    pub fn resize(&mut self, new_height: u16, new_width: u16)
        ensures
            final(self).wf(),
            final(self).spec_height() == new_height,
            final(self).spec_width() == new_width,
            final(self).background() == old(self).background(),
            final(self).is_blank(),
            final(self).is_stale(),
    {
        self.stale = true;
        self.height = new_height;
        self.width = new_width;
        self.chars = blank_chars(new_height, new_width);
        self.colors = blank_colors(new_height, new_width);
    }

    /// Sets every cell to a space with no colour, keeping the size; the screen
    /// is then being painted afresh and is no longer stale.
    pub fn clear(&mut self)
        requires
            old(self).wf(),
        ensures
            final(self).wf(),
            final(self).spec_height() == old(self).spec_height(),
            final(self).spec_width() == old(self).spec_width(),
            final(self).background() == old(self).background(),
            final(self).is_blank(),
            !final(self).is_stale(),
    {
        self.stale = false;
        self.chars = blank_chars(self.height, self.width);
        self.colors = blank_colors(self.height, self.width);
    }

    pub fn height(&self) -> (r: u16)
        ensures
            r == self.spec_height(),
    {
        self.height
    }

    pub fn width(&self) -> (r: u16)
        ensures
            r == self.spec_width(),
    {
        self.width
    }

    pub fn background_rgb(&self) -> (r: RgbColor)
        ensures
            r == self.background(),
    {
        self.background_rgb
    }

    /// The character at a cell, or `None` outside the grid.
    pub fn get_char(&self, row: u16, col: u16) -> (r: Option<char>)
        requires
            self.wf(),
        ensures
            r == (if self.in_bounds(row as int, col as int) {
                Some(self.char_at(row as int, col as int))
            } else {
                None
            }),
    {
        if row < self.height && col < self.width {
            Some(self.chars[row as usize][col as usize])
        } else {
            None
        }
    }

    /// The colour of a cell (`None` for an uncoloured cell and outside the grid).
    pub fn get_color(&self, row: u16, col: u16) -> (r: Option<RgbColor>)
        requires
            self.wf(),
        ensures
            r == (if self.in_bounds(row as int, col as int) {
                self.color_at(row as int, col as int)
            } else {
                None
            }),
    {
        if row < self.height && col < self.width {
            self.colors[row as usize][col as usize]
        } else {
            None
        }
    }

    /// Writes a character and a colour into one cell.
    pub fn put(&mut self, row: u16, col: u16, ch: char, color: Option<RgbColor>)
        requires
            old(self).wf(),
            old(self).in_bounds(row as int, col as int),
        ensures
            final(self).wf(),
            final(self).spec_height() == old(self).spec_height(),
            final(self).spec_width() == old(self).spec_width(),
            final(self).background() == old(self).background(),
            final(self).is_stale() == old(self).is_stale(),
            forall|r: int, c: int| #![trigger final(self).char_at(r, c)]
                old(self).in_bounds(r, c) ==> final(self).char_at(r, c) == (if r == row && c == col {
                    ch
                } else {
                    old(self).char_at(r, c)
                }),
            forall|r: int, c: int| #![trigger final(self).color_at(r, c)]
                old(self).in_bounds(r, c) ==> final(self).color_at(r, c) == (if r == row && c == col {
                    color
                } else {
                    old(self).color_at(r, c)
                }),
    {
        self.chars[row as usize].set(col as usize, ch);
        self.colors[row as usize].set(col as usize, color);
    }
}


/// The colour a cell of colour `c` is painted with over background `bg`.
pub open spec fn painted_with(c: Option<RgbColor>, bg: RgbColor) -> RgbColor {
    match c {
        Some(c) => c,
        None => bg,
    }
}

/// A cell has to be written again: the previous screen is stale, or the cell
/// lies outside its grid, or the character or the painted colour (an unset
/// colour painting with the background) differs there.
pub open spec fn cell_changed(cur: Screen, prev: Screen, r: int, c: int) -> bool {
    ||| prev.is_stale()
    ||| !prev.in_bounds(r, c)
    ||| cur.char_at(r, c) != prev.char_at(r, c)
    ||| cur.resolved_at(r, c) != painted_with(prev.color_at(r, c), cur.background())
}

/// What one cell adds to the output, given the colour set last in this pass,
/// and the colour set last afterwards.
pub open spec fn cell_ops(cur: Screen, prev: Screen, r: int, c: int, last: Option<RgbColor>) -> (
    Seq<TermOp>,
    Option<RgbColor>,
) {
    if cell_changed(cur, prev, r, c) {
        let color = cur.resolved_at(r, c);
        let set = if last == Some(color) {
            Seq::<TermOp>::empty()
        } else {
            seq![TermOp::SetColor(color)]
        };
        (
            seq![TermOp::MoveTo { col: c as u16, row: r as u16 }] + set + seq![
                TermOp::Print(cur.char_at(r, c)),
            ],
            Some(color),
        )
    } else {
        (Seq::<TermOp>::empty(), last)
    }
}

/// The output for the first `k` cells of `cur` in row-major order, and the
/// colour set last.
pub open spec fn diff_prefix(cur: Screen, prev: Screen, k: nat) -> (Seq<TermOp>, Option<RgbColor>)
    decreases k,
{
    if k == 0 || cur.spec_width() == 0 {
        (Seq::<TermOp>::empty(), None)
    } else {
        let before = diff_prefix(cur, prev, (k - 1) as nat);
        let w = cur.spec_width();
        let step = cell_ops(cur, prev, (k - 1) / w, (k - 1) % w, before.1);
        (before.0 + step.0, step.1)
    }
}

/// The whole output of a diff pass of `cur` against `prev`.
pub open spec fn diff_ops(cur: Screen, prev: Screen) -> Seq<TermOp> {
    diff_prefix(cur, prev, (cur.spec_height() * cur.spec_width()) as nat).0
}

/// Two screens of the same size and background, with the same characters and
/// colours in every cell.
pub open spec fn same_content(a: Screen, b: Screen) -> bool {
    &&& a.spec_height() == b.spec_height()
    &&& a.spec_width() == b.spec_width()
    &&& forall|r: int, c: int| #![trigger a.char_at(r, c)] a.in_bounds(r, c)
        ==> a.char_at(r, c) == b.char_at(r, c) && a.color_at(r, c) == b.color_at(r, c)
}

proof fn lemma_cell_of_index(k: int, h: int, w: int)
    requires
        0 <= k < h * w,
        w > 0,
    ensures
        0 <= k / w < h,
        0 <= k % w < w,
{
    vstd::arithmetic::div_mod::lemma_fundamental_div_mod(k, w);
    vstd::arithmetic::div_mod::lemma_mod_bound(k, w);
    let q = k / w;
    let r = k % w;
    assert(0 <= q < h) by (nonlinear_arith)
        requires k == w * q + r, 0 <= r < w, 0 <= k < h * w, w > 0;
}

/// A diff pass between screens of identical size and content emits nothing,
/// unless the previous screen was resized since it was last painted.
pub proof fn lemma_unchanged_emits_nothing(cur: Screen, prev: Screen)
    requires
        cur.wf(),
        prev.wf(),
        same_content(cur, prev),
        !prev.is_stale(),
    ensures
        diff_ops(cur, prev).len() == 0,
{
    let h = cur.spec_height();
    let w = cur.spec_width();
    assert(h * w >= 0) by (nonlinear_arith) requires h >= 0, w >= 0;
    lemma_prefix_empty(cur, prev, (h * w) as nat);
}

proof fn lemma_prefix_empty(cur: Screen, prev: Screen, k: nat)
    requires
        cur.wf(),
        prev.wf(),
        same_content(cur, prev),
        !prev.is_stale(),
        k <= cur.spec_height() * cur.spec_width(),
    ensures
        diff_prefix(cur, prev, k).0.len() == 0,
        diff_prefix(cur, prev, k).1 is None,
    decreases k,
{
    if k > 0 && cur.spec_width() > 0 {
        lemma_prefix_empty(cur, prev, (k - 1) as nat);
        let w = cur.spec_width();
        lemma_cell_of_index(k - 1, cur.spec_height(), w);
        let r = (k - 1) / w;
        let c = (k - 1) % w;
        assert(cur.char_at(r, c) == prev.char_at(r, c));
        assert(!cell_changed(cur, prev, r, c));
    }
}

/// `ops` moves to cell `(r, c)` and prints `ch` there, with at most a colour
/// change in between.
pub open spec fn writes_cell(ops: Seq<TermOp>, r: int, c: int, ch: char) -> bool {
    exists|j: int| #![trigger ops[j]]
        0 <= j && ops[j] == (TermOp::MoveTo { col: c as u16, row: r as u16 }) && ((j + 1 < ops.len()
            && ops[j + 1] == TermOp::Print(ch)) || (j + 2 < ops.len() && ops[j + 2] == TermOp::Print(ch)))
}

/// Against a stale previous screen every cell is written: the output moves to
/// each cell of `cur` and prints its character.
pub proof fn lemma_stale_redraws_everything(cur: Screen, prev: Screen)
    requires
        cur.wf(),
        prev.is_stale(),
    ensures
        forall|r: int, c: int| #![trigger cur.char_at(r, c)] cur.in_bounds(r, c)
            ==> writes_cell(diff_ops(cur, prev), r, c, cur.char_at(r, c)),
{
    let h = cur.spec_height();
    let w = cur.spec_width();
    assert forall|r: int, c: int| #![trigger cur.char_at(r, c)] cur.in_bounds(r, c)
        implies writes_cell(diff_ops(cur, prev), r, c, cur.char_at(r, c)) by {
        let k = r * w + c;
        assert(0 <= k < h * w) by (nonlinear_arith)
            requires 0 <= r < h, 0 <= c < w, k == r * w + c;
        vstd::arithmetic::div_mod::lemma_fundamental_div_mod_converse(k, w, r, c);
        lemma_stale_prefix(cur, prev, (k + 1) as nat, (h * w) as nat);
    }
}

proof fn lemma_stale_prefix(cur: Screen, prev: Screen, k: nat, m: nat)
    requires
        cur.wf(),
        prev.is_stale(),
        cur.spec_width() > 0,
        1 <= k <= m,
    ensures
        writes_cell(
            diff_prefix(cur, prev, m).0,
            (k - 1) / cur.spec_width(),
            (k - 1) % cur.spec_width(),
            cur.char_at((k - 1) / cur.spec_width(), (k - 1) % cur.spec_width()),
        ),
    decreases m,
{
    let w = cur.spec_width();
    let r = (k - 1) / w;
    let c = (k - 1) % w;
    let ch = cur.char_at(r, c);
    let before = diff_prefix(cur, prev, (m - 1) as nat);
    let step = cell_ops(cur, prev, (m - 1) / w, (m - 1) % w, before.1);
    let ops = diff_prefix(cur, prev, m).0;
    assert(ops == before.0 + step.0);
    if m == k {
        let j = before.0.len() as int;
        assert(ops[j] == step.0[0]);
        if before.1 == Some(cur.resolved_at(r, c)) {
            assert(ops[j + 1] == step.0[1]);
        } else {
            assert(ops[j + 2] == step.0[2]);
        }
    } else {
        lemma_stale_prefix(cur, prev, k, (m - 1) as nat);
        let j = choose|j: int| #![trigger before.0[j]]
            0 <= j && before.0[j] == (TermOp::MoveTo { col: c as u16, row: r as u16 }) && ((j + 1 < before.0.len()
                && before.0[j + 1] == TermOp::Print(ch)) || (j + 2 < before.0.len() && before.0[j + 2]
                == TermOp::Print(ch)));
        assert(ops[j] == before.0[j]);
        if j + 1 < before.0.len() && before.0[j + 1] == TermOp::Print(ch) {
            assert(ops[j + 1] == before.0[j + 1]);
        } else {
            assert(ops[j + 2] == before.0[j + 2]);
        }
    }
}

impl Screen {
    /// The terminal output that brings the previously written `previous` to
    /// `self`: for each changed cell in row-major order, a cursor move, a colour
    /// change when the colour differs from the one set last, and the character.
    pub fn render_changes(&self, previous: &Screen) -> (r: Vec<TermOp>)
        requires
            self.wf(),
            previous.wf(),
        ensures
            r@ == diff_ops(*self, *previous),
    {
        let mut out: Vec<TermOp> = Vec::new();
        let mut last: Option<RgbColor> = None;
        let w: u32 = self.width as u32;
        proof {
            assert(self.height as u32 * w <= 65535 * 65535) by (nonlinear_arith)
                requires self.height <= 65535, w <= 65535;
        }
        let total: u32 = self.height as u32 * w;
        let mut k: u32 = 0;
        if w == 0 {
            return out;
        }
        while k < total
            invariant
                self.wf(),
                previous.wf(),
                w == self.spec_width(),
                w > 0,
                total == self.spec_height() * self.spec_width(),
                k <= total,
                (out@, last) == diff_prefix(*self, *previous, k as nat),
            decreases total - k,
        {
            proof {
                lemma_cell_of_index(k as int, self.spec_height(), w as int);
            }
            let row: u16 = (k / w) as u16;
            let col: u16 = (k % w) as u16;
            let ch = self.chars[row as usize][col as usize];
            let color = match self.colors[row as usize][col as usize] {
                Some(c) => c,
                None => self.background_rgb,
            };
            let changed = if previous.stale || row >= previous.height || col >= previous.width {
                true
            } else {
                let pcolor = match previous.colors[row as usize][col as usize] {
                    Some(c) => c,
                    None => self.background_rgb,
                };
                ch != previous.chars[row as usize][col as usize] || color != pcolor
            };
            if changed {
                out.push(TermOp::MoveTo { col, row });
                let need_set = match last {
                    Some(l) => l != color,
                    None => true,
                };
                if need_set {
                    out.push(TermOp::SetColor(color));
                }
                out.push(TermOp::Print(ch));
                last = Some(color);
            }
            proof {
                let step = cell_ops(*self, *previous, row as int, col as int, diff_prefix(*self, *previous, k as nat).1);
                assert(out@ =~= diff_prefix(*self, *previous, k as nat).0 + step.0);
            }
            k += 1;
        }
        out
    }
}

} // verus!
