use vstd::prelude::*;

verus! {

/// The largest value of a colour channel.
pub const MAX_CHANNEL: u8 = 255;

/// A colour with three 8-bit channels.
#[derive(Debug, Clone, Copy, PartialEq, Eq, Structural)]
pub struct RgbColor {
    pub r: u8,
    pub g: u8,
    pub b: u8,
}

/// `x / d` rounded to the nearest integer, halves away from zero, for `x >= 0`.
pub open spec fn round_ratio(x: int, d: int) -> int {
    (2 * x + d) / (2 * d)
}

/// The factor `num / den` clamped to `[0, 1]`, as a numerator over `den`.
pub open spec fn clamped_num(num: int, den: int) -> int {
    if num > den { den } else { num }
}

/// One channel of a blend: `round(a * (1 - f) + b * f)` with `f = num / den` clamped to `[0, 1]`.
pub open spec fn blend_channel(a: int, b: int, num: int, den: int) -> int {
    let f = clamped_num(num, den);
    round_ratio(a * (den - f) + b * f, den)
}

/// One channel brightened: `min(255, trunc(c * num / den))`.
pub open spec fn brighten_channel(c: int, num: int, den: int) -> int {
    let v = c * num / den;
    if v > MAX_CHANNEL as int { MAX_CHANNEL as int } else { v }
}

/// The colour `blend` returns.
pub open spec fn blend_spec(a: RgbColor, b: RgbColor, num: int, den: int) -> RgbColor {
    RgbColor {
        r: blend_channel(a.r as int, b.r as int, num, den) as u8,
        g: blend_channel(a.g as int, b.g as int, num, den) as u8,
        b: blend_channel(a.b as int, b.b as int, num, den) as u8,
    }
}

/// The colour `brighten` returns.
pub open spec fn brighten_spec(c: RgbColor, num: int, den: int) -> RgbColor {
    RgbColor {
        r: brighten_channel(c.r as int, num, den) as u8,
        g: brighten_channel(c.g as int, num, den) as u8,
        b: brighten_channel(c.b as int, num, den) as u8,
    }
}

proof fn lemma_blend_channel_bounds(a: int, b: int, num: int, den: int)
    requires
        0 <= a <= 255,
        0 <= b <= 255,
        0 <= num,
        0 < den,
    ensures
        0 <= blend_channel(a, b, num, den) <= 255,
{
    let f = clamped_num(num, den);
    let x = a * (den - f) + b * f;
    assert(0 <= x <= 255 * den) by (nonlinear_arith)
        requires 0 <= a <= 255, 0 <= b <= 255, 0 <= f <= den, x == a * (den - f) + b * f;
    assert(0 <= (2 * x + den) / (2 * den) <= 255) by (nonlinear_arith)
        requires 0 <= x <= 255 * den, 0 < den;
}

fn blend_one(a: u8, b: u8, num: u32, den: u32) -> (r: u8)
    requires
        den > 0,
    ensures
        r as int == blend_channel(a as int, b as int, num as int, den as int),
{
    let f: u64 = if num > den { den as u64 } else { num as u64 };
    let d: u64 = den as u64;
    proof {
        lemma_blend_channel_bounds(a as int, b as int, num as int, den as int);
        assert(a as u64 * (d - f) <= 255 * d) by (nonlinear_arith)
            requires a <= 255, f <= d;
        assert(b as u64 * f <= 255 * d) by (nonlinear_arith)
            requires b <= 255, f <= d;
    }
    let x: u64 = a as u64 * (d - f) + b as u64 * f;
    ((2 * x + d) / (2 * d)) as u8
}

fn brighten_one(c: u8, num: u32, den: u32) -> (r: u8)
    requires
        den > 0,
    ensures
        r as int == brighten_channel(c as int, num as int, den as int),
{
    proof {
        assert(c as u64 * num as u64 <= 255 * 0xffff_ffff) by (nonlinear_arith)
            requires c <= 255, num <= 0xffff_ffff;
    }
    let v: u64 = c as u64 * num as u64 / den as u64;
    if v > MAX_CHANNEL as u64 { MAX_CHANNEL } else { v as u8 }
}

impl RgbColor {
    /// Interpolates channel by channel from `start` towards `target` by the
    /// factor `num / den`, clamped to `[0, 1]`, rounding to the nearest integer.
    pub fn blend(start: Self, target: Self, num: u32, den: u32) -> (r: Self)
        requires
            den > 0,
        ensures
            r == blend_spec(start, target, num as int, den as int),
    {
        RgbColor {
            r: blend_one(start.r, target.r, num, den),
            g: blend_one(start.g, target.g, num, den),
            b: blend_one(start.b, target.b, num, den),
        }
    }

    /// Multiplies each channel by `num / den`, truncating, and caps it at the
    /// largest channel value.
    pub fn brighten(self, num: u32, den: u32) -> (r: Self)
        requires
            den > 0,
        ensures
            r == brighten_spec(self, num as int, den as int),
    {
        RgbColor {
            r: brighten_one(self.r, num, den),
            g: brighten_one(self.g, num, den),
            b: brighten_one(self.b, num, den),
        }
    }
}


/// Blending by factor 0 gives the start colour and by factor 1 the target, exactly.
pub proof fn lemma_blend_endpoints(a: RgbColor, b: RgbColor, den: int)
    requires
        den > 0,
    ensures
        blend_spec(a, b, 0, den) == a,
        blend_spec(a, b, den, den) == b,
{
    assert forall|x: int, y: int| 0 <= x <= 255 && 0 <= y <= 255 implies
        blend_channel(x, y, 0, den) == x && blend_channel(x, y, den, den) == y by {
        assert(x * (den - 0) + y * 0 == x * den) by (nonlinear_arith);
        assert(x * (den - den) + y * den == y * den) by (nonlinear_arith);
        lemma_round_multiple(x, den);
        lemma_round_multiple(y, den);
    }
}

proof fn lemma_round_multiple(x: int, d: int)
    requires
        d > 0,
    ensures
        round_ratio(x * d, d) == x,
{
    assert(2 * (x * d) + d == x * (2 * d) + d) by (nonlinear_arith);
    vstd::arithmetic::div_mod::lemma_fundamental_div_mod_converse(2 * (x * d) + d, 2 * d, x, d);
}

/// Blending a colour with itself gives it back, whatever the factor.
pub proof fn lemma_blend_fixed_point(c: RgbColor, num: int, den: int)
    requires
        num >= 0,
        den > 0,
    ensures
        blend_spec(c, c, num, den) == c,
{
    let f = clamped_num(num, den);
    assert forall|x: int| 0 <= x <= 255 implies blend_channel(x, x, num, den) == x by {
        assert(x * (den - f) + x * f == x * den) by (nonlinear_arith);
        lemma_round_multiple(x, den);
    }
}

/// Brightening by factor 1 leaves a colour unchanged, and no factor takes a
/// channel past the largest channel value.
pub proof fn lemma_brighten_identity_and_cap(c: RgbColor, num: int, den: int)
    requires
        num >= 0,
        den > 0,
    ensures
        brighten_spec(c, 1, 1) == c,
        brighten_channel(c.r as int, num, den) <= MAX_CHANNEL as int,
        brighten_channel(c.g as int, num, den) <= MAX_CHANNEL as int,
        brighten_channel(c.b as int, num, den) <= MAX_CHANNEL as int,
{
}

/// Why the digits of a colour literal were refused.
#[derive(Debug, Clone, Copy, PartialEq, Eq, Structural)]
pub enum ColorParseError {
    /// The text is not three fields separated by commas.
    Format,
    /// The red field is not a number from 0 to 255.
    Red,
    /// The green field is not a number from 0 to 255.
    Green,
    /// The blue field is not a number from 0 to 255.
    Blue,
}

/// The text split at every comma, as `str::split(',')` splits it.
pub open spec fn fields(s: Seq<char>) -> Seq<Seq<char>>
    decreases s.len(),
{
    if s.len() == 0 {
        seq![Seq::<char>::empty()]
    } else {
        let rest = fields(s.drop_last());
        if s.last() == ',' {
            rest.push(Seq::<char>::empty())
        } else {
            rest.update(rest.len() - 1, rest.last().push(s.last()))
        }
    }
}

pub open spec fn is_digit(c: char) -> bool {
    '0' <= c && c <= '9'
}

pub open spec fn digit_value(c: char) -> int {
    c as int - '0' as int
}

/// The decimal value of a run of digits.
pub open spec fn digits_value(s: Seq<char>) -> int
    decreases s.len(),
{
    if s.len() == 0 {
        0
    } else {
        10 * digits_value(s.drop_last()) + digit_value(s.last())
    }
}

/// The digits of a number literal, after an optional leading `+`.
pub open spec fn number_body(s: Seq<char>) -> Seq<char> {
    if s.len() > 0 && s[0] == '+' { s.skip(1) } else { s }
}

/// What `u8::from_str` gives: a run of decimal digits after an optional `+`,
/// whose value fits in a byte.
pub open spec fn byte_of(s: Seq<char>) -> Option<u8> {
    let body = number_body(s);
    if body.len() > 0 && (forall|i: int| 0 <= i < body.len() ==> is_digit(body[i]))
        && digits_value(body) <= 255 {
        Some(digits_value(body) as u8)
    } else {
        None
    }
}

/// What a colour literal `R,G,B` denotes, or why it is refused.
pub open spec fn parse_spec(s: Seq<char>) -> Result<RgbColor, ColorParseError> {
    let f = fields(s);
    if f.len() != 3 {
        Err(ColorParseError::Format)
    } else if byte_of(f[0]) is None {
        Err(ColorParseError::Red)
    } else if byte_of(f[1]) is None {
        Err(ColorParseError::Green)
    } else if byte_of(f[2]) is None {
        Err(ColorParseError::Blue)
    } else {
        Ok(RgbColor { r: byte_of(f[0])->0, g: byte_of(f[1])->0, b: byte_of(f[2])->0 })
    }
}

pub open spec fn views_of(v: Seq<Vec<char>>) -> Seq<Seq<char>> {
    v.map_values(|p: Vec<char>| p@)
}

fn split_fields(s: &str) -> (r: Vec<Vec<char>>)
    ensures
        views_of(r@) == fields(s@),
{
    let n = s.unicode_len();
    let mut parts: Vec<Vec<char>> = Vec::new();
    parts.push(Vec::new());
    let mut i: usize = 0;
    proof {
        assert(s@.take(0) =~= Seq::<char>::empty());
        assert(views_of(parts@) =~= fields(s@.take(0)));
    }
    while i < n
        invariant
            n == s@.len(),
            0 <= i <= n,
            parts@.len() >= 1,
            views_of(parts@) == fields(s@.take(i as int)),
        decreases n - i,
    {
        let c = s.get_char(i);
        let ghost before = parts@;
        proof {
            assert(s@.take(i as int + 1).drop_last() =~= s@.take(i as int));
        }
        if c == ',' {
            parts.push(Vec::new());
            proof {
                assert(views_of(parts@) =~= views_of(before).push(Seq::<char>::empty()));
            }
        } else {
            let last = parts.len() - 1;
            let mut cur = parts[last].clone();
            proof { assert(cur@ == before[last as int]@); }
            cur.push(c);
            parts.set(last, cur);
            proof {
                assert(views_of(parts@) =~= views_of(before).update(
                    last as int,
                    views_of(before).last().push(c),
                ));
            }
        }
        i += 1;
    }
    proof {
        assert(s@.take(n as int) =~= s@);
    }
    parts
}

fn parse_byte(p: &Vec<char>) -> (r: Option<u8>)
    ensures
        r == byte_of(p@),
{
    let n = p.len();
    let start: usize = if n > 0 && p[0] == '+' { 1 } else { 0 };
    let ghost body = number_body(p@);
    proof {
        assert(body =~= p@.skip(start as int));
    }
    if start == n {
        return None;
    }
    let mut acc: u32 = 0;
    let mut i: usize = start;
    while i < n
        invariant
            start <= i <= n,
            n == p@.len(),
            body == p@.skip(start as int),
            body == number_body(p@),
            forall|j: int| 0 <= j < i - start ==> is_digit(body[j]),
            acc as int == if digits_value(body.take(i - start)) > 256 {
                256
            } else {
                digits_value(body.take(i - start))
            },
        decreases n - i,
    {
        let c = p[i];
        if !('0' <= c && c <= '9') {
            proof {
                assert(body.len() == n - start);
                assert(body[i - start] == c);
                assert(!is_digit(body[i - start]));
            }
            return None;
        }
        let d: u32 = (c as u32) - ('0' as u32);
        let ghost k = i - start;
        proof {
            assert(body.take(k + 1).drop_last() =~= body.take(k));
            assert(body.take(k + 1).last() == c);
        }
        acc = acc * 10 + d;
        if acc > 256 {
            acc = 256;
        }
        i += 1;
    }
    proof {
        assert(body.take(n - start) =~= body);
    }
    if acc > 255 { None } else { Some(acc as u8) }
}

impl RgbColor {
    /// Reads a colour written `R,G,B`, each field a number from 0 to 255.
    pub fn from_str(s: &str) -> (r: Result<RgbColor, ColorParseError>)
        ensures
            r == parse_spec(s@),
    {
        let parts = split_fields(s);
        proof {
            assert(parts@.len() == fields(s@).len());
        }
        if parts.len() != 3 {
            return Err(ColorParseError::Format);
        }
        proof {
            assert(parts@[0]@ == fields(s@)[0]);
            assert(parts@[1]@ == fields(s@)[1]);
            assert(parts@[2]@ == fields(s@)[2]);
        }
        let r = match parse_byte(&parts[0]) {
            Some(v) => v,
            None => return Err(ColorParseError::Red),
        };
        let g = match parse_byte(&parts[1]) {
            Some(v) => v,
            None => return Err(ColorParseError::Green),
        };
        let b = match parse_byte(&parts[2]) {
            Some(v) => v,
            None => return Err(ColorParseError::Blue),
        };
        Ok(RgbColor { r, g, b })
    }
}

/// A named colour theme.
#[derive(Debug, Clone, Copy, PartialEq, Eq, Structural)]
pub enum ColorTheme {
    Green,
    Amber,
    Red,
    Orange,
    Blue,
    Purple,
    Cyan,
    Pink,
    White,
}

pub open spec fn rgb(r: u8, g: u8, b: u8) -> RgbColor {
    RgbColor { r, g, b }
}

/// The base colour of each theme.
pub open spec fn theme_rgb(t: ColorTheme) -> RgbColor {
    match t {
        ColorTheme::Green => rgb(0, 255, 0),
        ColorTheme::Amber => rgb(255, 191, 0),
        ColorTheme::Red => rgb(255, 0, 0),
        ColorTheme::Orange => rgb(255, 165, 0),
        ColorTheme::Blue => rgb(0, 150, 255),
        ColorTheme::Purple => rgb(128, 0, 255),
        ColorTheme::Cyan => rgb(0, 255, 255),
        ColorTheme::Pink => rgb(255, 20, 147),
        ColorTheme::White => rgb(255, 255, 255),
    }
}

impl ColorTheme {
    /// The base colour of the theme.
    pub fn to_rgb(self) -> (r: RgbColor)
        ensures
            r == theme_rgb(self),
    {
        match self {
            ColorTheme::Green => RgbColor { r: 0, g: 255, b: 0 },
            ColorTheme::Amber => RgbColor { r: 255, g: 191, b: 0 },
            ColorTheme::Red => RgbColor { r: 255, g: 0, b: 0 },
            ColorTheme::Orange => RgbColor { r: 255, g: 165, b: 0 },
            ColorTheme::Blue => RgbColor { r: 0, g: 150, b: 255 },
            ColorTheme::Purple => RgbColor { r: 128, g: 0, b: 255 },
            ColorTheme::Cyan => RgbColor { r: 0, g: 255, b: 255 },
            ColorTheme::Pink => RgbColor { r: 255, g: 20, b: 147 },
            ColorTheme::White => RgbColor { r: 255, g: 255, b: 255 },
        }
    }
}

/// A channel as a terminal reports it: values up to 255 are taken as they are,
/// larger ones are 16-bit and scaled to 8 bits, rounding to the nearest.
pub open spec fn normalized_channel(v: int) -> int {
    if v <= 255 { v } else { round_ratio(v * 255, 65535) }
}

/// Brings one channel of a detected terminal colour to 8 bits.
pub fn normalize_channel(v: u16) -> (r: u8)
    ensures
        r as int == normalized_channel(v as int),
{
    if v <= 255 {
        v as u8
    } else {
        proof {
            assert((2 * (v as int * 255) + 65535) / (2 * 65535int) <= 255) by (nonlinear_arith)
                requires v <= 65535;
        }
        ((2 * (v as u32 * 255) + 65535) / (2 * 65535)) as u8
    }
}

} // verus!
