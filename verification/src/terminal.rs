//! The look of terminal cells: colours, the palette, and the pen that Select
//! Graphic Rendition sequences move.
use vstd::prelude::*;

verus! {

/// A premultiplied colour with an alpha channel.
#[derive(Clone, Copy, Debug, PartialEq, Eq, Structural)]
pub struct Rgba {
    pub r: u8,
    pub g: u8,
    pub b: u8,
    pub a: u8,
}

/// The colour of text that no SGR sequence has coloured.
#[verifier::allow_in_spec]
pub fn default_fg() -> (color: Rgba)
    returns
        (Rgba { r: 220, g: 220, b: 220, a: 255 }),
{
    Rgba { r: 220, g: 220, b: 220, a: 255 }
}

/// No background at all.
#[verifier::allow_in_spec]
pub fn transparent() -> (color: Rgba)
    returns
        (Rgba { r: 0, g: 0, b: 0, a: 0 }),
{
    Rgba { r: 0, g: 0, b: 0, a: 0 }
}

/// An opaque colour.
pub open spec fn opaque_rgb(r: int, g: int, b: int) -> Rgba {
    Rgba { r: r as u8, g: g as u8, b: b as u8, a: 255 }
}

/// The level of one channel among the sixteen standard colours: bit `bit` of
/// the index lights the channel, and the upper eight are the bright ones.
pub open spec fn ansi16_level(idx: int, bit: int) -> int {
    let lit = (idx / bit) % 2 == 1;
    if idx < 8 {
        if lit { 170 } else { 0 }
    } else {
        if lit { 255 } else { 85 }
    }
}

/// The level of one channel of the 6x6x6 colour cube.
pub open spec fn cube_level(n: int) -> int {
    if n == 0 { 0 } else { 55 + n * 40 }
}

/// The 256-colour palette: sixteen standard colours, a 6x6x6 cube, and a ramp
/// of 24 greys.
pub open spec fn palette(idx: u8) -> Rgba {
    if idx < 16 {
        opaque_rgb(
            ansi16_level(idx as int, 1),
            ansi16_level(idx as int, 2),
            ansi16_level(idx as int, 4),
        )
    } else if idx >= 232 {
        let v = 8 + (idx - 232) * 10;
        opaque_rgb(v, v, v)
    } else {
        let i = idx - 16;
        opaque_rgb(cube_level(i / 36), cube_level((i / 6) % 6), cube_level(i % 6))
    }
}

fn ansi16_channel(idx: u8, bit: u8) -> (v: u8)
    requires
        idx < 16,
        bit == 1 || bit == 2 || bit == 4,
    ensures
        v == ansi16_level(idx as int, bit as int),
{
    let lit = (idx / bit) % 2 == 1;
    if idx < 8 {
        if lit { 170 } else { 0 }
    } else {
        if lit { 255 } else { 85 }
    }
}

fn cube_channel(n: u8) -> (v: u8)
    requires
        n < 6,
    ensures
        v == cube_level(n as int),
{
    if n == 0 { 0 } else { 55 + n * 40 }
}

/// Looks a colour up in the 256-colour palette.
pub fn ansi256_color(idx: u8) -> (color: Rgba)
    ensures
        color == palette(idx),
{
    if idx < 16 {
        Rgba {
            r: ansi16_channel(idx, 1),
            g: ansi16_channel(idx, 2),
            b: ansi16_channel(idx, 4),
            a: 255,
        }
    } else if idx >= 232 {
        let v: u8 = 8 + (idx - 232) * 10;
        Rgba { r: v, g: v, b: v, a: 255 }
    } else {
        let i: u8 = idx - 16;
        Rgba {
            r: cube_channel(i / 36),
            g: cube_channel((i / 6) % 6),
            b: cube_channel(i % 6),
            a: 255,
        }
    }
}

/// One channel, fifty levels brighter, at most full.
pub open spec fn brighter_channel(c: u8) -> u8 {
    if c + 50 > 255 { 255 } else { (c + 50) as u8 }
}

/// Slightly brightens a colour for bold text; the alpha stays as it is.
pub fn brighten(c: Rgba) -> (out: Rgba)
    ensures
        out.r == brighter_channel(c.r),
        out.g == brighter_channel(c.g),
        out.b == brighter_channel(c.b),
        out.a == c.a,
{
    Rgba {
        r: c.r.saturating_add(50),
        g: c.g.saturating_add(50),
        b: c.b.saturating_add(50),
        a: c.a,
    }
}

/// One character cell of the screen.
#[derive(Clone, Copy, Debug, PartialEq, Eq, Structural)]
pub struct Cell {
    pub ch: char,
    pub fg: Rgba,
    pub bg: Rgba,
    pub bold: bool,
    pub underline: bool,
}

/// An erased cell.
pub open spec fn blank_cell() -> Cell {
    Cell { ch: ' ', fg: default_fg(), bg: transparent(), bold: false, underline: false }
}

impl Default for Cell {
    fn default() -> (cell: Self)
        ensures
            cell == blank_cell(),
    {
        Cell { ch: ' ', fg: default_fg(), bg: transparent(), bold: false, underline: false }
    }
}

/// What is drawn over a cell's background: the character, its colour, and the
/// colour of the line under it.
#[derive(Clone, Copy, Debug, PartialEq, Eq, Structural)]
pub struct Glyph {
    pub ch: char,
    pub color: Rgba,
    pub underline: Option<Rgba>,
}

impl Cell {
    /// The background to fill, unless the cell has none.
    pub fn background(&self) -> (bg: Option<Rgba>)
        ensures
            bg == if self.bg == transparent() { None } else { Some(self.bg) },
    {
        if self.bg == transparent() {
            None
        } else {
            Some(self.bg)
        }
    }

    /// The character to draw, unless it is a space. Bold text is brightened;
    /// the underline keeps the cell's own colour.
    pub fn glyph(&self) -> (glyph: Option<Glyph>)
        ensures
            self.ch == ' ' <==> glyph is None,
            glyph matches Some(g) ==> {
                &&& g.ch == self.ch
                &&& !self.bold ==> g.color == self.fg
                &&& self.bold ==> g.color == (Rgba {
                    r: brighter_channel(self.fg.r),
                    g: brighter_channel(self.fg.g),
                    b: brighter_channel(self.fg.b),
                    a: self.fg.a,
                })
                &&& g.underline == if self.underline { Some(self.fg) } else { None }
            },
    {
        if self.ch == ' ' {
            return None;
        }
        let color = if self.bold { brighten(self.fg) } else { self.fg };
        let underline = if self.underline { Some(self.fg) } else { None };
        Some(Glyph { ch: self.ch, color, underline })
    }
}

/// The graphic rendition that the next printed character takes.
#[derive(Clone, Copy, Debug, PartialEq, Eq, Structural)]
pub struct Pen {
    pub fg: Option<Rgba>,
    pub bg: Option<Rgba>,
    pub bold: bool,
    pub underline: bool,
}

/// The pen of a fresh screen, and after SGR 0.
pub open spec fn plain_pen() -> Pen {
    Pen { fg: None, bg: None, bold: false, underline: false }
}

/// The cell that a pen leaves when it writes `ch`.
pub open spec fn inked(pen: Pen, ch: char) -> Cell {
    Cell {
        ch,
        fg: if pen.fg is Some { pen.fg->0 } else { default_fg() },
        bg: if pen.bg is Some { pen.bg->0 } else { transparent() },
        bold: pen.bold,
        underline: pen.underline,
    }
}

impl Default for Pen {
    fn default() -> (pen: Self)
        ensures
            pen == plain_pen(),
    {
        Pen { fg: None, bg: None, bold: false, underline: false }
    }
}

impl Pen {
    /// The foreground that the pen writes with.
    pub fn fg(&self) -> (color: Rgba)
        ensures
            color == inked(*self, ' ').fg,
    {
        match self.fg {
            Some(c) => c,
            None => default_fg(),
        }
    }

    /// The background that the pen writes with.
    pub fn bg(&self) -> (color: Rgba)
        ensures
            color == inked(*self, ' ').bg,
    {
        match self.bg {
            Some(c) => c,
            None => transparent(),
        }
    }
}

/// The low byte of a parameter.
pub open spec fn low_byte(p: u16) -> u8 {
    (p % 256) as u8
}

/// The low byte of parameter `i`, or 0 where there is none.
pub open spec fn byte_param(ps: Seq<u16>, i: int) -> u8 {
    if 0 <= i < ps.len() { low_byte(ps[i]) } else { 0 }
}

/// What an extended colour (SGR 38 or 48) selects, given the parameters after
/// the 38 or 48: `5;n` is a palette colour and `2;r;g;b` a true colour, whose
/// missing channels are 0. Anything else selects nothing.
pub open spec fn extended_color(rest: Seq<u16>) -> Option<Rgba> {
    if rest.len() == 0 {
        None
    } else if rest[0] == 5 {
        if rest.len() >= 2 { Some(palette(low_byte(rest[1]))) } else { None }
    } else if rest[0] == 2 {
        Some(
            Rgba {
                r: byte_param(rest, 1),
                g: byte_param(rest, 2),
                b: byte_param(rest, 3),
                a: 255,
            },
        )
    } else {
        None
    }
}

/// How many parameters after the 38 or 48 the extended colour uses up.
pub open spec fn extended_len(rest: Seq<u16>) -> int {
    let want: int = if rest.len() == 0 {
        0
    } else if rest[0] == 5 {
        2
    } else if rest[0] == 2 {
        4
    } else {
        1
    };
    if want <= rest.len() { want } else { rest.len() as int }
}

/// The effect of one SGR code that stands alone.
pub open spec fn sgr_code(pen: Pen, code: u16) -> Pen {
    if code == 0 {
        plain_pen()
    } else if code == 1 {
        Pen { bold: true, ..pen }
    } else if code == 4 {
        Pen { underline: true, ..pen }
    } else if code == 22 {
        Pen { bold: false, ..pen }
    } else if code == 24 {
        Pen { underline: false, ..pen }
    } else if 30 <= code <= 37 {
        Pen { fg: Some(palette((code - 30) as u8)), ..pen }
    } else if code == 39 {
        Pen { fg: None, ..pen }
    } else if 40 <= code <= 47 {
        Pen { bg: Some(palette((code - 40) as u8)), ..pen }
    } else if code == 49 {
        Pen { bg: None, ..pen }
    } else if 90 <= code <= 97 {
        Pen { fg: Some(palette((code - 90 + 8) as u8)), ..pen }
    } else if 100 <= code <= 107 {
        Pen { bg: Some(palette((code - 100 + 8) as u8)), ..pen }
    } else {
        pen
    }
}

/// The effect of a whole SGR sequence, its codes taken from left to right.
pub open spec fn sgr(pen: Pen, ps: Seq<u16>) -> Pen
    decreases ps.len(),
{
    if ps.len() == 0 {
        pen
    } else if ps[0] == 38 || ps[0] == 48 {
        let rest = ps.skip(1);
        let next = match extended_color(rest) {
            Some(c) => if ps[0] == 38 {
                Pen { fg: Some(c), ..pen }
            } else {
                Pen { bg: Some(c), ..pen }
            },
            None => pen,
        };
        sgr(next, ps.skip(1 + extended_len(rest)))
    } else {
        sgr(sgr_code(pen, ps[0]), ps.skip(1))
    }
}

fn apply_sgr_code(pen: &mut Pen, code: u16)
    ensures
        *final(pen) == sgr_code(*old(pen), code),
{
    if code == 0 {
        *pen = Pen::default();
    } else if code == 1 {
        pen.bold = true;
    } else if code == 4 {
        pen.underline = true;
    } else if code == 22 {
        pen.bold = false;
    } else if code == 24 {
        pen.underline = false;
    } else if code >= 30 && code <= 37 {
        pen.fg = Some(ansi256_color((code - 30) as u8));
    } else if code == 39 {
        pen.fg = None;
    } else if code >= 40 && code <= 47 {
        pen.bg = Some(ansi256_color((code - 40) as u8));
    } else if code == 49 {
        pen.bg = None;
    } else if code >= 90 && code <= 97 {
        pen.fg = Some(ansi256_color((code - 90 + 8) as u8));
    } else if code >= 100 && code <= 107 {
        pen.bg = Some(ansi256_color((code - 100 + 8) as u8));
    }
}

/// Applies a Select Graphic Rendition sequence to a pen. `params` holds the
/// first subparameter of each parameter.
pub fn apply_sgr(pen: &mut Pen, params: &[u16])
    ensures
        *final(pen) == sgr(*old(pen), params@),
{
    let n: usize = params.len();
    let mut i: usize = 0;
    assert(params@.skip(0) =~= params@);
    while i < n
        invariant
            i <= n,
            n == params@.len(),
            sgr(*pen, params@.skip(i as int)) == sgr(*old(pen), params@),
        decreases n - i,
    {
        let ghost ps = params@.skip(i as int);
        let ghost before = *pen;
        let code: u16 = params[i];
        if code == 38 || code == 48 {
            let ghost rest = ps.skip(1);
            assert(rest =~= params@.skip(i as int + 1));
            let mut color: Option<Rgba> = None;
            let mut used: usize = 0;
            if n - i >= 2 {
                let kind: u16 = params[i + 1];
                assert(rest[0] == kind);
                if kind == 5 {
                    if n - i >= 3 {
                        assert(rest[1] == params@[i + 2]);
                        color = Some(ansi256_color((params[i + 2] % 256) as u8));
                        used = 2;
                    } else {
                        used = 1;
                    }
                } else if kind == 2 {
                    let left: usize = n - i - 1;
                    let r: u8 = if left > 1 { (params[i + 2] % 256) as u8 } else { 0 };
                    let g: u8 = if left > 2 { (params[i + 3] % 256) as u8 } else { 0 };
                    let b: u8 = if left > 3 { (params[i + 4] % 256) as u8 } else { 0 };
                    color = Some(Rgba { r, g, b, a: 255 });
                    used = if left < 4 { left } else { 4 };
                } else {
                    used = 1;
                }
            }
            assert(color == extended_color(rest));
            assert(used == extended_len(rest));
            match color {
                Some(c) => {
                    if code == 38 {
                        pen.fg = Some(c);
                    } else {
                        pen.bg = Some(c);
                    }
                },
                None => {},
            }
            assert(ps.skip(1 + used as int) =~= params@.skip(i + 1 + used));
            i = i + 1 + used;
        } else {
            apply_sgr_code(pen, code);
            assert(ps.skip(1) =~= params@.skip(i as int + 1));
            i = i + 1;
        }
    }
}

/// The palette: eight colours in which red, green and blue are each lit or not,
/// by the lowest three bits, the same eight brighter, a cube of six levels each of
/// red, green and blue, of which blue runs fastest, and a ramp of greys. All are
/// opaque.
pub proof fn law_palette_is_lit_by_its_index(idx: u8, red: int, green: int, blue: int)
    requires
        0 <= red < 6,
        0 <= green < 6,
        0 <= blue < 6,
    ensures
        palette(idx).a == 255,
        idx < 8 ==> {
            &&& palette(idx).r == if idx == 1 || idx == 3 || idx == 5 || idx == 7 { 170 } else { 0int }
            &&& palette(idx).g == if idx == 2 || idx == 3 || idx == 6 || idx == 7 { 170 } else { 0int }
            &&& palette(idx).b == if idx >= 4 { 170 } else { 0int }
        },
        8 <= idx < 16 ==> {
            &&& palette(idx).r == if palette((idx - 8) as u8).r == 170 { 255 } else { 85int }
            &&& palette(idx).g == if palette((idx - 8) as u8).g == 170 { 255 } else { 85int }
            &&& palette(idx).b == if palette((idx - 8) as u8).b == 170 { 255 } else { 85int }
        },
        ({
            let c = palette((16 + 36 * red + 6 * green + blue) as u8);
            &&& c.r == if red == 0 { 0 } else { 55 + 40 * red }
            &&& c.g == if green == 0 { 0 } else { 55 + 40 * green }
            &&& c.b == if blue == 0 { 0 } else { 55 + 40 * blue }
        }),
        idx >= 232 ==> palette(idx).r == 8 + 10 * (idx - 232) && palette(idx).g == palette(idx).r
            && palette(idx).b == palette(idx).r,
{
    let i = 36 * red + 6 * green + blue;
    assert(i / 36 == red);
    assert((i / 6) % 6 == green);
    assert(i % 6 == blue);
}

/// The codes of a sequence take effect one after the other.
#[verifier::spinoff_prover]
#[verifier::rlimit(40)]
pub proof fn law_codes_apply_in_turn(pen: Pen, code: u16, rest: Seq<u16>)
    requires
        code != 38,
        code != 48,
    ensures
        sgr(pen, seq![code] + rest) == sgr(sgr(pen, seq![code]), rest),
        sgr(pen, Seq::empty()) == pen,
{
    lemma_single_code(pen, code);
    lemma_next_code(pen, code, rest);
}

#[verifier::spinoff_prover]
#[verifier::rlimit(40)]
proof fn lemma_next_code(pen: Pen, code: u16, rest: Seq<u16>)
    requires
        code != 38,
        code != 48,
    ensures
        sgr(pen, seq![code] + rest) == sgr(sgr_code(pen, code), rest),
        sgr(pen, Seq::empty()) == pen,
{
    let ps = seq![code] + rest;
    assert(ps.len() == 1 + rest.len());
    assert(ps[0] == code);
    assert(ps.skip(1) =~= rest);
}

/// What each code does, and that it does nothing else: 0 takes everything back, 1
/// and 22 turn bold on and off, 4 and 24 the line under the text, 39 and 49 give
/// the colours back, and the codes of the eight colours and of their brighter ones
/// select the same as the extended codes of the palette do.
#[verifier::spinoff_prover]
#[verifier::rlimit(40)]
pub proof fn law_codes_do_what_they_say(pen: Pen, k: u16)
    requires
        k < 8,
    ensures
        sgr(pen, seq![0u16]) == (Pen { fg: None, bg: None, bold: false, underline: false }),
        sgr(pen, seq![1u16]) == (Pen { bold: true, ..pen }),
        sgr(pen, seq![22u16]) == (Pen { bold: false, ..pen }),
        sgr(pen, seq![4u16]) == (Pen { underline: true, ..pen }),
        sgr(pen, seq![24u16]) == (Pen { underline: false, ..pen }),
        sgr(pen, seq![39u16]) == (Pen { fg: None, ..pen }),
        sgr(pen, seq![49u16]) == (Pen { bg: None, ..pen }),
        sgr(pen, seq![(30 + k) as u16]) == sgr(pen, seq![38u16, 5u16, k]),
        sgr(pen, seq![(40 + k) as u16]) == sgr(pen, seq![48u16, 5u16, k]),
        sgr(pen, seq![(90 + k) as u16]) == sgr(pen, seq![38u16, 5u16, (k + 8) as u16]),
        sgr(pen, seq![(100 + k) as u16]) == sgr(pen, seq![48u16, 5u16, (k + 8) as u16]),
{
    lemma_single_code(pen, 0);
    lemma_single_code(pen, 1);
    lemma_single_code(pen, 22);
    lemma_single_code(pen, 4);
    lemma_single_code(pen, 24);
    lemma_single_code(pen, 39);
    lemma_single_code(pen, 49);
    lemma_single_code(pen, (30 + k) as u16);
    lemma_single_code(pen, (40 + k) as u16);
    lemma_single_code(pen, (90 + k) as u16);
    lemma_single_code(pen, (100 + k) as u16);
    lemma_colour_alone(pen, 38, k);
    lemma_colour_alone(pen, 48, k);
    lemma_colour_alone(pen, 38, (k + 8) as u16);
    lemma_colour_alone(pen, 48, (k + 8) as u16);
}

/// An extended code selects the colour that follows it, for the text behind 38 and
/// for its background behind 48, and the codes behind that colour count as before.
#[verifier::spinoff_prover]
#[verifier::rlimit(40)]
pub proof fn law_extended_colours_are_selected(
    pen: Pen,
    n: u16,
    r: u16,
    g: u16,
    b: u16,
    rest: Seq<u16>,
)
    requires
        n < 256,
        r < 256,
        g < 256,
        b < 256,
    ensures
        sgr(pen, seq![38u16, 5u16, n] + rest) == sgr(
            Pen { fg: Some(palette(n as u8)), ..pen },
            rest,
        ),
        sgr(pen, seq![48u16, 5u16, n] + rest) == sgr(
            Pen { bg: Some(palette(n as u8)), ..pen },
            rest,
        ),
        sgr(pen, seq![38u16, 2u16, r, g, b] + rest) == sgr(
            Pen { fg: Some(Rgba { r: r as u8, g: g as u8, b: b as u8, a: 255 }), ..pen },
            rest,
        ),
        sgr(pen, seq![48u16, 2u16, r, g, b] + rest) == sgr(
            Pen { bg: Some(Rgba { r: r as u8, g: g as u8, b: b as u8, a: 255 }), ..pen },
            rest,
        ),
{
    lemma_palette_code(pen, 38, n, rest);
    lemma_palette_code(pen, 48, n, rest);
    lemma_channels_code(pen, 38, r, g, b, rest);
    lemma_channels_code(pen, 48, r, g, b, rest);
}

/// An extended code that selects a colour, one step of it.
#[verifier::spinoff_prover]
#[verifier::rlimit(40)]
proof fn lemma_extended_code(pen: Pen, ps: Seq<u16>, color: Rgba)
    requires
        ps.len() > 0,
        ps[0] == 38 || ps[0] == 48,
        extended_color(ps.skip(1)) == Some(color),
    ensures
        sgr(pen, ps) == sgr(
            if ps[0] == 38 {
                Pen { fg: Some(color), ..pen }
            } else {
                Pen { bg: Some(color), ..pen }
            },
            ps.skip(1 + extended_len(ps.skip(1))),
        ),
{
}

#[verifier::spinoff_prover]
#[verifier::rlimit(40)]
proof fn lemma_palette_code(pen: Pen, code: u16, n: u16, rest: Seq<u16>)
    requires
        code == 38 || code == 48,
        n < 256,
    ensures
        sgr(pen, seq![code, 5u16, n] + rest) == sgr(
            if code == 38 {
                Pen { fg: Some(palette(n as u8)), ..pen }
            } else {
                Pen { bg: Some(palette(n as u8)), ..pen }
            },
            rest,
        ),
{
    let ps = seq![code, 5u16, n] + rest;
    let tail = ps.skip(1);
    assert(tail.len() == 2 + rest.len());
    assert(tail[0] == 5);
    assert(tail[1] == n);
    assert(extended_color(tail) == Some(palette(n as u8)));
    assert(extended_len(tail) == 2);
    assert(ps.skip(3) =~= rest);
    assert(ps[0] == code);
    lemma_extended_code(pen, ps, palette(n as u8));
}

#[verifier::spinoff_prover]
#[verifier::rlimit(40)]
proof fn lemma_channels_code(pen: Pen, code: u16, r: u16, g: u16, b: u16, rest: Seq<u16>)
    requires
        code == 38 || code == 48,
        r < 256,
        g < 256,
        b < 256,
    ensures
        sgr(pen, seq![code, 2u16, r, g, b] + rest) == sgr(
            if code == 38 {
                Pen { fg: Some(Rgba { r: r as u8, g: g as u8, b: b as u8, a: 255 }), ..pen }
            } else {
                Pen { bg: Some(Rgba { r: r as u8, g: g as u8, b: b as u8, a: 255 }), ..pen }
            },
            rest,
        ),
{
    let ps = seq![code, 2u16, r, g, b] + rest;
    let tail = ps.skip(1);
    assert(tail.len() == 4 + rest.len());
    assert(tail[0] == 2);
    assert(tail[1] == r);
    assert(tail[2] == g);
    assert(tail[3] == b);
    assert(extended_color(tail) == Some(
        Rgba { r: r as u8, g: g as u8, b: b as u8, a: 255 },
    ));
    assert(extended_len(tail) == 4);
    assert(ps.skip(5) =~= rest);
    assert(ps[0] == code);
    lemma_extended_code(pen, ps, Rgba { r: r as u8, g: g as u8, b: b as u8, a: 255 });
}

#[verifier::spinoff_prover]
#[verifier::rlimit(40)]
proof fn lemma_single_code(pen: Pen, code: u16)
    requires
        code != 38,
        code != 48,
    ensures
        sgr(pen, seq![code]) == sgr_code(pen, code),
{
    assert(seq![code].skip(1) =~= Seq::<u16>::empty());
    assert(sgr(sgr_code(pen, code), Seq::empty()) == sgr_code(pen, code));
}

#[verifier::spinoff_prover]
#[verifier::rlimit(40)]
proof fn lemma_colour_alone(pen: Pen, code: u16, n: u16)
    requires
        code == 38 || code == 48,
        n < 256,
    ensures
        sgr(pen, seq![code, 5u16, n]) == if code == 38 {
            Pen { fg: Some(palette(n as u8)), ..pen }
        } else {
            Pen { bg: Some(palette(n as u8)), ..pen }
        },
{
    let none = Seq::<u16>::empty();
    lemma_palette_code(pen, code, n, none);
    assert(seq![code, 5u16, n] + none =~= seq![code, 5u16, n]);
}

/// A character takes the colours of the pen, light grey on nothing where the pen
/// has none, and its weight and line. An erased cell is a blank of a plain pen.
pub proof fn law_characters_take_the_pen(pen: Pen, ch: char)
    ensures
        inked(pen, ch).ch == ch,
        pen.fg is Some ==> inked(pen, ch).fg == pen.fg->0,
        pen.fg is None ==> inked(pen, ch).fg == (Rgba { r: 220, g: 220, b: 220, a: 255 }),
        pen.bg is Some ==> inked(pen, ch).bg == pen.bg->0,
        pen.bg is None ==> inked(pen, ch).bg == (Rgba { r: 0, g: 0, b: 0, a: 0 }),
        inked(pen, ch).bold == pen.bold,
        inked(pen, ch).underline == pen.underline,
        blank_cell() == inked(plain_pen(), ' '),
{
}

/// Bold text is fifty levels brighter, up to the brightest.
pub proof fn law_bold_is_brighter(c: u8)
    ensures
        c <= 205 ==> brighter_channel(c) == c + 50,
        c >= 205 ==> brighter_channel(c) == 255,
{
}

} // verus!
