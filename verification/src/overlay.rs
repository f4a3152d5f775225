//! The in-game overlay: when it is shown, and what it draws.
//!
//! Positions and sizes are fixed-point pixels from the top left corner of the frame.

use vstd::prelude::*;
use vstd::string::*;

use crate::fixed;
use crate::fixed::{clamp_i64, round_div};
use crate::text;
use crate::text::decimal;

verus! {

/// Frames that the sparkline shows.
pub const HISTORY: usize = 60;

/// Frame time that the sparkline starts with (16.6 ms).
pub const FIRST_FRAME_MS: i64 = 16_600_000;

/// One pixel.
pub const PX: i64 = 1_000_000;

/// Whether the overlay is shown, toggled by a key.
#[derive(Debug, Clone, Copy, PartialEq, Eq, Structural)]
pub struct OverlayToggle {
    pub visible: bool,
    pub key_was_down: bool,
}

impl OverlayToggle {
    pub fn new() -> (t: OverlayToggle)
        ensures
            t == (OverlayToggle { visible: true, key_was_down: false }),
    {
        OverlayToggle { visible: true, key_was_down: false }
    }

    /// The toggle after the state of the key was taken.
    pub open spec fn after(self, is_down: bool) -> OverlayToggle {
        OverlayToggle {
            visible: if is_down && !self.key_was_down {
                !self.visible
            } else {
                self.visible
            },
            key_was_down: is_down,
        }
    }

    /// Takes the state of the key: each press toggles once, however long it is held.
    pub fn poll_hotkey(&mut self, is_down: bool)
        ensures
            *final(self) == old(self).after(is_down),
    {
        if is_down && !self.key_was_down {
            self.visible = !self.visible;
        }
        self.key_was_down = is_down;
    }

    pub fn is_visible(&self) -> (b: bool)
        ensures
            b == self.visible,
    {
        self.visible
    }

    pub fn set_visible(&mut self, visible: bool)
        ensures
            *final(self) == (OverlayToggle { visible, ..*old(self) }),
    {
        self.visible = visible;
    }
}

/// The overlay fits on a frame of this size.
pub fn fits(width: u32, height: u32) -> (b: bool)
    ensures
        b == (width >= 100 && height >= 100),
{
    width >= 100 && height >= 100
}

/// The five columns of a character, lowest bit on top.
pub open spec fn glyph(c: char) -> Seq<u8> {
    match c {
        '0' => seq![0x3Eu8, 0x51u8, 0x49u8, 0x45u8, 0x3Eu8],
        '1' => seq![0x00u8, 0x42u8, 0x7Fu8, 0x40u8, 0x00u8],
        '2' => seq![0x42u8, 0x61u8, 0x51u8, 0x49u8, 0x46u8],
        '3' => seq![0x21u8, 0x41u8, 0x45u8, 0x4Bu8, 0x31u8],
        '4' => seq![0x18u8, 0x14u8, 0x12u8, 0x7Fu8, 0x10u8],
        '5' => seq![0x27u8, 0x45u8, 0x45u8, 0x45u8, 0x39u8],
        '6' => seq![0x3Cu8, 0x4Au8, 0x49u8, 0x49u8, 0x30u8],
        '7' => seq![0x01u8, 0x71u8, 0x09u8, 0x05u8, 0x03u8],
        '8' => seq![0x36u8, 0x49u8, 0x49u8, 0x49u8, 0x36u8],
        '9' => seq![0x06u8, 0x49u8, 0x49u8, 0x29u8, 0x1Eu8],
        'A' | 'a' => seq![0x7Eu8, 0x11u8, 0x11u8, 0x11u8, 0x7Eu8],
        'B' | 'b' => seq![0x7Fu8, 0x49u8, 0x49u8, 0x49u8, 0x36u8],
        'C' | 'c' => seq![0x3Eu8, 0x41u8, 0x41u8, 0x41u8, 0x22u8],
        'D' | 'd' => seq![0x7Fu8, 0x41u8, 0x41u8, 0x22u8, 0x1Cu8],
        'E' | 'e' => seq![0x7Fu8, 0x49u8, 0x49u8, 0x49u8, 0x41u8],
        'F' | 'f' => seq![0x7Fu8, 0x09u8, 0x09u8, 0x09u8, 0x01u8],
        'G' | 'g' => seq![0x3Eu8, 0x41u8, 0x49u8, 0x49u8, 0x7Au8],
        'H' | 'h' => seq![0x7Fu8, 0x08u8, 0x08u8, 0x08u8, 0x7Fu8],
        'I' | 'i' => seq![0x00u8, 0x41u8, 0x7Fu8, 0x41u8, 0x00u8],
        'J' | 'j' => seq![0x20u8, 0x40u8, 0x41u8, 0x3Fu8, 0x01u8],
        'K' | 'k' => seq![0x7Fu8, 0x08u8, 0x14u8, 0x22u8, 0x41u8],
        'L' | 'l' => seq![0x7Fu8, 0x40u8, 0x40u8, 0x40u8, 0x40u8],
        'M' | 'm' => seq![0x7Fu8, 0x02u8, 0x0Cu8, 0x02u8, 0x7Fu8],
        'N' | 'n' => seq![0x7Fu8, 0x04u8, 0x08u8, 0x10u8, 0x7Fu8],
        'O' | 'o' => seq![0x3Eu8, 0x41u8, 0x41u8, 0x41u8, 0x3Eu8],
        'P' | 'p' => seq![0x7Fu8, 0x09u8, 0x09u8, 0x09u8, 0x06u8],
        'Q' | 'q' => seq![0x3Eu8, 0x41u8, 0x51u8, 0x21u8, 0x5Eu8],
        'R' | 'r' => seq![0x7Fu8, 0x09u8, 0x19u8, 0x29u8, 0x46u8],
        'S' | 's' => seq![0x46u8, 0x49u8, 0x49u8, 0x49u8, 0x31u8],
        'T' | 't' => seq![0x01u8, 0x01u8, 0x7Fu8, 0x01u8, 0x01u8],
        'U' | 'u' => seq![0x3Fu8, 0x40u8, 0x40u8, 0x40u8, 0x3Fu8],
        'V' | 'v' => seq![0x1Fu8, 0x20u8, 0x40u8, 0x20u8, 0x1Fu8],
        'W' | 'w' => seq![0x7Fu8, 0x20u8, 0x18u8, 0x20u8, 0x7Fu8],
        'X' | 'x' => seq![0x63u8, 0x14u8, 0x08u8, 0x14u8, 0x63u8],
        'Y' | 'y' => seq![0x07u8, 0x08u8, 0x70u8, 0x08u8, 0x07u8],
        'Z' | 'z' => seq![0x61u8, 0x51u8, 0x49u8, 0x45u8, 0x43u8],
        '.' => seq![0x00u8, 0x60u8, 0x60u8, 0x00u8, 0x00u8],
        ':' => seq![0x00u8, 0x36u8, 0x36u8, 0x00u8, 0x00u8],
        '-' => seq![0x08u8, 0x08u8, 0x08u8, 0x08u8, 0x08u8],
        '+' => seq![0x08u8, 0x08u8, 0x3Eu8, 0x08u8, 0x08u8],
        '(' => seq![0x00u8, 0x1Cu8, 0x22u8, 0x41u8, 0x00u8],
        ')' => seq![0x00u8, 0x41u8, 0x22u8, 0x1Cu8, 0x00u8],
        '|' => seq![0x00u8, 0x00u8, 0x7Fu8, 0x00u8, 0x00u8],
        '/' => seq![0x20u8, 0x10u8, 0x08u8, 0x04u8, 0x02u8],
        _ => seq![0x00u8, 0x00u8, 0x00u8, 0x00u8, 0x00u8],
    }
}

fn columns(a: u8, b: u8, c: u8, d: u8, e: u8) -> (g: [u8; 5])
    ensures
        g@ == seq![a, b, c, d, e],
{
    let g: [u8; 5] = [a, b, c, d, e];
    assert(g@ =~= seq![a, b, c, d, e]);
    g
}

/// The five columns of a character; one without a shape is blank.
pub fn get_glyph(c: char) -> (g: [u8; 5])
    ensures
        g@ == glyph(c),
{
    match c {
        '0' => columns(0x3E, 0x51, 0x49, 0x45, 0x3E),
        '1' => columns(0x00, 0x42, 0x7F, 0x40, 0x00),
        '2' => columns(0x42, 0x61, 0x51, 0x49, 0x46),
        '3' => columns(0x21, 0x41, 0x45, 0x4B, 0x31),
        '4' => columns(0x18, 0x14, 0x12, 0x7F, 0x10),
        '5' => columns(0x27, 0x45, 0x45, 0x45, 0x39),
        '6' => columns(0x3C, 0x4A, 0x49, 0x49, 0x30),
        '7' => columns(0x01, 0x71, 0x09, 0x05, 0x03),
        '8' => columns(0x36, 0x49, 0x49, 0x49, 0x36),
        '9' => columns(0x06, 0x49, 0x49, 0x29, 0x1E),
        'A' | 'a' => columns(0x7E, 0x11, 0x11, 0x11, 0x7E),
        'B' | 'b' => columns(0x7F, 0x49, 0x49, 0x49, 0x36),
        'C' | 'c' => columns(0x3E, 0x41, 0x41, 0x41, 0x22),
        'D' | 'd' => columns(0x7F, 0x41, 0x41, 0x22, 0x1C),
        'E' | 'e' => columns(0x7F, 0x49, 0x49, 0x49, 0x41),
        'F' | 'f' => columns(0x7F, 0x09, 0x09, 0x09, 0x01),
        'G' | 'g' => columns(0x3E, 0x41, 0x49, 0x49, 0x7A),
        'H' | 'h' => columns(0x7F, 0x08, 0x08, 0x08, 0x7F),
        'I' | 'i' => columns(0x00, 0x41, 0x7F, 0x41, 0x00),
        'J' | 'j' => columns(0x20, 0x40, 0x41, 0x3F, 0x01),
        'K' | 'k' => columns(0x7F, 0x08, 0x14, 0x22, 0x41),
        'L' | 'l' => columns(0x7F, 0x40, 0x40, 0x40, 0x40),
        'M' | 'm' => columns(0x7F, 0x02, 0x0C, 0x02, 0x7F),
        'N' | 'n' => columns(0x7F, 0x04, 0x08, 0x10, 0x7F),
        'O' | 'o' => columns(0x3E, 0x41, 0x41, 0x41, 0x3E),
        'P' | 'p' => columns(0x7F, 0x09, 0x09, 0x09, 0x06),
        'Q' | 'q' => columns(0x3E, 0x41, 0x51, 0x21, 0x5E),
        'R' | 'r' => columns(0x7F, 0x09, 0x19, 0x29, 0x46),
        'S' | 's' => columns(0x46, 0x49, 0x49, 0x49, 0x31),
        'T' | 't' => columns(0x01, 0x01, 0x7F, 0x01, 0x01),
        'U' | 'u' => columns(0x3F, 0x40, 0x40, 0x40, 0x3F),
        'V' | 'v' => columns(0x1F, 0x20, 0x40, 0x20, 0x1F),
        'W' | 'w' => columns(0x7F, 0x20, 0x18, 0x20, 0x7F),
        'X' | 'x' => columns(0x63, 0x14, 0x08, 0x14, 0x63),
        'Y' | 'y' => columns(0x07, 0x08, 0x70, 0x08, 0x07),
        'Z' | 'z' => columns(0x61, 0x51, 0x49, 0x45, 0x43),
        '.' => columns(0x00, 0x60, 0x60, 0x00, 0x00),
        ':' => columns(0x00, 0x36, 0x36, 0x00, 0x00),
        '-' => columns(0x08, 0x08, 0x08, 0x08, 0x08),
        '+' => columns(0x08, 0x08, 0x3E, 0x08, 0x08),
        '(' => columns(0x00, 0x1C, 0x22, 0x41, 0x00),
        ')' => columns(0x00, 0x41, 0x22, 0x1C, 0x00),
        '|' => columns(0x00, 0x00, 0x7F, 0x00, 0x00),
        '/' => columns(0x20, 0x10, 0x08, 0x04, 0x02),
        _ => columns(0x00, 0x00, 0x00, 0x00, 0x00),
    }
}

/// The colours of the overlay.
#[derive(Debug, Clone, Copy, PartialEq, Eq, Structural)]
pub enum Colour {
    Card,
    Border,
    Headline,
    Detail,
    SparkBack,
    Good,
    Slow,
    Spike,
}

/// A filled rectangle.
#[derive(Debug, Clone, Copy, PartialEq, Eq, Structural)]
pub struct Quad {
    pub x: i64,
    pub y: i64,
    pub w: i64,
    pub h: i64,
    pub colour: Colour,
}

/// How a line of text is drawn.
#[derive(Debug, Clone, Copy, PartialEq, Eq, Structural)]
pub struct Style {
    pub x: i64,
    pub y: i64,
    /// Size of a dot of the font.
    pub scale: i64,
    pub colour: Colour,
}

impl Style {
    /// The dot in column `k / 7` and row `k % 7` of a character that starts at `pen` dots.
    pub open spec fn dot(self, pen: int, k: int) -> Quad {
        Quad {
            x: fixed::sat64(self.x + (pen + k / 7) * self.scale) as i64,
            y: fixed::sat64(self.y + (k % 7) * self.scale) as i64,
            w: self.scale,
            h: self.scale,
            colour: self.colour,
        }
    }

    /// The first `k` dots of a character that are set.
    pub open spec fn dots(self, bits: Seq<u8>, pen: int, k: nat) -> Seq<Quad>
        decreases k,
    {
        if k == 0 {
            Seq::empty()
        } else {
            let i = k - 1;
            let rest = self.dots(bits, pen, i as nat);
            if bits[i / 7] & (1u8 << ((i % 7) as u8)) != 0 {
                rest.push(self.dot(pen, i))
            } else {
                rest
            }
        }
    }

    /// The dots of a line of text.
    pub open spec fn line(self, s: Seq<char>) -> Seq<Quad>
        decreases s.len(),
    {
        if s.len() == 0 {
            Seq::empty()
        } else {
            let before = self.line(s.drop_last());
            if s.last() == ' ' {
                before
            } else {
                before + self.dots(glyph(s.last()), advance(s.drop_last()), 35)
            }
        }
    }
}

/// Width of a text in dots: a blank takes four, a character six.
pub open spec fn advance(s: Seq<char>) -> int
    decreases s.len(),
{
    if s.len() == 0 {
        0
    } else {
        advance(s.drop_last()) + if s.last() == ' ' {
            4int
        } else {
            6int
        }
    }
}

/// The place some dots away from another, as far as it can be represented.
fn along(from: i64, dots: i128, scale: i64) -> (at: i64)
    requires
        0 <= dots,
    ensures
        at == fixed::sat64(from + dots * scale),
{
    // So many dots lead out of reach, whatever their size.
    let most: i128 = 0xffff_ffff_ffff_ffff;
    let n: i128 = if dots < most { dots } else { most };
    proof {
        assert(-0x8000_0000_0000_0000 * 0xffff_ffff_ffff_ffff <= n * scale
            <= 0x7fff_ffff_ffff_ffff * 0xffff_ffff_ffff_ffff) by (nonlinear_arith)
            requires
                0 <= n <= 0xffff_ffff_ffff_ffff,
                -0x8000_0000_0000_0000 <= scale <= 0x7fff_ffff_ffff_ffff,
        ;
        if dots >= most {
            assert(scale > 0 ==> n * scale >= most && dots * scale >= most) by (nonlinear_arith)
                requires
                    n == most,
                    dots >= most,
                    most > 0,
            ;
            assert(scale < 0 ==> n * scale <= -most && dots * scale <= -most) by (nonlinear_arith)
                requires
                    n == most,
                    dots >= most,
                    most > 0,
            ;
            assert(scale == 0 ==> n * scale == 0 && dots * scale == 0) by (nonlinear_arith);
        }
    }
    clamp_i64(from as i128 + n * scale as i128)
}

fn draw_char(out: &mut Vec<Quad>, style: &Style, c: char, pen: i128)
    requires
        0 <= pen <= 0x10_0000_0000_0000_0000,
    ensures
        final(out)@ == old(out)@ + style.dots(glyph(c), pen as int, 35),
{
    let bits = get_glyph(c);
    let mut k: usize = 0;
    assert(out@ =~= old(out)@ + style.dots(glyph(c), pen as int, 0));
    while k < 35
        invariant
            k <= 35,
            0 <= pen <= 0x10_0000_0000_0000_0000,
            bits@ == glyph(c),
            glyph(c).len() == 5,
            out@ == old(out)@ + style.dots(glyph(c), pen as int, k as nat),
        decreases 35 - k,
    {
        let col: usize = k / 7;
        let row: u8 = (k % 7) as u8;
        if bits[col] & (1u8 << row) != 0 {
            out.push(
                Quad {
                    x: along(style.x, pen + col as i128, style.scale),
                    y: along(style.y, row as i128, style.scale),
                    w: style.scale,
                    h: style.scale,
                    colour: style.colour,
                },
            );
        }
        assert(out@ =~= old(out)@ + style.dots(glyph(c), pen as int, (k + 1) as nat));
        k = k + 1;
    }
}

/// Draws a line of text.
pub fn draw_string(out: &mut Vec<Quad>, style: &Style, s: &str)
    ensures
        final(out)@ == old(out)@ + style.line(s@),
{
    let n: usize = s.unicode_len();
    let mut pen: i128 = 0;
    let mut i: usize = 0;
    assert(s@.take(0) =~= Seq::empty());
    assert(out@ =~= old(out)@ + style.line(s@.take(0)));
    while i < n
        invariant
            i <= n,
            n == s@.len(),
            pen == advance(s@.take(i as int)),
            0 <= pen <= 6 * i,
            out@ == old(out)@ + style.line(s@.take(i as int)),
        decreases n - i,
    {
        let c: char = s.get_char(i);
        assert(s@.take(i + 1).drop_last() =~= s@.take(i as int));
        if c == ' ' {
            pen = pen + 4;
        } else {
            draw_char(out, style, c, pen);
            pen = pen + 6;
        }
        assert(out@ =~= old(out)@ + style.line(s@.take(i + 1)));
        i = i + 1;
    }
    assert(s@.take(i as int) =~= s@);
}

/// The number nearest to `a / b`, halves to the even one, for a positive `b`.
pub open spec fn even_quot(a: int, b: int) -> int {
    let (q, r) = (a / b, a % b);
    if 2 * r < b || 2 * r == b && q % 2 == 0 {
        q
    } else {
        q + 1
    }
}

fn even_div(a: u64, b: u64) -> (q: u64)
    requires
        1 < b <= 0x1_0000_0000,
    ensures
        q == even_quot(a as int, b as int),
{
    let q: u64 = a / b;
    let r: u64 = a % b;
    proof {
        vstd::arithmetic::div_mod::lemma_fundamental_div_mod(a as int, b as int);
        assert(2 * q <= a) by (nonlinear_arith)
            requires
                a == b * q + r,
                0 <= r,
                2 <= b,
                0 <= q,
        ;
    }
    if 2 * r < b || 2 * r == b && q % 2 == 0 {
        q
    } else {
        q + 1
    }
}

/// A fixed-point number that is not negative, rounded to one decimal.
pub open spec fn one_decimal(v: int) -> Seq<char> {
    let q = even_quot(v, 100_000);
    text::decimal_of(q / 10) + "."@ + text::decimal_of(q % 10)
}

/// A fixed-point number that is not negative, rounded to two decimals.
pub open spec fn two_decimals(v: int) -> Seq<char> {
    let q = even_quot(v, 10_000);
    text::decimal_of(q / 100) + "."@ + text::decimal_of((q / 10) % 10) + text::decimal_of(q % 10)
}

fn with_one_decimal(v: u64) -> (s: String)
    ensures
        s@ == one_decimal(v as int),
{
    let q: u64 = even_div(v, 100_000);
    let mut s = decimal(q / 10);
    s.append(".");
    s.append(decimal(q % 10).as_str());
    s
}

fn with_two_decimals(v: u64) -> (s: String)
    ensures
        s@ == two_decimals(v as int),
{
    let q: u64 = even_div(v, 10_000);
    let mut s = decimal(q / 100);
    s.append(".");
    s.append(decimal((q / 10) % 10).as_str());
    s.append(decimal(q % 10).as_str());
    s
}

/// First line of the overlay.
pub open spec fn headline(fps: int, frametime_ms: int) -> Seq<char> {
    "iFrame: "@ + one_decimal(fps) + " FPS ("@ + two_decimals(frametime_ms) + "ms)"@
}

/// Second line of the overlay.
pub open spec fn detail(mode: Seq<char>, reflex: Seq<char>) -> Seq<char> {
    "Mode: "@ + mode + " | Reflex: "@ + reflex
}

/// The first line: rate and frame time.
pub fn headline_text(fps: u64, frametime_ms: u64) -> (s: String)
    ensures
        s@ == headline(fps as int, frametime_ms as int),
{
    let mut s = String::from_str("iFrame: ");
    s.append(with_one_decimal(fps).as_str());
    s.append(" FPS (");
    s.append(with_two_decimals(frametime_ms).as_str());
    s.append("ms)");
    s
}

/// The second line: pacing mode and latency mode.
pub fn detail_text(mode: &str, reflex: &str) -> (s: String)
    ensures
        s@ == detail(mode@, reflex@),
{
    let mut s = String::from_str("Mode: ");
    s.append(mode);
    s.append(" | Reflex: ");
    s.append(reflex);
    s
}

/// What the overlay holds on to.
#[derive(Debug)]
pub struct OverlayState {
    /// Device that the resources belong to.
    pub device: u64,
    /// A view of the frame is held.
    pub has_target: bool,
    pub has_buffer: bool,
    /// Vertices that the buffer holds.
    pub buffer_capacity: usize,
    /// Fixed-point frame times; the next one goes to `history_idx`.
    pub history: Vec<i64>,
    pub history_idx: usize,
}

/// How the vertices get to the device.
#[derive(Debug, Clone, Copy, PartialEq, Eq, Structural)]
pub enum BufferPlan {
    /// Into the buffer that there is.
    Reuse,
    /// Into a new buffer for this many vertices.
    Create(usize),
}

fn flat_history() -> (h: Vec<i64>)
    ensures
        h@ == Seq::new(HISTORY as nat, |i: int| FIRST_FRAME_MS),
{
    let mut h: Vec<i64> = Vec::new();
    while h.len() < HISTORY
        invariant
            h@.len() <= HISTORY,
            h@ == Seq::new(h@.len(), |i: int| FIRST_FRAME_MS),
        decreases HISTORY - h@.len(),
    {
        h.push(FIRST_FRAME_MS);
        assert(h@ =~= Seq::new(h@.len(), |i: int| FIRST_FRAME_MS));
    }
    h
}

impl OverlayState {
    pub open spec fn wf(&self) -> bool {
        self.history@.len() == HISTORY && self.history_idx < HISTORY
    }

    /// Nothing is held for `device` yet.
    pub open spec fn is_fresh(&self, device: u64) -> bool {
        &&& self.device == device
        &&& !self.has_target
        &&& !self.has_buffer
        &&& self.buffer_capacity == 0
        &&& self.history@ == Seq::new(HISTORY as nat, |i: int| FIRST_FRAME_MS)
        &&& self.history_idx == 0
    }

    pub fn new(device: u64) -> (s: OverlayState)
        ensures
            s.is_fresh(device),
            s.wf(),
    {
        OverlayState {
            device,
            has_target: false,
            has_buffer: false,
            buffer_capacity: 0,
            history: flat_history(),
            history_idx: 0,
        }
    }

    /// Lets go of the view of the frame, without which its buffers cannot be resized.
    pub fn on_resize(&mut self)
        ensures
            !final(self).has_target,
            final(self).device == old(self).device,
            final(self).has_buffer == old(self).has_buffer,
            final(self).buffer_capacity == old(self).buffer_capacity,
            final(self).history@ == old(self).history@,
            final(self).history_idx == old(self).history_idx,
    {
        self.has_target = false;
    }

    /// Starts a frame on `device`: resources of another device are let go of.
    pub fn use_device(&mut self, device: u64)
        requires
            old(self).wf(),
        ensures
            final(self).wf(),
            old(self).device == device ==> *final(self) == *old(self),
            old(self).device != device ==> final(self).is_fresh(device),
    {
        if self.device != device {
            self.device = device;
            self.has_target = false;
            self.has_buffer = false;
            self.buffer_capacity = 0;
            self.history = flat_history();
            self.history_idx = 0;
        }
    }

    /// The frame times of the sparkline, oldest first.
    pub open spec fn sparkline(&self) -> Seq<i64> {
        Seq::new(
            HISTORY as nat,
            |i: int| self.history@[(self.history_idx + i) % (HISTORY as int)],
        )
    }

    /// Adds a frame time to the sparkline, in place of the oldest.
    pub fn record(&mut self, frametime_ms: i64)
        requires
            old(self).wf(),
        ensures
            final(self).wf(),
            final(self).sparkline() == old(self).sparkline().drop_first().push(frametime_ms),
            final(self).device == old(self).device,
            final(self).has_target == old(self).has_target,
            final(self).has_buffer == old(self).has_buffer,
            final(self).buffer_capacity == old(self).buffer_capacity,
    {
        self.history.set(self.history_idx, frametime_ms);
        self.history_idx = (self.history_idx + 1) % HISTORY;
        assert(self.sparkline() =~= old(self).sparkline().drop_first().push(frametime_ms));
    }

    /// How `vertices` vertices get to the device: room is made for a power of two.
    pub fn buffer_plan(&self, vertices: usize) -> (plan: BufferPlan)
        requires
            2 * (vertices + 256) <= usize::MAX + 1,
        ensures
            plan is Reuse == (self.has_buffer && self.buffer_capacity >= vertices),
            plan is Create ==> {
                let cap = plan->Create_0 as int;
                &&& cap >= vertices + 256
                &&& vstd::arithmetic::power2::is_pow2(cap)
                &&& cap < 2 * (vertices + 256)
            },
    {
        if self.has_buffer && self.buffer_capacity >= vertices {
            BufferPlan::Reuse
        } else {
            BufferPlan::Create(next_power_of_two(vertices + 256))
        }
    }

    /// A buffer for `capacity` vertices was created.
    pub fn buffer_created(&mut self, capacity: usize)
        ensures
            final(self).has_buffer,
            final(self).buffer_capacity == capacity,
            final(self).device == old(self).device,
            final(self).has_target == old(self).has_target,
            final(self).history@ == old(self).history@,
            final(self).history_idx == old(self).history_idx,
    {
        self.has_buffer = true;
        self.buffer_capacity = capacity;
    }
}

/// The smallest power of two that is not below `n`.
fn next_power_of_two(n: usize) -> (p: usize)
    requires
        1 <= n,
        2 * n <= usize::MAX + 1,
    ensures
        vstd::arithmetic::power2::is_pow2(p as int),
        n <= p < 2 * n,
{
    let mut p: usize = 1;
    proof {
        reveal_with_fuel(vstd::arithmetic::power2::is_pow2, 2);
    }
    while p < n
        invariant
            2 * n <= usize::MAX + 1,
            1 <= n,
            1 <= p < 2 * n,
            vstd::arithmetic::power2::is_pow2(p as int),
        decreases 2 * n - p,
    {
        proof {
            reveal_with_fuel(vstd::arithmetic::power2::is_pow2, 2);
        }
        p = p * 2;
    }
    p
}

/// A rectangle given in whole pixels.
pub open spec fn block(x: int, y: int, w: int, h: int, colour: Colour) -> Quad {
    Quad {
        x: (x * PX) as i64,
        y: (y * PX) as i64,
        w: (w * PX) as i64,
        h: (h * PX) as i64,
        colour,
    }
}

/// The card behind the text and its upper border, which is one and a half pixels high.
pub open spec fn frame_quads() -> Seq<Quad> {
    seq![
        block(12, 12, 264, 76, Colour::Card),
        Quad { h: 1_500_000, ..block(12, 12, 264, 0, Colour::Border) },
    ]
}

/// Style of the first line.
pub open spec fn headline_style() -> Style {
    Style { x: 20_000_000, y: 20_000_000, scale: 2_000_000, colour: Colour::Headline }
}

/// Style of the second line.
pub open spec fn detail_style() -> Style {
    Style { x: 20_000_000, y: 38_000_000, scale: 1_500_000, colour: Colour::Detail }
}

/// Height of the bar of a frame time: 40 ms fill the sparkline.
pub open spec fn bar_height(ft_ms: int) -> int {
    let h = fixed::round_quot(fixed::within(ft_ms, 2_000_000, 50_000_000) * 3, 5);
    if h > 24_000_000 {
        24_000_000
    } else {
        h
    }
}

/// Colour of the bar of a frame time.
pub open spec fn bar_colour(ft_ms: int) -> Colour {
    if ft_ms <= 17_000_000 {
        Colour::Good
    } else if ft_ms <= 25_000_000 {
        Colour::Slow
    } else {
        Colour::Spike
    }
}

/// The bar of the `i`-th oldest frame, standing on the bottom of the sparkline.
pub open spec fn bar(i: int, ft_ms: i64) -> Quad {
    Quad {
        x: ((20 + 4 * i) * PX) as i64,
        y: (80_000_000 - bar_height(ft_ms as int)) as i64,
        w: 3_000_000,
        h: bar_height(ft_ms as int) as i64,
        colour: bar_colour(ft_ms as int),
    }
}

/// The bars of a sparkline.
pub open spec fn bars(spark: Seq<i64>) -> Seq<Quad> {
    Seq::new(spark.len(), |i: int| bar(i, spark[i]))
}

/// Everything that the overlay draws, back to front.
pub open spec fn hud(line1: Seq<char>, line2: Seq<char>, spark: Seq<i64>) -> Seq<Quad> {
    frame_quads() + headline_style().line(line1) + detail_style().line(line2) + seq![
        block(20, 56, 248, 24, Colour::SparkBack),
    ] + bars(spark)
}

fn make_bar(i: usize, ft_ms: i64) -> (q: Quad)
    requires
        i < HISTORY,
    ensures
        q == bar(i as int, ft_ms),
{
    let clamped: i64 = if ft_ms < 2_000_000 {
        2_000_000
    } else if ft_ms > 50_000_000 {
        50_000_000
    } else {
        ft_ms
    };
    let h: i128 = round_div(clamped as i128 * 3, 5);
    proof {
        fixed::lemma_round_between(clamped * 3, 5, 0, 30_000_000);
    }
    let h: i64 = if h > 24_000_000 { 24_000_000 } else { h as i64 };
    let colour = if ft_ms <= 17_000_000 {
        Colour::Good
    } else if ft_ms <= 25_000_000 {
        Colour::Slow
    } else {
        Colour::Spike
    };
    Quad { x: (20 + 4 * i as i64) * PX, y: 80_000_000 - h, w: 3_000_000, h, colour }
}

impl OverlayState {
    /// What the overlay draws for a frame.
    pub fn render(&self, line1: &str, line2: &str) -> (quads: Vec<Quad>)
        requires
            self.wf(),
        ensures
            quads@ == hud(line1@, line2@, self.sparkline()),
    {
        let mut quads: Vec<Quad> = Vec::new();
        quads.push(
            Quad {
                x: 12_000_000,
                y: 12_000_000,
                w: 264_000_000,
                h: 76_000_000,
                colour: Colour::Card,
            },
        );
        quads.push(
            Quad {
                x: 12_000_000,
                y: 12_000_000,
                w: 264_000_000,
                h: 1_500_000,
                colour: Colour::Border,
            },
        );
        assert(quads@ =~= frame_quads());
        let first = Style {
            x: 20_000_000,
            y: 20_000_000,
            scale: 2_000_000,
            colour: Colour::Headline,
        };
        draw_string(&mut quads, &first, line1);
        let second = Style {
            x: 20_000_000,
            y: 38_000_000,
            scale: 1_500_000,
            colour: Colour::Detail,
        };
        draw_string(&mut quads, &second, line2);
        quads.push(
            Quad {
                x: 20_000_000,
                y: 56_000_000,
                w: 248_000_000,
                h: 24_000_000,
                colour: Colour::SparkBack,
            },
        );
        let ghost base = frame_quads() + headline_style().line(line1@) + detail_style().line(
            line2@,
        ) + seq![block(20, 56, 248, 24, Colour::SparkBack)];
        assert(quads@ =~= base);
        let mut i: usize = 0;
        assert(quads@ =~= base + bars(self.sparkline()).take(0));
        while i < HISTORY
            invariant
                i <= HISTORY,
                self.wf(),
                quads@ == base + bars(self.sparkline()).take(i as int),
            decreases HISTORY - i,
        {
            let at: usize = (self.history_idx + i) % HISTORY;
            quads.push(make_bar(i, self.history[at]));
            assert(quads@ =~= base + bars(self.sparkline()).take(i + 1));
            i = i + 1;
        }
        assert(bars(self.sparkline()).take(60) =~= bars(self.sparkline()));
        quads
    }
}

/// Bars stay inside the sparkline, whatever the frame time.
pub proof fn law_bars_stay_inside(i: int, ft_ms: i64)
    requires
        0 <= i < HISTORY,
    ensures
        ({
            let q = bar(i, ft_ms);
            let back = block(20, 56, 248, 24, Colour::SparkBack);
            &&& back.x <= q.x
            &&& q.x + q.w <= back.x + back.w
            &&& back.y <= q.y
            &&& q.y + q.h == back.y + back.h
            &&& q.h > 0
        }),
{
    let f = fixed::within(ft_ms as int, 2_000_000, 50_000_000);
    fixed::lemma_round_between(f * 3, 5, 1_200_000, 30_000_000);
}

/// A press of the key toggles the overlay once, however long the key is held, and a
/// second press toggles it back.
pub proof fn law_two_presses_restore(t: OverlayToggle)
    requires
        !t.key_was_down,
    ensures
        t.after(true).visible == !t.visible,
        t.after(true).after(true) == t.after(true),
        t.after(true).after(false).after(true).after(false) == t,
{
}

} // verus!
