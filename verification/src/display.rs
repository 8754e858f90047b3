//! The 64x32 monochrome framebuffer and its wraparound XOR sprite blit.

use vstd::prelude::*;
use vstd::arithmetic::div_mod::{lemma_add_mod_noop, lemma_small_mod};

verus! {

/// Number of pixel columns.
pub const COLS: usize = 64;

/// Number of pixel rows.
pub const ROWS: usize = 32;

/// Tallest sprite that `draw` accepts, in rows.
pub const MAX_SPRITE_HEIGHT: usize = 15;

/// The state of one pixel.
#[derive(Clone, Copy, Debug, PartialEq, Eq, Structural)]
pub enum Pixel {
    On,
    Off,
}

impl Pixel {
    /// `On` for `true`, `Off` for `false`.
    pub fn from_bool(b: bool) -> (p: Pixel)
        ensures
            p == (if b {
                Pixel::On
            } else {
                Pixel::Off
            }),
    {
        if b {
            Pixel::On
        } else {
            Pixel::Off
        }
    }

    /// Whether the pixel is lit.
    pub fn is_on(&self) -> (r: bool)
        ensures
            r == (self is On),
    {
        match *self {
            Pixel::On => true,
            _ => false,
        }
    }

    /// Whether the pixel is dark.
    pub fn is_off(&self) -> (r: bool)
        ensures
            r == (self is Off),
    {
        match *self {
            Pixel::Off => true,
            _ => false,
        }
    }
}

/// The framebuffer: 32 rows of 64 pixels, each row one 64-bit word with
/// bit 63 as the leftmost pixel.
pub struct Display {
    p: [u64; 32],
}

impl View for Display {
    type V = Seq<u64>;

    closed spec fn view(&self) -> Seq<u64> {
        self.p@
    }
}

/// The 64-bit pattern that one sprite byte contributes to its target row
/// when drawn at column `x`: the byte sits in the top eight bits, shifted
/// right to column `x % 64`; bits pushed past column 63 wrap back to
/// column 0.
pub open spec fn sprite_mask(b: u8, x: u8) -> u64 {
    let s = (b as u64) << 56u64;
    let xm = x % 64;
    if xm == 0 {
        s
    } else {
        (s >> xm) ^ (s << (64 - xm))
    }
}

/// The display row that sprite row `k` lands on when drawing starts at
/// row `y`: rows wrap around past the bottom edge.
pub open spec fn target_row(y: u8, k: int) -> int {
    (y + k) % 32
}

/// XOR of the masks of all sprite rows that land on display row `r`.
pub open spec fn row_delta(sprite: Seq<u8>, x: u8, y: u8, r: int) -> u64
    decreases sprite.len(),
{
    if sprite.len() == 0 {
        0u64
    } else {
        let k = sprite.len() - 1;
        row_delta(sprite.drop_last(), x, y, r) ^ (if target_row(y, k as int) == r {
            sprite_mask(sprite[k as int], x)
        } else {
            0u64
        })
    }
}

/// The framebuffer after blitting `sprite` at `(x, y)`: every row XORed
/// with the masks that land on it.
pub open spec fn draw_rows(rows: Seq<u64>, sprite: Seq<u8>, x: u8, y: u8) -> Seq<u64> {
    Seq::new(rows.len(), |r: int| rows[r] ^ row_delta(sprite, x, y, r))
}

/// Whether blitting `sprite` at `(x, y)` would turn off a pixel that is
/// lit in `rows`: some sprite row overlaps a lit bit of its target row.
pub open spec fn collides(rows: Seq<u64>, sprite: Seq<u8>, x: u8, y: u8) -> bool
    decreases sprite.len(),
{
    if sprite.len() == 0 {
        false
    } else {
        let k = sprite.len() - 1;
        collides(rows, sprite.drop_last(), x, y) || (rows[target_row(y, k as int)] & sprite_mask(
            sprite[k as int],
            x,
        )) != 0
    }
}

proof fn lemma_xor_zero(a: u64)
    by (bit_vector)
    ensures
        a ^ 0u64 == a,
{
}

proof fn lemma_xor_assoc(a: u64, b: u64, c: u64)
    by (bit_vector)
    ensures
        (a ^ b) ^ c == a ^ (b ^ c),
{
}

proof fn lemma_xor_cancel(a: u64, b: u64)
    by (bit_vector)
    ensures
        (a ^ b) ^ b == a,
{
}

/// Two sprite rows fewer than 32 apart never land on the same display row.
proof fn lemma_target_rows_distinct(y: u8, j: int, k: int)
    requires
        0 <= j < k,
        k - j < 32,
    ensures
        target_row(y, j) != target_row(y, k),
{
    lemma_add_mod_noop(y + j, k - j, 32);
    lemma_small_mod((k - j) as nat, 32);
    assert((y + j) % 32 < 32) by {
        lemma_mod_bound(y + j, 32);
    }
}

proof fn lemma_mod_bound(x: int, m: int)
    requires
        0 <= x,
        0 < m,
    ensures
        0 <= x % m < m,
{
}

/// Rows that no sprite row lands on keep a zero delta.
proof fn lemma_row_delta_untouched(sprite: Seq<u8>, x: u8, y: u8, r: int)
    requires
        forall|k: int| 0 <= k < sprite.len() ==> target_row(y, k) != r,
    ensures
        row_delta(sprite, x, y, r) == 0u64,
    decreases sprite.len(),
{
    if sprite.len() > 0 {
        lemma_row_delta_untouched(sprite.drop_last(), x, y, r);
        lemma_xor_zero(0u64);
    }
}

impl Display {
    /// A fresh framebuffer with every pixel off.
    pub fn new() -> (d: Display)
        ensures
            d@ == Seq::new(32, |r: int| 0u64),
    {
        let d = Display { p: [0u64; 32] };
        proof {
            assert(d@ =~= Seq::new(32, |r: int| 0u64));
        }
        d
    }

    /// Read row `r` as its 64-bit mask.
    pub fn row(&self, r: usize) -> (bits: u64)
        requires
            r < 32,
        ensures
            bits == self@[r as int],
    {
        self.p[r]
    }

    /// Overwrite row `r` with the 64-bit mask `bits`.
    pub fn set_row(&mut self, r: usize, bits: u64)
        requires
            r < 32,
        ensures
            final(self)@ == old(self)@.update(r as int, bits),
    {
        self.p[r] = bits;
    }

    /// Turn every pixel off.
    pub fn clear(&mut self)
        ensures
            final(self)@ == Seq::new(32, |r: int| 0u64),
    {
        self.p = [0u64; 32];
        proof {
            assert(self@ =~= Seq::new(32, |r: int| 0u64));
        }
    }

    /// A restartable row-major walk over the pixels, most significant bit
    /// (leftmost pixel) first within each row.
    pub fn pixels(&self) -> (it: Pixels)
        ensures
            it.rows() == self@,
            it.pos() == 0,
    {
        Pixels { rows: self.p, idx: 0 }
    }

    /// XOR-composite `sprite` onto the framebuffer with origin `(x, y)`,
    /// one byte per row, wrapping around both edges. Returns whether any
    /// lit pixel was turned off. Drawing the same sprite at the same spot
    /// twice restores the framebuffer, since XOR is self-inverse.
    pub fn draw(&mut self, sprite: &[u8], x: u8, y: u8) -> (collision: bool)
        requires
            sprite@.len() <= MAX_SPRITE_HEIGHT,
        ensures
            final(self)@ == draw_rows(old(self)@, sprite@, x, y),
            collision == collides(old(self)@, sprite@, x, y),
    {
        let xm: u8 = x % 64;
        let mut collision = false;
        let mut k: usize = 0;
        proof {
            assert forall|r: int| 0 <= r < 32 implies self@[r] == old(self)@[r] ^ row_delta(
                sprite@.take(0),
                x,
                y,
                r,
            ) by {
                lemma_xor_zero(old(self)@[r]);
            }
        }
        while k < sprite.len()
            invariant
                k <= sprite@.len() <= 15,
                xm == x % 64,
                self@.len() == 32,
                old(self)@.len() == 32,
                forall|r: int|
                    0 <= r < 32 ==> self@[r] == old(self)@[r] ^ row_delta(
                        sprite@.take(k as int),
                        x,
                        y,
                        r,
                    ),
                collision == collides(old(self)@, sprite@.take(k as int), x, y),
            decreases sprite@.len() - k,
        {
            let ghost prefix = sprite@.take(k as int);
            let ry: usize = ((y as usize) % 32 + k) % 32;
            let s: u64 = (sprite[k] as u64) << 56u64;
            let mask: u64 = if xm == 0 {
                s
            } else {
                (s >> xm) ^ (s << (64 - xm))
            };
            proof {
                assert(mask == sprite_mask(sprite@[k as int], x));
                assert(ry as int == target_row(y, k as int)) by {
                    lemma_add_mod_noop(y as int, k as int, 32);
                    lemma_small_mod(k as nat, 32);
                    lemma_mod_bound((y as int) % 32 + k, 32);
                }
                assert forall|j: int| 0 <= j < k implies target_row(y, j) != ry as int by {
                    lemma_target_rows_distinct(y, j, k as int);
                }
                lemma_row_delta_untouched(prefix, x, y, ry as int);
                assert(self@[ry as int] == old(self)@[ry as int]) by {
                    lemma_xor_zero(old(self)@[ry as int]);
                }
            }
            let before: u64 = self.p[ry];
            if before & mask != 0 {
                collision = true;
            }
            self.p[ry] = before ^ mask;
            k = k + 1;
            proof {
                let step = sprite@.take(k as int);
                assert(step.drop_last() =~= prefix);
                assert(step.last() == sprite@[k - 1]);
                assert forall|r: int| 0 <= r < 32 implies self@[r] == old(self)@[r] ^ row_delta(
                    step,
                    x,
                    y,
                    r,
                ) by {
                    let d = row_delta(prefix, x, y, r);
                    if r == ry as int {
                        lemma_xor_assoc(old(self)@[r], d, mask);
                    } else {
                        lemma_xor_zero(d);
                    }
                }
            }
        }
        proof {
            assert(sprite@.take(sprite@.len() as int) =~= sprite@);
            assert(self@ =~= draw_rows(old(self)@, sprite@, x, y));
        }
        collision
    }
}

/// Law: blitting the same sprite at the same origin twice restores the
/// framebuffer exactly, because XOR is self-inverse.
pub proof fn lemma_draw_twice_restores(rows: Seq<u64>, sprite: Seq<u8>, x: u8, y: u8)
    ensures
        draw_rows(draw_rows(rows, sprite, x, y), sprite, x, y) == rows,
{
    let once = draw_rows(rows, sprite, x, y);
    assert forall|r: int| 0 <= r < rows.len() implies draw_rows(once, sprite, x, y)[r]
        == rows[r] by {
        lemma_xor_cancel(rows[r], row_delta(sprite, x, y, r));
    }
    assert(draw_rows(once, sprite, x, y) =~= rows);
}

/// Whether pixel `i` (row-major, leftmost first) is lit in `rows`.
pub open spec fn pixel_lit(rows: Seq<u64>, i: int) -> bool {
    (rows[i / 64] >> ((63 - i % 64) as u64)) & 1u64 == 1u64
}

/// The first `n` pixels of one row as text, the leftmost pixel first:
/// a full block for a lit pixel, a space for a dark one.
pub open spec fn row_chars(row: u64, n: int) -> Seq<char>
    decreases n,
{
    if n <= 0 {
        Seq::empty()
    } else {
        row_chars(row, n - 1).push(
            if (row >> ((64 - n) as u64)) & 1u64 == 1u64 {
                '█'
            } else {
                ' '
            },
        )
    }
}

/// The horizontal frame line: a corner, one dash per column, a corner,
/// and a line break.
pub open spec fn border_chars() -> Seq<char> {
    seq!['+'] + Seq::new(64, |i: int| '-') + seq!['+', '\n']
}

/// The first `n` rows as framed text lines.
pub open spec fn rows_chars(rows: Seq<u64>, n: int) -> Seq<char>
    decreases n,
{
    if n <= 0 {
        Seq::empty()
    } else {
        rows_chars(rows, n - 1) + seq!['|'] + row_chars(rows[n - 1], 64) + seq!['|', '\n']
    }
}

/// The whole framebuffer as text: a border, one framed line per row,
/// and a border.
pub open spec fn display_text(rows: Seq<u64>) -> Seq<char> {
    border_chars() + rows_chars(rows, 32) + border_chars()
}

impl Display {
    /// Render the framebuffer as text, one framed line per row with lit
    /// pixels as full blocks, between two horizontal borders.
    pub fn to_text(&self) -> (out: Vec<char>)
        ensures
            out@ == display_text(self@),
    {
        let mut out: Vec<char> = Vec::new();
        push_border(&mut out);
        proof {
            assert(out@ =~= border_chars() + rows_chars(self@, 0));
        }
        let mut r: usize = 0;
        while r < 32
            invariant
                r <= 32,
                self@.len() == 32,
                out@ == border_chars() + rows_chars(self@, r as int),
            decreases 32 - r,
        {
            let row: u64 = self.p[r];
            out.push('|');
            let ghost base = out@;
            let mut c: usize = 0;
            while c < 64
                invariant
                    c <= 64,
                    out@ == base + row_chars(row, c as int),
                decreases 64 - c,
            {
                let lit: bool = (row >> (63 - c) as u64) & 1 == 1;
                out.push(if lit {
                    '█'
                } else {
                    ' '
                });
                c = c + 1;
                proof {
                    assert(out@ =~= base + row_chars(row, c as int));
                }
            }
            out.push('|');
            out.push('\n');
            r = r + 1;
            proof {
                assert(out@ =~= border_chars() + rows_chars(self@, r as int));
            }
        }
        push_border(&mut out);
        proof {
            assert(out@ =~= display_text(self@));
        }
        out
    }
}

/// Append one horizontal frame line to `out`.
fn push_border(out: &mut Vec<char>)
    ensures
        final(out)@ == old(out)@ + border_chars(),
{
    out.push('+');
    let ghost base = out@;
    let mut i: usize = 0;
    while i < 64
        invariant
            i <= 64,
            out@ == base + Seq::new(i as nat, |j: int| '-'),
        decreases 64 - i,
    {
        out.push('-');
        i = i + 1;
        proof {
            assert(out@ =~= base + Seq::new(i as nat, |j: int| '-'));
        }
    }
    out.push('+');
    out.push('\n');
    proof {
        assert(out@ =~= old(out)@ + border_chars());
    }
}

/// A finite walk over the 2048 pixels of a framebuffer snapshot, in
/// row-major order with the leftmost pixel of each row first.
pub struct Pixels {
    rows: [u64; 32],
    idx: usize,
}

impl Pixels {
    /// The framebuffer snapshot being walked.
    pub closed spec fn rows(&self) -> Seq<u64> {
        self.rows@
    }

    /// Index of the next pixel to hand out, counting row-major from zero.
    pub closed spec fn pos(&self) -> int {
        self.idx as int
    }

    /// The next pixel, `None` once all 2048 have been handed out.
    pub fn next(&mut self) -> (r: Option<Pixel>)
        ensures
            final(self).rows() == old(self).rows(),
            old(self).pos() >= 2048 ==> r is None && final(self).pos() == old(self).pos(),
            old(self).pos() < 2048 ==> {
                &&& final(self).pos() == old(self).pos() + 1
                &&& r == Some(
                    if pixel_lit(old(self).rows(), old(self).pos()) {
                        Pixel::On
                    } else {
                        Pixel::Off
                    },
                )
            },
    {
        if self.idx >= 2048 {
            return None;
        }
        let row: u64 = self.rows[self.idx / 64];
        let shift: u64 = 63 - (self.idx as u64) % 64;
        let on: bool = (row >> shift) & 1 == 1;
        self.idx = self.idx + 1;
        Some(Pixel::from_bool(on))
    }
}

} // verus!
