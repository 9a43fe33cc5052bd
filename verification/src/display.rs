//! The monochrome 64x32 framebuffer with XOR sprite drawing.
//!
//! The pixel store is a `bit_vec::BitVec`; everything the library proves about
//! it goes through `bits_of`, the sequence of bits it holds, and a handful of
//! trusted wrappers around the `bit_vec` calls. Sprite drawing wraps both
//! coordinates, XORs the sprite onto the buffer, and reports a collision
//! exactly when some pixel that was lit before the call is unlit after it.

use vstd::prelude::*;

verus! {

/// Screen width in pixels.
pub const SCREEN_W: usize = 64;

/// Screen height in pixels.
pub const SCREEN_H: usize = 32;

/// Total number of pixels, row-major.
pub const PIXEL_COUNT: usize = 2048;

#[verifier::external_type_specification]
#[verifier::external_body]
#[verifier::reject_recursive_types(B)]
pub struct ExBitVec<B>(bit_vec::BitVec<B>);

/// The bits a `bit_vec::BitVec` holds, in index order.
pub uninterp spec fn bits_of(b: bit_vec::BitVec<u32>) -> Seq<bool>;

/// Whether bit `j` of `b` is set, counting the most significant bit as bit 0
/// (the leftmost pixel of a sprite row).
pub open spec fn byte_bit(b: u8, j: int) -> bool
    recommends
        0 <= j < 8,
{
    (b >> ((7 - j) as u8)) & 1 == 1
}

/// Relies on bit_vec::BitVec::from_bytes: each byte becomes eight bits, most
/// significant bit first.
#[verifier::external_body]
fn bv_from_bytes(bytes: &Vec<u8>) -> (r: bit_vec::BitVec<u32>)
    ensures
        bits_of(r).len() == 8 * bytes@.len(),
        forall|i: int|
            0 <= i < 8 * bytes@.len() ==> bits_of(r)[i] == byte_bit(bytes@[i / 8], i % 8),
{
    bit_vec::BitVec::from_bytes(bytes.as_slice())
}

/// Relies on bit_vec::BitVec::get: the bit at `i`, or `None` past the end.
#[verifier::external_body]
fn bv_get(b: &bit_vec::BitVec<u32>, i: usize) -> (r: Option<bool>)
    ensures
        r == (if i < bits_of(*b).len() {
            Some(bits_of(*b)[i as int])
        } else {
            None::<bool>
        }),
{
    b.get(i)
}

/// Relies on bit_vec::BitVec::set: replaces the bit at `i`; it panics past
/// the end, so the index must be in range.
#[verifier::external_body]
fn bv_set(b: &mut bit_vec::BitVec<u32>, i: usize, x: bool)
    requires
        i < bits_of(*old(b)).len(),
    ensures
        bits_of(*final(b)) == bits_of(*old(b)).update(i as int, x),
{
    b.set(i, x)
}

/// Relies on bit_vec::BitVec::fill: sets every bit to the given value.
#[verifier::external_body]
fn bv_fill(b: &mut bit_vec::BitVec<u32>, x: bool)
    ensures
        bits_of(*final(b)) == Seq::new(bits_of(*old(b)).len(), |i: int| x),
{
    b.fill(x)
}

/// Relies on bit_vec::BitVec::clone: an exact copy of the bits.
#[verifier::external_body]
fn bv_clone(b: &bit_vec::BitVec<u32>) -> (r: bit_vec::BitVec<u32>)
    ensures
        bits_of(r) == bits_of(*b),
{
    b.clone()
}

/// Framebuffer cell addressed by raw coordinates `(x, y)`: both wrap, so any
/// nonnegative pair lands on a valid cell.
pub open spec fn pix_index(x: int, y: int) -> int
    recommends
        0 <= x,
        0 <= y,
{
    (y % (SCREEN_H as int)) * (SCREEN_W as int) + x % (SCREEN_W as int)
}

/// `fb` with the pixel at `p` flipped when `b` holds.
pub open spec fn flip(fb: Seq<bool>, p: int, b: bool) -> Seq<bool> {
    if b {
        fb.update(p, !fb[p])
    } else {
        fb
    }
}

/// `fb` after XOR-drawing the leftmost `j` bits of sprite row `row`, whose
/// raw coordinates start at `(x, y)`.
pub open spec fn draw_row_bits(fb: Seq<bool>, row: u8, x: int, y: int, j: int) -> Seq<bool>
    decreases j,
{
    if j <= 0 {
        fb
    } else {
        flip(draw_row_bits(fb, row, x, y, j - 1), pix_index(x + (j - 1), y), byte_bit(row, j - 1))
    }
}

/// `fb` after XOR-drawing every row of `sprite`, row `i` at raw coordinates
/// `(x, y + i)`, rows in order.
pub open spec fn draw_fb(fb: Seq<bool>, sprite: Seq<u8>, x: int, y: int) -> Seq<bool>
    decreases sprite.len(),
{
    if sprite.len() == 0 {
        fb
    } else {
        draw_row_bits(
            draw_fb(fb, sprite.drop_last(), x, y),
            sprite.last(),
            x,
            y + sprite.len() - 1,
            8,
        )
    }
}

/// Whether drawing `sprite` at `(x, y)` turns some lit pixel off: the
/// collision flag, judged pixel by pixel against the pre-draw buffer.
pub open spec fn draw_collides(fb: Seq<bool>, sprite: Seq<u8>, x: int, y: int) -> bool {
    exists|p: int| 0 <= p < fb.len() && fb[p] && !draw_fb(fb, sprite, x, y)[p]
}

/// Every raw coordinate pair addresses a valid framebuffer cell.
pub proof fn lemma_pix_index_range(x: int, y: int)
    requires
        0 <= x,
        0 <= y,
    ensures
        0 <= pix_index(x, y) < PIXEL_COUNT,
{
    assert(0 <= y % (SCREEN_H as int) < SCREEN_H);
    assert(0 <= x % (SCREEN_W as int) < SCREEN_W);
}

/// Drawing one row never changes the buffer's length.
pub proof fn lemma_draw_row_bits_len(fb: Seq<bool>, row: u8, x: int, y: int, j: int)
    requires
        0 <= x,
        0 <= y,
        fb.len() == PIXEL_COUNT,
    ensures
        draw_row_bits(fb, row, x, y, j).len() == fb.len(),
    decreases j,
{
    if j > 0 {
        lemma_draw_row_bits_len(fb, row, x, y, j - 1);
        lemma_pix_index_range(x + (j - 1), y);
    }
}

/// Drawing a sprite never changes the buffer's length.
pub proof fn lemma_draw_fb_len(fb: Seq<bool>, sprite: Seq<u8>, x: int, y: int)
    requires
        0 <= x,
        0 <= y,
        fb.len() == PIXEL_COUNT,
    ensures
        draw_fb(fb, sprite, x, y).len() == fb.len(),
    decreases sprite.len(),
{
    if sprite.len() > 0 {
        lemma_draw_fb_len(fb, sprite.drop_last(), x, y);
        lemma_draw_row_bits_len(
            draw_fb(fb, sprite.drop_last(), x, y),
            sprite.last(),
            x,
            y + sprite.len() - 1,
            8,
        );
    }
}

/// Whether the leftmost `j` bits of `row` flip the pixel at `p` an odd number
/// of times.
spec fn row_parity(row: u8, x: int, y: int, j: int, p: int) -> bool
    decreases j,
{
    if j <= 0 {
        false
    } else {
        row_parity(row, x, y, j - 1, p) != (byte_bit(row, j - 1) && pix_index(x + (j - 1), y)
            == p)
    }
}

/// Whether the whole sprite flips the pixel at `p` an odd number of times.
spec fn sprite_parity(sprite: Seq<u8>, x: int, y: int, p: int) -> bool
    decreases sprite.len(),
{
    if sprite.len() == 0 {
        false
    } else {
        sprite_parity(sprite.drop_last(), x, y, p) != row_parity(
            sprite.last(),
            x,
            y + sprite.len() - 1,
            8,
            p,
        )
    }
}

proof fn lemma_draw_row_bits_at(fb: Seq<bool>, row: u8, x: int, y: int, j: int, p: int)
    requires
        0 <= x,
        0 <= y,
        fb.len() == PIXEL_COUNT,
        0 <= p < PIXEL_COUNT,
    ensures
        draw_row_bits(fb, row, x, y, j)[p] == (fb[p] != row_parity(row, x, y, j, p)),
    decreases j,
{
    if j > 0 {
        lemma_draw_row_bits_at(fb, row, x, y, j - 1, p);
        lemma_draw_row_bits_len(fb, row, x, y, j - 1);
        lemma_pix_index_range(x + (j - 1), y);
    }
}

proof fn lemma_draw_fb_at(fb: Seq<bool>, sprite: Seq<u8>, x: int, y: int, p: int)
    requires
        0 <= x,
        0 <= y,
        fb.len() == PIXEL_COUNT,
        0 <= p < PIXEL_COUNT,
    ensures
        draw_fb(fb, sprite, x, y)[p] == (fb[p] != sprite_parity(sprite, x, y, p)),
    decreases sprite.len(),
{
    if sprite.len() > 0 {
        lemma_draw_fb_at(fb, sprite.drop_last(), x, y, p);
        lemma_draw_fb_len(fb, sprite.drop_last(), x, y);
        lemma_draw_row_bits_at(
            draw_fb(fb, sprite.drop_last(), x, y),
            sprite.last(),
            x,
            y + sprite.len() - 1,
            8,
            p,
        );
    }
}

/// Drawing the same sprite twice at the same origin restores the pre-draw
/// framebuffer exactly (XOR is self-inverse), and when the first draw lit
/// some pixel, the second draw reports a collision.
pub proof fn lemma_draw_twice_restores(fb: Seq<bool>, sprite: Seq<u8>, x: int, y: int)
    requires
        0 <= x,
        0 <= y,
        fb.len() == PIXEL_COUNT,
    ensures
        draw_fb(draw_fb(fb, sprite, x, y), sprite, x, y) == fb,
        (exists|p: int| 0 <= p < fb.len() && !fb[p] && draw_fb(fb, sprite, x, y)[p])
            ==> draw_collides(draw_fb(fb, sprite, x, y), sprite, x, y),
{
    let fb1 = draw_fb(fb, sprite, x, y);
    let fb2 = draw_fb(fb1, sprite, x, y);
    lemma_draw_fb_len(fb, sprite, x, y);
    lemma_draw_fb_len(fb1, sprite, x, y);
    assert forall|p: int| 0 <= p < PIXEL_COUNT implies fb2[p] == fb[p] by {
        lemma_draw_fb_at(fb, sprite, x, y, p);
        lemma_draw_fb_at(fb1, sprite, x, y, p);
    }
    assert(fb2 =~= fb);
    if exists|p: int| 0 <= p < fb.len() && !fb[p] && fb1[p] {
        let p = choose|p: int| 0 <= p < fb.len() && !fb[p] && fb1[p];
        assert(fb1[p] && !draw_fb(fb1, sprite, x, y)[p]);
    }
}

proof fn lemma_draw_row_zero(fb: Seq<bool>, x: int, y: int, j: int)
    ensures
        draw_row_bits(fb, 0u8, x, y, j) == fb,
    decreases j,
{
    assert(forall|s: u8| #[trigger] ((0u8 >> s) & 1) != 1) by (bit_vector);
    if j > 0 {
        lemma_draw_row_zero(fb, x, y, j - 1);
    }
}

/// A sprite whose rows are all zero leaves the framebuffer unchanged and
/// never reports a collision.
pub proof fn lemma_draw_blank_sprite(fb: Seq<bool>, sprite: Seq<u8>, x: int, y: int)
    requires
        forall|i: int| 0 <= i < sprite.len() ==> sprite[i] == 0u8,
    ensures
        draw_fb(fb, sprite, x, y) == fb,
        !draw_collides(fb, sprite, x, y),
    decreases sprite.len(),
{
    if sprite.len() > 0 {
        lemma_draw_blank_sprite(fb, sprite.drop_last(), x, y);
        lemma_draw_row_zero(fb, x, y + sprite.len() - 1, 8);
    }
}

proof fn lemma_row_x_congruent(fb: Seq<bool>, row: u8, x1: int, x2: int, y: int, j: int)
    requires
        0 <= x1,
        0 <= x2,
        x1 % (SCREEN_W as int) == x2 % (SCREEN_W as int),
    ensures
        draw_row_bits(fb, row, x1, y, j) == draw_row_bits(fb, row, x2, y, j),
    decreases j,
{
    if j > 0 {
        lemma_row_x_congruent(fb, row, x1, x2, y, j - 1);
        vstd::arithmetic::div_mod::lemma_add_mod_noop(x1, j - 1, SCREEN_W as int);
        vstd::arithmetic::div_mod::lemma_add_mod_noop(x2, j - 1, SCREEN_W as int);
        assert((x1 + (j - 1)) % (SCREEN_W as int) == (x2 + (j - 1)) % (SCREEN_W as int));
    }
}

/// Horizontal coordinates wrap modulo the screen width: two x positions that
/// agree modulo 64 (such as 0 and 64, or 6 and 70) address the same pixel
/// column, and drawing at either gives the same framebuffer and the same
/// collision flag.
pub proof fn lemma_draw_x_wraps(fb: Seq<bool>, sprite: Seq<u8>, x1: int, x2: int, y: int)
    requires
        0 <= x1,
        0 <= x2,
        x1 % (SCREEN_W as int) == x2 % (SCREEN_W as int),
    ensures
        pix_index(x1, y) == pix_index(x2, y),
        draw_fb(fb, sprite, x1, y) == draw_fb(fb, sprite, x2, y),
        draw_collides(fb, sprite, x1, y) == draw_collides(fb, sprite, x2, y),
    decreases sprite.len(),
{
    if sprite.len() > 0 {
        lemma_draw_x_wraps(fb, sprite.drop_last(), x1, x2, y);
        lemma_row_x_congruent(
            draw_fb(fb, sprite.drop_last(), x1, y),
            sprite.last(),
            x1,
            x2,
            y + sprite.len() - 1,
            8,
        );
    }
}

/// Monochrome framebuffer; the view is the sequence of pixels, row-major,
/// `true` meaning lit.
pub struct Display {
    buffer: bit_vec::BitVec<u32>,
}

impl View for Display {
    type V = Seq<bool>;

    closed spec fn view(&self) -> Seq<bool> {
        bits_of(self.buffer)
    }
}

impl Display {
    /// The buffer always holds exactly one bit per screen pixel.
    pub open spec fn well_formed(&self) -> bool {
        self@.len() == PIXEL_COUNT
    }

    /// A fresh display with every pixel off.
    pub fn new() -> (d: Display)
        ensures
            d.well_formed(),
            forall|p: int| 0 <= p < PIXEL_COUNT ==> !d@[p],
    {
        let zeros: Vec<u8> = vec![0u8; 256];
        let buffer = bv_from_bytes(&zeros);
        proof {
            assert(forall|s: u8| #[trigger] ((0u8 >> s) & 1) != 1) by (bit_vector);
        }
        Display { buffer }
    }

    /// Turns every pixel off.
    pub fn clear(&mut self)
        requires
            old(self).well_formed(),
        ensures
            final(self).well_formed(),
            forall|p: int| 0 <= p < PIXEL_COUNT ==> !final(self)@[p],
    {
        bv_fill(&mut self.buffer, false);
    }

    /// The pixel at column `x`, row `y`, for read-only inspection by a
    /// rendering collaborator.
    pub fn pixel(&self, x: usize, y: usize) -> (r: bool)
        requires
            self.well_formed(),
            x < SCREEN_W,
            y < SCREEN_H,
        ensures
            r == self@[y * SCREEN_W + x],
    {
        let got = bv_get(&self.buffer, y * SCREEN_W + x);
        match got {
            Some(b) => b,
            None => false,
        }
    }

    /// XOR-draws `sprite` with its top-left corner at `(pos_x, pos_y)`: row
    /// `i` lands on screen row `(pos_y + i) mod 32`, bit `j` of a row (most
    /// significant bit leftmost) on column `(pos_x + j) mod 64`. Returns the
    /// collision flag: whether some pixel lit before the call is unlit after
    /// it.
    pub fn draw(&mut self, sprite: &[u8], pos_x: u8, pos_y: u8) -> (collision: bool)
        requires
            old(self).well_formed(),
        ensures
            final(self).well_formed(),
            final(self)@ == draw_fb(old(self)@, sprite@, pos_x as int, pos_y as int),
            collision == draw_collides(old(self)@, sprite@, pos_x as int, pos_y as int),
    {
        let ghost fb0 = self@;
        let ghost px = pos_x as int;
        let ghost py = pos_y as int;
        let snapshot = bv_clone(&self.buffer);
        let mut i: usize = 0;
        while i < sprite.len()
            invariant
                i <= sprite@.len(),
                px == pos_x as int,
                py == pos_y as int,
                fb0.len() == PIXEL_COUNT,
                bits_of(self.buffer) == draw_fb(fb0, sprite@.take(i as int), px, py),
                bits_of(self.buffer).len() == PIXEL_COUNT,
            decreases sprite@.len() - i,
        {
            let row = sprite[i];
            let ghost base = bits_of(self.buffer);
            let y_eff = (pos_y as usize % SCREEN_H + i % SCREEN_H) % SCREEN_H;
            proof {
                vstd::arithmetic::div_mod::lemma_add_mod_noop(
                    pos_y as int,
                    i as int,
                    SCREEN_H as int,
                );
                assert(y_eff == (py + i) % (SCREEN_H as int));
            }
            let mut j: usize = 0;
            while j < 8
                invariant
                    j <= 8,
                    i < sprite@.len(),
                    px == pos_x as int,
                    py == pos_y as int,
                    row == sprite@[i as int],
                    fb0.len() == PIXEL_COUNT,
                    base.len() == PIXEL_COUNT,
                    y_eff == (py + i) % (SCREEN_H as int),
                    y_eff < SCREEN_H,
                    bits_of(self.buffer) == draw_row_bits(base, row, px, py + i, j as int),
                    bits_of(self.buffer).len() == PIXEL_COUNT,
                decreases 8 - j,
            {
                let x_eff = (pos_x as usize + j) % SCREEN_W;
                let idx = y_eff * SCREEN_W + x_eff;
                let sh: u8 = (7 - j) as u8;
                let bit = (row >> sh) & 1 == 1;
                proof {
                    assert(idx == pix_index(px + j, py + i));
                    assert(bit == byte_bit(row, j as int));
                    lemma_pix_index_range(px + j, py + i);
                }
                if bit {
                    let cur = match bv_get(&self.buffer, idx) {
                        Some(b) => b,
                        None => false,
                    };
                    bv_set(&mut self.buffer, idx, !cur);
                }
                proof {
                    assert(bits_of(self.buffer) == flip(
                        draw_row_bits(base, row, px, py + i, j as int),
                        pix_index(px + j, py + i),
                        byte_bit(row, j as int),
                    ));
                    assert(bits_of(self.buffer) == draw_row_bits(
                        base,
                        row,
                        px,
                        py + i,
                        j as int + 1,
                    ));
                }
                j += 1;
            }
            proof {
                assert(sprite@.take(i as int + 1).drop_last() =~= sprite@.take(i as int));
                assert(sprite@.take(i as int + 1).last() == sprite@[i as int]);
                assert(bits_of(self.buffer) == draw_fb(fb0, sprite@.take(i as int + 1), px, py));
            }
            i += 1;
        }
        proof {
            assert(sprite@.take(sprite@.len() as int) =~= sprite@);
        }
        let mut collision = false;
        let mut p: usize = 0;
        while p < PIXEL_COUNT
            invariant
                p <= PIXEL_COUNT,
                fb0.len() == PIXEL_COUNT,
                bits_of(snapshot) == fb0,
                bits_of(self.buffer) == draw_fb(fb0, sprite@, px, py),
                bits_of(self.buffer).len() == PIXEL_COUNT,
                collision == exists|q: int|
                    0 <= q < p && fb0[q] && !bits_of(self.buffer)[q],
            decreases PIXEL_COUNT - p,
        {
            let was = match bv_get(&snapshot, p) {
                Some(b) => b,
                None => false,
            };
            let now = match bv_get(&self.buffer, p) {
                Some(b) => b,
                None => false,
            };
            if was && !now {
                collision = true;
                proof {
                    assert(fb0[p as int] && !bits_of(self.buffer)[p as int]);
                }
            }
            p += 1;
        }
        collision
    }
}

} // verus!
