//! The mathematical model of the 64x32 monochrome framebuffer and of the
//! sprite-drawing instruction: wrapped start position, clipped sprite body,
//! per-pixel flipping (the XOR rule on 1-bit pixels) and the collision flag.

use vstd::prelude::*;

verus! {

/// Pixels are stored column-major in a flat sequence of 2048 one-bit cells:
/// column `x` of the grid occupies indices `32 * x .. 32 * x + 32`.
pub open spec fn pix_idx(x: int, y: int) -> int {
    32 * x + y
}

/// Flipping a 1-bit pixel: the effect of XOR-ing it with 1.
pub open spec fn flip(b: u8) -> u8 {
    if b == 1 {
        0
    } else {
        1
    }
}

/// Bit `c` of a sprite byte, counted from the most significant bit;
/// column 0 of the sprite row is the high bit.
pub open spec fn sprite_bit_set(b: u8, c: u8) -> bool {
    b & (0x80u8 >> c) != 0
}

/// Whether the draw of an `n`-row sprite read from memory address `i`,
/// with start position `(px, py)`, flips the pixel at `(x, y)`.
/// The sprite body is clipped at the right and bottom edges: rows at or
/// beyond row 32 and columns at or beyond column 64 are never drawn, and
/// nothing wraps around.
pub open spec fn flips(
    mem: Seq<u8>,
    i: int,
    px: int,
    py: int,
    n: int,
    x: int,
    y: int,
) -> bool {
    &&& px <= x < px + 8
    &&& x < 64
    &&& py <= y < py + n
    &&& y < 32
    &&& sprite_bit_set(mem[i + (y - py)], (x - px) as u8)
}

/// The framebuffer after drawing: every pixel the sprite flips is flipped,
/// every other pixel keeps its value.
pub open spec fn draw_display(
    d: Seq<u8>,
    mem: Seq<u8>,
    i: int,
    px: int,
    py: int,
    n: int,
) -> Seq<u8> {
    Seq::new(2048, |k: int| if flips(mem, i, px, py, n, k / 32, k % 32) {
        flip(d[k])
    } else {
        d[k]
    })
}

/// Whether the draw collides: some pixel that the sprite flips was already
/// on before the draw.
pub open spec fn draw_collides(
    d: Seq<u8>,
    mem: Seq<u8>,
    i: int,
    px: int,
    py: int,
    n: int,
) -> bool {
    exists|x: int, y: int|
        0 <= x < 64 && 0 <= y < 32 && flips(mem, i, px, py, n, x, y) && d[pix_idx(x, y)] == 1
}

/// How many sprite rows survive the bottom clip: rows `0 .. rows_drawn`
/// are processed, the rest fall below row 32 and are dropped.
pub open spec fn rows_drawn(py: int, n: int) -> int {
    if py >= 32 {
        0
    } else if n <= 32 - py {
        n
    } else {
        32 - py
    }
}

/// Whether the draw would read a sprite byte from outside the 4096-byte
/// address space: true exactly when some row that survives the bottom clip
/// lies at an out-of-range address.
pub open spec fn draw_oob(i: int, py: int, n: int) -> bool {
    rows_drawn(py, n) > 0 && i + rows_drawn(py, n) - 1 >= 4096
}

/// Whether the pixel at `(x, y)` is flipped by the first `r` full sprite
/// rows together with the first `c` columns of row `r`: the prefix of the
/// draw that a row-by-row, column-by-column pass has completed.
pub open spec fn flips_before(
    mem: Seq<u8>,
    i: int,
    px: int,
    py: int,
    r: int,
    c: int,
    x: int,
    y: int,
) -> bool {
    ||| flips(mem, i, px, py, r, x, y)
    ||| (y == py + r && y < 32 && px <= x < px + c && x < 64 && sprite_bit_set(
        mem[i + r],
        (x - px) as u8,
    ))
}

/// The framebuffer after the prefix of the draw described by `flips_before`.
pub open spec fn draw_display_partial(
    d: Seq<u8>,
    mem: Seq<u8>,
    i: int,
    px: int,
    py: int,
    r: int,
    c: int,
) -> Seq<u8> {
    Seq::new(2048, |k: int| if flips_before(mem, i, px, py, r, c, k / 32, k % 32) {
        flip(d[k])
    } else {
        d[k]
    })
}

/// Whether the prefix of the draw described by `flips_before` has collided.
pub open spec fn collides_before(
    d: Seq<u8>,
    mem: Seq<u8>,
    i: int,
    px: int,
    py: int,
    r: int,
    c: int,
) -> bool {
    exists|x: int, y: int|
        0 <= x < 64 && 0 <= y < 32 && flips_before(mem, i, px, py, r, c, x, y) && d[pix_idx(x, y)]
            == 1
}

/// The flat index of an on-screen pixel decomposes back into its column
/// and row.
pub proof fn lemma_pix_decomp(x: int, y: int)
    requires
        0 <= x < 64,
        0 <= y < 32,
    ensures
        pix_idx(x, y) / 32 == x,
        pix_idx(x, y) % 32 == y,
        0 <= pix_idx(x, y) < 2048,
{
    assert((32 * x + y) / 32 == x && (32 * x + y) % 32 == y) by (nonlinear_arith)
        requires
            0 <= x < 64 && 0 <= y < 32,
    ;
}

/// A draw of zero rows changes nothing and collides with nothing.
pub proof fn lemma_draw_zero_rows(d: Seq<u8>, mem: Seq<u8>, i: int, px: int, py: int)
    requires
        d.len() == 2048,
    ensures
        draw_display(d, mem, i, px, py, 0) == d,
        !draw_collides(d, mem, i, px, py, 0),
{
    assert(draw_display(d, mem, i, px, py, 0) =~= d);
}

/// A column-by-column pass that has completed no column of row `r` is the
/// draw of the first `r` rows.
pub proof fn lemma_partial_zero_cols(d: Seq<u8>, mem: Seq<u8>, i: int, px: int, py: int, r: int)
    requires
        d.len() == 2048,
    ensures
        draw_display_partial(d, mem, i, px, py, r, 0) == draw_display(d, mem, i, px, py, r),
        collides_before(d, mem, i, px, py, r, 0) == draw_collides(d, mem, i, px, py, r),
{
    assert(draw_display_partial(d, mem, i, px, py, r, 0) =~= draw_display(d, mem, i, px, py, r));
    if collides_before(d, mem, i, px, py, r, 0) {
        let (x, y) = choose|x: int, y: int|
            0 <= x < 64 && 0 <= y < 32 && flips_before(mem, i, px, py, r, 0, x, y) && d[pix_idx(
                x,
                y,
            )] == 1;
        assert(flips(mem, i, px, py, r, x, y));
        assert(draw_collides(d, mem, i, px, py, r));
    }
    if draw_collides(d, mem, i, px, py, r) {
        let (x, y) = choose|x: int, y: int|
            0 <= x < 64 && 0 <= y < 32 && flips(mem, i, px, py, r, x, y) && d[pix_idx(x, y)] == 1;
        assert(flips_before(mem, i, px, py, r, 0, x, y));
        assert(collides_before(d, mem, i, px, py, r, 0));
    }
}

/// A pass that has completed every column of row `r` that survives the
/// right clip is the draw of the first `r + 1` rows.
pub proof fn lemma_partial_all_cols(
    d: Seq<u8>,
    mem: Seq<u8>,
    i: int,
    px: int,
    py: int,
    r: int,
    c: int,
)
    requires
        d.len() == 2048,
        0 <= r,
        0 <= c <= 8,
        c == 8 || px + c >= 64,
    ensures
        draw_display_partial(d, mem, i, px, py, r, c) == draw_display(d, mem, i, px, py, r + 1),
        collides_before(d, mem, i, px, py, r, c) == draw_collides(d, mem, i, px, py, r + 1),
{
    assert forall|x: int, y: int| #[trigger] flips(mem, i, px, py, r + 1, x, y) == flips_before(
        mem,
        i,
        px,
        py,
        r,
        c,
        x,
        y,
    ) by {
        if flips(mem, i, px, py, r + 1, x, y) && !flips(mem, i, px, py, r, x, y) {
            assert(y == py + r && px <= x < px + 8 && x < 64);
            assert(x < px + c);
        }
    }
    assert(draw_display_partial(d, mem, i, px, py, r, c) =~= draw_display(
        d,
        mem,
        i,
        px,
        py,
        r + 1,
    ));
    if collides_before(d, mem, i, px, py, r, c) {
        let (x, y) = choose|x: int, y: int|
            0 <= x < 64 && 0 <= y < 32 && flips_before(mem, i, px, py, r, c, x, y) && d[pix_idx(
                x,
                y,
            )] == 1;
        assert(flips(mem, i, px, py, r + 1, x, y));
        assert(draw_collides(d, mem, i, px, py, r + 1));
    }
    if draw_collides(d, mem, i, px, py, r + 1) {
        let (x, y) = choose|x: int, y: int|
            0 <= x < 64 && 0 <= y < 32 && flips(mem, i, px, py, r + 1, x, y) && d[pix_idx(x, y)]
                == 1;
        assert(flips_before(mem, i, px, py, r, c, x, y));
        assert(collides_before(d, mem, i, px, py, r, c));
    }
}

/// Completing one more column whose sprite bit is set flips exactly the
/// pixel under that column — a pixel the pass had not touched yet.
pub proof fn lemma_partial_step_set(
    d: Seq<u8>,
    mem: Seq<u8>,
    i: int,
    px: int,
    py: int,
    r: int,
    c: int,
)
    requires
        d.len() == 2048,
        0 <= c < 8,
        0 <= px,
        px + c < 64,
        0 <= py,
        py + r < 32,
        0 <= r,
        sprite_bit_set(mem[i + r], c as u8),
    ensures
        draw_display_partial(d, mem, i, px, py, r, c)[pix_idx(px + c, py + r)] == d[pix_idx(
            px + c,
            py + r,
        )],
        draw_display_partial(d, mem, i, px, py, r, c + 1) == draw_display_partial(
            d,
            mem,
            i,
            px,
            py,
            r,
            c,
        ).update(pix_idx(px + c, py + r), flip(d[pix_idx(px + c, py + r)])),
        collides_before(d, mem, i, px, py, r, c + 1) == (collides_before(d, mem, i, px, py, r, c)
            || d[pix_idx(px + c, py + r)] == 1),
{
    let xx = px + c;
    let yy = py + r;
    let idx = pix_idx(xx, yy);
    lemma_pix_decomp(xx, yy);
    assert(!flips_before(mem, i, px, py, r, c, xx, yy));
    assert(flips_before(mem, i, px, py, r, c + 1, xx, yy));
    let lhs = draw_display_partial(d, mem, i, px, py, r, c + 1);
    let rhs = draw_display_partial(d, mem, i, px, py, r, c).update(idx, flip(d[idx]));
    assert forall|k: int| 0 <= k < 2048 implies lhs[k] == rhs[k] by {
        let x = k / 32;
        let y = k % 32;
        if k == idx {
            assert(x == xx && y == yy);
            assert(lhs[k] == flip(d[k]));
        } else {
            assert(!(x == xx && y == yy)) by {
                if x == xx && y == yy {
                    assert(k == 32 * x + y);
                }
            }
            assert(flips_before(mem, i, px, py, r, c + 1, x, y) == flips_before(
                mem,
                i,
                px,
                py,
                r,
                c,
                x,
                y,
            ));
        }
    }
    assert(lhs =~= rhs);
    if collides_before(d, mem, i, px, py, r, c + 1) {
        let (x, y) = choose|x: int, y: int|
            0 <= x < 64 && 0 <= y < 32 && flips_before(mem, i, px, py, r, c + 1, x, y) && d[pix_idx(
                x,
                y,
            )] == 1;
        if x == xx && y == yy {
            assert(d[idx] == 1);
        } else {
            assert(flips_before(mem, i, px, py, r, c, x, y));
            assert(collides_before(d, mem, i, px, py, r, c));
        }
    }
    if collides_before(d, mem, i, px, py, r, c) {
        let (x, y) = choose|x: int, y: int|
            0 <= x < 64 && 0 <= y < 32 && flips_before(mem, i, px, py, r, c, x, y) && d[pix_idx(
                x,
                y,
            )] == 1;
        assert(flips_before(mem, i, px, py, r, c + 1, x, y));
        assert(collides_before(d, mem, i, px, py, r, c + 1));
    }
    if d[idx] == 1 {
        assert(collides_before(d, mem, i, px, py, r, c + 1));
    }
}

/// Completing one more column whose sprite bit is clear changes nothing.
pub proof fn lemma_partial_step_clear(
    d: Seq<u8>,
    mem: Seq<u8>,
    i: int,
    px: int,
    py: int,
    r: int,
    c: int,
)
    requires
        d.len() == 2048,
        0 <= c < 8,
        0 <= px,
        px + c < 64,
        0 <= py,
        py + r < 32,
        0 <= r,
        !sprite_bit_set(mem[i + r], c as u8),
    ensures
        draw_display_partial(d, mem, i, px, py, r, c + 1) == draw_display_partial(
            d,
            mem,
            i,
            px,
            py,
            r,
            c,
        ),
        collides_before(d, mem, i, px, py, r, c + 1) == collides_before(d, mem, i, px, py, r, c),
{
    assert forall|x: int, y: int| #[trigger] flips_before(mem, i, px, py, r, c + 1, x, y)
        == flips_before(mem, i, px, py, r, c, x, y) by {
        if flips_before(mem, i, px, py, r, c + 1, x, y) && !flips_before(
            mem,
            i,
            px,
            py,
            r,
            c,
            x,
            y,
        ) {
            assert(x == px + c && y == py + r);
            assert(sprite_bit_set(mem[i + r], c as u8));
        }
    }
    assert(draw_display_partial(d, mem, i, px, py, r, c + 1) =~= draw_display_partial(
        d,
        mem,
        i,
        px,
        py,
        r,
        c,
    ));
    if collides_before(d, mem, i, px, py, r, c + 1) {
        let (x, y) = choose|x: int, y: int|
            0 <= x < 64 && 0 <= y < 32 && flips_before(mem, i, px, py, r, c + 1, x, y) && d[pix_idx(
                x,
                y,
            )] == 1;
        assert(flips_before(mem, i, px, py, r, c, x, y));
    }
    if collides_before(d, mem, i, px, py, r, c) {
        let (x, y) = choose|x: int, y: int|
            0 <= x < 64 && 0 <= y < 32 && flips_before(mem, i, px, py, r, c, x, y) && d[pix_idx(
                x,
                y,
            )] == 1;
        assert(flips_before(mem, i, px, py, r, c + 1, x, y));
    }
}

/// Flipping a 1-bit pixel is exactly XOR with 1.
pub proof fn lemma_flip_is_xor(b: u8)
    requires
        b == 0 || b == 1,
    ensures
        flip(b) == b ^ 1,
{
    assert(0u8 ^ 1u8 == 1u8) by (bit_vector);
    assert(1u8 ^ 1u8 == 0u8) by (bit_vector);
}

/// Rows clipped at the bottom edge contribute nothing: drawing `n` rows is
/// drawing only the rows that fit above row 32.
pub proof fn lemma_draw_row_clip(d: Seq<u8>, mem: Seq<u8>, i: int, px: int, py: int, n: int)
    requires
        d.len() == 2048,
        0 <= py < 32,
        0 <= n,
    ensures
        draw_display(d, mem, i, px, py, rows_drawn(py, n)) == draw_display(d, mem, i, px, py, n),
        draw_collides(d, mem, i, px, py, rows_drawn(py, n)) == draw_collides(d, mem, i, px, py, n),
{
    let rows = rows_drawn(py, n);
    assert forall|x: int, y: int| #[trigger] flips(mem, i, px, py, rows, x, y) == flips(
        mem,
        i,
        px,
        py,
        n,
        x,
        y,
    ) by {}
    assert(draw_display(d, mem, i, px, py, rows) =~= draw_display(d, mem, i, px, py, n));
    if draw_collides(d, mem, i, px, py, rows) {
        let (x, y) = choose|x: int, y: int|
            0 <= x < 64 && 0 <= y < 32 && flips(mem, i, px, py, rows, x, y) && d[pix_idx(x, y)]
                == 1;
        assert(flips(mem, i, px, py, n, x, y));
    }
    if draw_collides(d, mem, i, px, py, n) {
        let (x, y) = choose|x: int, y: int|
            0 <= x < 64 && 0 <= y < 32 && flips(mem, i, px, py, n, x, y) && d[pix_idx(x, y)] == 1;
        assert(flips(mem, i, px, py, rows, x, y));
    }
}

/// Law: drawing the same sprite twice at the same position restores the
/// framebuffer exactly — flipping a 1-bit pixel is an involution, and both
/// draws flip the same pixels.
pub proof fn lemma_draw_twice_restores(d: Seq<u8>, mem: Seq<u8>, i: int, px: int, py: int, n: int)
    requires
        d.len() == 2048,
        forall|k: int| 0 <= k < 2048 ==> d[k] == 0 || #[trigger] d[k] == 1,
    ensures
        draw_display(draw_display(d, mem, i, px, py, n), mem, i, px, py, n) == d,
{
    let d1 = draw_display(d, mem, i, px, py, n);
    let d2 = draw_display(d1, mem, i, px, py, n);
    assert forall|k: int| 0 <= k < 2048 implies d2[k] == d[k] by {
        assert(d[k] == 0 || d[k] == 1);
    }
    assert(d2 =~= d);
}

/// Law: a draw never changes a pixel outside the sprite's clipped
/// rectangle. In particular a sprite that reaches the bottom edge leaves
/// every row below the edge as it was and does not wrap to row 0, and one
/// that reaches the right edge does not wrap to column 0.
pub proof fn lemma_draw_clips(
    d: Seq<u8>,
    mem: Seq<u8>,
    i: int,
    px: int,
    py: int,
    n: int,
    x: int,
    y: int,
)
    requires
        d.len() == 2048,
        0 <= x < 64,
        0 <= y < 32,
        !(py <= y < py + n) || !(px <= x < px + 8),
    ensures
        draw_display(d, mem, i, px, py, n)[pix_idx(x, y)] == d[pix_idx(x, y)],
{
    lemma_pix_decomp(x, y);
    assert(!flips(mem, i, px, py, n, x, y));
}

} // verus!
