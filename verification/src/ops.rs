//! Register-file transformations of the arithmetic and shift opcodes, and
//! the laws of their carry and borrow flags.

use vstd::prelude::*;

verus! {

/// Register file after `Vx := Vx + Vy` with carry: the destination takes
/// the 8-bit wrapped sum, then the flag register takes 1 exactly when the
/// sum overflowed a byte.
pub open spec fn add_spec(r: Seq<u8>, x: int, y: int) -> Seq<u8> {
    let sum = r[x] + r[y];
    r.update(x, (sum % 256) as u8).update(
        15,
        if sum >= 256 {
            1u8
        } else {
            0u8
        },
    )
}

/// Register file after `Vx := Vx - Vy` with borrow: the destination takes
/// the 8-bit wrapped difference, then the flag register takes 0 exactly
/// when the subtraction underflowed (and 1 otherwise — the polarity is the
/// inverse of the carry).
pub open spec fn sub_spec(r: Seq<u8>, x: int, y: int) -> Seq<u8> {
    let d = if r[x] >= r[y] {
        r[x] - r[y]
    } else {
        r[x] - r[y] + 256
    };
    r.update(x, d as u8).update(
        15,
        if r[x] >= r[y] {
            1u8
        } else {
            0u8
        },
    )
}

/// Register file after `Vx := Vy - Vx`: when the subtraction would
/// underflow, the destination is left unchanged and the flag register
/// takes 1; otherwise the destination takes the difference and the flag
/// register takes 0.
pub open spec fn rsub_spec(r: Seq<u8>, x: int, y: int) -> Seq<u8> {
    if r[y] >= r[x] {
        r.update(x, (r[y] - r[x]) as u8).update(15, 0u8)
    } else {
        r.update(15, 1u8)
    }
}

/// Register file after the right shift: with the swap option Vx first
/// takes Vy; the flag register takes the low bit before the shift; then
/// the shifted value lands in Vx. The updates happen in that order, so a
/// shift whose destination is the flag register shifts the just-written
/// bit.
pub open spec fn shr_spec(r: Seq<u8>, x: int, y: int, swap: bool) -> Seq<u8> {
    let r1 = if swap {
        r.update(x, r[y])
    } else {
        r
    };
    let r2 = r1.update(15, r1[x] & 1);
    r2.update(x, r2[x] >> 1u8)
}

/// Register file after the left shift, the mirror of the right shift: the
/// flag register takes the high bit before the shift.
pub open spec fn shl_spec(r: Seq<u8>, x: int, y: int, swap: bool) -> Seq<u8> {
    let r1 = if swap {
        r.update(x, r[y])
    } else {
        r
    };
    let r2 = r1.update(15, (r1[x] & 0x80) >> 7u8);
    r2.update(x, r2[x] << 1u8)
}

/// Law: adding Vy into Vx yields Vx = (Vx + Vy) mod 256, and the flag
/// register is 1 exactly when Vx + Vy reached 256. The destination must not
/// itself be the flag register, which receives the carry instead.
pub proof fn lemma_add_carry(r: Seq<u8>, x: int, y: int)
    requires
        r.len() == 16,
        0 <= x < 16,
        0 <= y < 16,
        x != 15,
    ensures
        add_spec(r, x, y).len() == 16,
        add_spec(r, x, y)[x] == (r[x] + r[y]) % 256,
        add_spec(r, x, y)[15] == 1u8 <==> r[x] + r[y] >= 256,
        add_spec(r, x, y)[15] == 0u8 <==> r[x] + r[y] < 256,
{
}

/// Law: subtracting Vy from Vx yields Vx = (Vx - Vy) mod 256, and the flag
/// register is 0 exactly when Vx < Vy (underflow), 1 otherwise. The
/// destination must not itself be the flag register, which receives the
/// borrow flag instead.
pub proof fn lemma_sub_borrow(r: Seq<u8>, x: int, y: int)
    requires
        r.len() == 16,
        0 <= x < 16,
        0 <= y < 16,
        x != 15,
    ensures
        sub_spec(r, x, y).len() == 16,
        sub_spec(r, x, y)[x] == (r[x] - r[y]) % 256,
        sub_spec(r, x, y)[15] == 0u8 <==> r[x] < r[y],
        sub_spec(r, x, y)[15] == 1u8 <==> r[x] >= r[y],
{
}

} // verus!
