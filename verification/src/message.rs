//! The numbers packed into window-message parameters: words, signed
//! coordinates and wheel deltas.
use vstd::prelude::*;

verus! {

/// The low 16 bits of a parameter.
pub open spec fn low(v: int) -> int {
    v % 0x1_0000
}

/// The 16 bits above the low ones.
pub open spec fn high(v: int) -> int {
    v / 0x1_0000 % 0x1_0000
}

/// A 16-bit word read as a signed number.
pub open spec fn signed(word: int) -> int {
    if word >= 0x8000 {
        word - 0x1_0000
    } else {
        word
    }
}

/// The low word of a signed parameter.
fn low_word(v: isize) -> (r: u16)
    ensures
        r == low(v as int),
{
    let w: isize = v & 0xffff;
    assert(0 <= v & 0xffff <= 0xffff && v & 0xffff == v % 0x1_0000) by (bit_vector);
    w as u16
}

/// The word above the low one of a signed parameter.
fn high_word(v: isize) -> (r: u16)
    ensures
        r == high(v as int),
{
    let w: isize = (v >> 16) & 0xffff;
    assert(0 <= (v >> 16) & 0xffff <= 0xffff && (v >> 16) & 0xffff == v / 0x1_0000 % 0x1_0000)
        by (bit_vector);
    w as u16
}

/// A word as the signed number it stands for.
fn as_signed(word: u16) -> (r: i32)
    ensures
        r == signed(word as int),
{
    if word >= 0x8000 {
        word as i32 - 0x1_0000
    } else {
        word as i32
    }
}

/// The horizontal coordinate of a mouse message, which is negative to the left
/// of the window's origin.
pub fn mouse_x(lparam: isize) -> (r: i32)
    ensures
        r == signed(low(lparam as int)),
        -0x8000 <= r < 0x8000,
{
    as_signed(low_word(lparam))
}

/// The vertical coordinate of a mouse message, which is negative above the
/// window's origin.
pub fn mouse_y(lparam: isize) -> (r: i32)
    ensures
        r == signed(high(lparam as int)),
        -0x8000 <= r < 0x8000,
{
    as_signed(high_word(lparam))
}

/// The distance of a wheel message: positive away from the user.
pub fn wheel_delta(wparam: usize) -> (r: i32)
    ensures
        r == signed(high(wparam as int)),
        -0x8000 <= r < 0x8000,
{
    let w: usize = (wparam >> 16) & 0xffff;
    assert((wparam >> 16) & 0xffff <= 0xffff && (wparam >> 16) & 0xffff == wparam / 0x1_0000
        % 0x1_0000) by (bit_vector);
    as_signed(w as u16)
}

/// The low word of an unsigned parameter.
pub fn word_of(wparam: usize) -> (r: u32)
    ensures
        r == low(wparam as int),
{
    let w: usize = wparam & 0xffff;
    assert(wparam & 0xffff <= 0xffff && wparam & 0xffff == wparam % 0x1_0000) by (bit_vector);
    w as u32
}

/// The client size a size message carries, at least one pixel a side.
pub fn client_size(lparam: isize) -> (r: (i32, i32))
    ensures
        r.0 == crate::geometry::max_of(low(lparam as int), 1),
        r.1 == crate::geometry::max_of(high(lparam as int), 1),
{
    (
        crate::geometry::max_i32(low_word(lparam) as i32, 1),
        crate::geometry::max_i32(high_word(lparam) as i32, 1),
    )
}

/// Packing two signed coordinates into a parameter and reading them back gives
/// the coordinates again.
pub proof fn law_coordinates_survive_packing(x: int, y: int)
    requires
        -0x8000 <= x < 0x8000,
        -0x8000 <= y < 0x8000,
    ensures
        signed(low(low(x) + 0x1_0000 * low(y))) == x,
        signed(high(low(x) + 0x1_0000 * low(y))) == y,
{
}

/// A parameter whose low 16 bits hold `x` and whose next 16 bits hold `y`, in
/// two's complement, is read as `x` and `y`, whatever is above them.
pub proof fn law_words_are_read_from_their_place(x: int, y: int, above: int)
    requires
        -0x8000 <= x < 0x8000,
        -0x8000 <= y < 0x8000,
    ensures
        signed(low(above * 4294967296 + (y % 65536) * 65536 + x % 65536)) == x,
        signed(high(above * 4294967296 + (y % 65536) * 65536 + x % 65536)) == y,
        low(above * 4294967296 + (y % 65536) * 65536 + x % 65536) == x % 65536,
        high(above * 4294967296 + (y % 65536) * 65536 + x % 65536) == y % 65536,
{
    let b = y % 65536;
    let a = x % 65536;
    let v = above * 4294967296 + b * 65536 + a;
    let q = above * 65536 + b;
    assert(v == q * 65536 + a);
    vstd::arithmetic::div_mod::lemma_fundamental_div_mod_converse(v, 65536, q, a);
    vstd::arithmetic::div_mod::lemma_fundamental_div_mod_converse(q, 65536, above, b);
    vstd::arithmetic::div_mod::lemma_fundamental_div_mod(x, 65536);
    vstd::arithmetic::div_mod::lemma_fundamental_div_mod(y, 65536);
}

} // verus!
