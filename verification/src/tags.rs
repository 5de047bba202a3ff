//! The layout of a tagged word.
//!
//! The low bits of a word say what it is:
//!
//! ```text
//!   .......1  fixnum
//!   ......00  pointer to an object of the store
//!   ....0110  immediate symbol
//!   00011110  character
//!   00111110  one of the unique immediates (#f, #t, (), eof, void)
//! ```

use vstd::prelude::*;

verus! {

pub const SEXP_FIXNUM_BITS: u64 = 1;

pub const SEXP_POINTER_BITS: u64 = 2;

pub const SEXP_IMMEDIATE_BITS: u64 = 4;

pub const SEXP_EXTENDED_BITS: u64 = 8;

pub const SEXP_FIXNUM_MASK: u64 = 1;

pub const SEXP_POINTER_MASK: u64 = 3;

pub const SEXP_IMMEDIATE_MASK: u64 = 15;

pub const SEXP_EXTENDED_MASK: u64 = 255;

pub const SEXP_POINTER_TAG: u64 = 0;

pub const SEXP_FIXNUM_TAG: u64 = 1;

pub const SEXP_ISYMBOL_TAG: u64 = 6;

pub const SEXP_CHAR_TAG: u64 = 30;

pub const SEXP_EXTENDED_TAG: u64 = 62;

pub const SEXP_FALSE: u64 = 62;

pub const SEXP_TRUE: u64 = 318;

pub const SEXP_NULL: u64 = 574;

pub const SEXP_EOF: u64 = 830;

pub const SEXP_VOID: u64 = 1086;

/// The largest integer that fits a fixnum: 2^62 - 1.
pub const SEXP_MAX_FIXNUM: i64 = 4611686018427387903;

/// The smallest integer that fits a fixnum: -2^62.
pub const SEXP_MIN_FIXNUM: i64 = -4611686018427387904;

/// The word of the unique immediate with number `n`.
pub open spec fn immediate_word(n: int) -> int {
    n * 256 + 62
}

/// Whether `n` can be boxed as a fixnum without loss.
pub open spec fn fits_fixnum(n: int) -> bool {
    -0x4000_0000_0000_0000 <= n <= 0x3fff_ffff_ffff_ffff
}

/// `n` brought into the fixnum range by dropping all but its low 63 bits.
pub open spec fn wrap_fixnum(n: int) -> int {
    (n + 0x4000_0000_0000_0000) % 0x8000_0000_0000_0000 - 0x4000_0000_0000_0000
}

/// The word that boxes the fixnum `n`, for `n` in the fixnum range.
pub open spec fn fixnum_word(n: int) -> int {
    if n >= 0 {
        2 * n + 1
    } else {
        2 * n + 1 + 0x1_0000_0000_0000_0000
    }
}

/// The integer that the word `x` holds above its lowest bit, read as a signed
/// number.
pub open spec fn fixnum_value(x: u64) -> int {
    if x < 0x8000_0000_0000_0000 {
        x as int / 2
    } else {
        (x as int - 0x1_0000_0000_0000_0000) / 2
    }
}

/// The word that boxes the character `c`.
pub open spec fn character_word(c: u8) -> int {
    c as int * 256 + 30
}

/// The character that the word `x` holds above its tag, cut to one byte.
pub open spec fn character_value(x: u64) -> int {
    (x as int / 256) % 256
}

pub open spec fn is_fixnum(x: u64) -> bool {
    x % 2 == 1
}

pub open spec fn is_pointer(x: u64) -> bool {
    x % 4 == 0
}

pub open spec fn is_isymbol(x: u64) -> bool {
    x % 16 == 6
}

pub open spec fn is_character(x: u64) -> bool {
    x % 256 == 30
}

pub open spec fn is_boolean(x: u64) -> bool {
    x == SEXP_TRUE || x == SEXP_FALSE
}

pub fn sexp_make_immediate(n: u32) -> (x: u64)
    ensures
        x == immediate_word(n as int),
{
    let wide: u64 = n as u64;
    assert((wide << 8) == wide * 256) by (bit_vector)
        requires
            wide <= 0xffff_ffff,
    ;
    (wide << SEXP_EXTENDED_BITS) + SEXP_EXTENDED_TAG
}

/// Boxes `n` as a fixnum. A fixnum has 63 bits: an `n` outside the fixnum
/// range loses its top bit.
pub fn sexp_make_fixnum(n: i64) -> (x: u64)
    ensures
        is_fixnum(x),
        fixnum_value(x) == wrap_fixnum(n as int),
        fits_fixnum(n as int) ==> x == fixnum_word(n as int),
{
    let doubled: i128 = 2 * (n as i128) + 1;
    let modulus: i128 = 0x1_0000_0000_0000_0000;
    let reduced: i128 = if doubled < 0 {
        doubled + modulus
    } else if doubled >= modulus {
        doubled - modulus
    } else {
        doubled
    };
    reduced as u64
}

pub fn sexp_unbox_fixnum(x: u64) -> (n: i64)
    ensures
        n == fixnum_value(x),
        fits_fixnum(n as int),
{
    if x < 0x8000_0000_0000_0000 {
        (x / 2) as i64
    } else {
        let high: u64 = x - 0x8000_0000_0000_0000;
        (high / 2) as i64 - 0x4000_0000_0000_0000
    }
}

pub fn sexp_make_character(c: u8) -> (x: u64)
    ensures
        x == character_word(c),
        is_character(x),
{
    let wide: u64 = c as u64;
    assert((wide << 8) == wide * 256) by (bit_vector)
        requires
            wide <= 0xff,
    ;
    (wide << SEXP_EXTENDED_BITS) + SEXP_CHAR_TAG
}

pub fn sexp_unbox_character(x: u64) -> (c: u8)
    ensures
        c == character_value(x),
{
    assert(((x >> 8) & 0xff) == (x / 256) % 256) by (bit_vector);
    ((x >> SEXP_EXTENDED_BITS) & SEXP_EXTENDED_MASK) as u8
}

/// Everything but `#f` counts as true.
pub fn sexp_truep(x: u64) -> (b: bool)
    ensures
        b == (x != SEXP_FALSE),
{
    x != SEXP_FALSE
}

pub fn sexp_not(x: u64) -> (b: bool)
    ensures
        b == (x == SEXP_FALSE),
{
    x == SEXP_FALSE
}

pub fn sexp_nullp(x: u64) -> (b: bool)
    ensures
        b == (x == SEXP_NULL),
{
    x == SEXP_NULL
}

pub fn sexp_fixnump(x: u64) -> (b: bool)
    ensures
        b == is_fixnum(x),
{
    assert((x & 1) == x % 2) by (bit_vector);
    (x & SEXP_FIXNUM_MASK) == SEXP_FIXNUM_TAG
}

pub fn sexp_integerp(x: u64) -> (b: bool)
    ensures
        b == is_fixnum(x),
{
    sexp_fixnump(x)
}

pub fn sexp_isymbolp(x: u64) -> (b: bool)
    ensures
        b == is_isymbol(x),
{
    assert((x & 15) == x % 16) by (bit_vector);
    (x & SEXP_IMMEDIATE_MASK) == SEXP_ISYMBOL_TAG
}

pub fn sexp_charp(x: u64) -> (b: bool)
    ensures
        b == is_character(x),
{
    assert((x & 255) == x % 256) by (bit_vector);
    (x & SEXP_EXTENDED_MASK) == SEXP_CHAR_TAG
}

pub fn sexp_booleanp(x: u64) -> (b: bool)
    ensures
        b == is_boolean(x),
{
    x == SEXP_TRUE || x == SEXP_FALSE
}

pub fn sexp_pointerp(x: u64) -> (b: bool)
    ensures
        b == is_pointer(x),
{
    assert((x & 3) == x % 4) by (bit_vector);
    (x & SEXP_POINTER_MASK) == SEXP_POINTER_TAG
}

/// Boxing and unboxing a fixnum gives the number back, for every number in
/// the fixnum range.
pub proof fn lemma_fixnum_round_trip(n: int)
    requires
        fits_fixnum(n),
    ensures
        0 <= fixnum_word(n) <= u64::MAX,
        is_fixnum(fixnum_word(n) as u64),
        fixnum_value(fixnum_word(n) as u64) == n,
        wrap_fixnum(n) == n,
{
}

/// Boxing and unboxing a character gives the character back.
pub proof fn lemma_character_round_trip(c: u8)
    ensures
        is_character(character_word(c) as u64),
        character_value(character_word(c) as u64) == c,
{
}

/// The tags keep the kinds of word apart: a word is at most one of fixnum,
/// pointer, immediate symbol, character and unique immediate.
pub proof fn lemma_tags_disjoint(x: u64)
    ensures
        is_fixnum(x) ==> !is_pointer(x) && !is_isymbol(x) && !is_character(x) && x % 256 != 62,
        is_pointer(x) ==> !is_isymbol(x) && !is_character(x) && x % 256 != 62,
        is_isymbol(x) ==> !is_character(x) && x % 256 != 62,
        is_character(x) ==> x % 256 != 62,
{
}

} // verus!
