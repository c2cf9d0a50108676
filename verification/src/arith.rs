//! Arithmetic on machine words: what each two-operand and one-operand
//! instruction computes.

use vstd::arithmetic::div_mod::{
    lemma_add_mod_noop, lemma_div_basics, lemma_div_decreases, lemma_div_nonincreasing,
    lemma_div_pos_is_pos,
    lemma_fundamental_div_mod, lemma_mod_add_multiples_vanish, lemma_mod_bound, lemma_mod_twice,
    lemma_small_mod,
};
use vstd::prelude::*;

use crate::opcode::Opcode;
use crate::{Pointer, Value};

verus! {

/// How many values a machine word can take.
pub open spec fn word_modulus() -> int {
    usize::MAX as int + 1
}

/// The machine word that is congruent to `x` modulo `word_modulus()`: what is
/// left of a result that does not fit.
pub open spec fn crop(x: int) -> Value {
    let r = x % word_modulus();
    if r > isize::MAX as int {
        (r - word_modulus()) as Value
    } else {
        r as Value
    }
}

/// The absolute value of an integer.
pub open spec fn magnitude(x: int) -> int {
    if x < 0 {
        -x
    } else {
        x
    }
}

/// Division rounded toward zero. Meant for `b != 0`.
pub open spec fn quotient(a: int, b: int) -> int {
    if (a < 0) == (b < 0) {
        magnitude(a) / magnitude(b)
    } else {
        -(magnitude(a) / magnitude(b))
    }
}

/// What division rounded toward zero leaves: it has the sign of the dividend.
/// Meant for `b != 0`.
pub open spec fn remainder(a: int, b: int) -> int {
    if a < 0 {
        -(magnitude(a) % magnitude(b))
    } else {
        magnitude(a) % magnitude(b)
    }
}

/// By how many bits a shift by `b` moves: `b` modulo the width of a word, a
/// number from 0 up to, but without, that width.
pub open spec fn shift_count(b: Value) -> u32 {
    ((b as int) % (usize::BITS as int)) as u32
}

/// 1 for true, 0 for false.
pub open spec fn truth(b: bool) -> Value {
    if b {
        1
    } else {
        0
    }
}

/// Whether the opcode pops two values and pushes one computed from them.
pub open spec fn is_binary(opcode: Opcode) -> bool {
    match opcode {
        Opcode::ADD
        | Opcode::SUB
        | Opcode::MUL
        | Opcode::DIV
        | Opcode::MOD
        | Opcode::AND
        | Opcode::OR
        | Opcode::XOR
        | Opcode::LSF
        | Opcode::RSF
        | Opcode::EQ
        | Opcode::GT
        | Opcode::LT
        | Opcode::GTE
        | Opcode::LTE => true,
        _ => false,
    }
}

/// What a two-operand instruction computes from the left operand `a` and the
/// right operand `b`. Sums, differences and products that do not fit in a
/// word wrap around, and so does the one quotient that does not fit. `None`
/// where the divisor is zero, and for opcodes that are not two-operand.
pub open spec fn binary_value(opcode: Opcode, a: Value, b: Value) -> Option<Value> {
    match opcode {
        Opcode::ADD => Some(crop(a + b)),
        Opcode::SUB => Some(crop(a - b)),
        Opcode::MUL => Some(crop(a * b)),
        Opcode::DIV => if b == 0 {
            None
        } else {
            Some(crop(quotient(a as int, b as int)))
        },
        Opcode::MOD => if b == 0 {
            None
        } else {
            Some(crop(remainder(a as int, b as int)))
        },
        Opcode::AND => Some(a & b),
        Opcode::OR => Some(a | b),
        Opcode::XOR => Some(a ^ b),
        Opcode::LSF => Some(a << shift_count(b)),
        Opcode::RSF => Some(a >> shift_count(b)),
        Opcode::EQ => Some(truth(a == b)),
        Opcode::GT => Some(truth(a > b)),
        Opcode::LT => Some(truth(a < b)),
        Opcode::GTE => Some(truth(a >= b)),
        Opcode::LTE => Some(truth(a <= b)),
        _ => None,
    }
}

/// The bitwise complement of a word: every bit flipped, which is the word
/// `-a - 1`.
pub open spec fn complement(a: Value) -> Value {
    (-a - 1) as Value
}

/// The word read as an unsigned number: itself where it is not negative, and
/// one modulus higher where it is.
pub open spec fn unsigned(v: Value) -> Pointer {
    if v < 0 {
        (v + word_modulus()) as Pointer
    } else {
        v as Pointer
    }
}

/// The pointer that is congruent to `x` modulo `word_modulus()`.
pub open spec fn wrap_pointer(x: int) -> Pointer {
    (x % word_modulus()) as Pointer
}

/// Words are the integers from minus half the modulus up to, but without,
/// half the modulus.
pub proof fn lemma_word_range()
    ensures
        word_modulus() == 2 * (isize::MAX + 1),
        isize::MIN == -(isize::MAX + 1),
{
}

/// `crop` leaves a number that fits in a word as it is, and brings a number
/// that lies up to one word's worth above or below the range back into it.
pub proof fn lemma_crop(x: int)
    ensures
        isize::MIN <= x <= isize::MAX ==> crop(x) == x,
        isize::MAX < x <= isize::MAX + word_modulus() ==> crop(x) == x - word_modulus(),
        isize::MIN - word_modulus() <= x < isize::MIN ==> crop(x) == x + word_modulus(),
{
    let m = word_modulus();
    lemma_word_range();
    if x < isize::MIN {
        lemma_mod_add_multiples_vanish(x, m);
    }
    if x > isize::MAX {
        lemma_mod_add_multiples_vanish(x - m, m);
    }
    let y = if x < isize::MIN {
        x + m
    } else if x > isize::MAX {
        x - m
    } else {
        x
    };
    if isize::MIN <= y <= isize::MAX {
        if y >= 0 {
            lemma_small_mod(y as nat, m as nat);
        } else {
            lemma_mod_add_multiples_vanish(y, m);
            lemma_small_mod((y + m) as nat, m as nat);
        }
    }
}

/// A shift moves by fewer bits than a word has, and by `b` bits where `b` is
/// such a number.
pub proof fn lemma_shift_count(b: Value)
    ensures
        0 <= shift_count(b) < usize::BITS,
        0 <= b < usize::BITS ==> shift_count(b) == b,
{
    lemma_mod_bound(b as int, usize::BITS as int);
    if 0 <= b < usize::BITS {
        lemma_small_mod(b as nat, usize::BITS as nat);
    }
}

/// The divisor times the quotient, plus the remainder, is the dividend; and
/// the remainder is smaller in magnitude than the divisor.
pub proof fn lemma_division(a: int, b: int)
    requires
        b != 0,
    ensures
        b * quotient(a, b) + remainder(a, b) == a,
        magnitude(remainder(a, b)) < magnitude(b),
{
    let x = magnitude(a);
    let d = magnitude(b);
    lemma_fundamental_div_mod(x, d);
    lemma_mod_bound(x, d);
    let q = x / d;
    let signed = quotient(a, b);
    assert(b * signed == (if a < 0 {
        -(d * q)
    } else {
        d * q
    })) by (nonlinear_arith)
        requires
            d > 0,
            q >= 0,
            d == (if b < 0 {
                -b
            } else {
                b
            }),
            signed == (if (a < 0) == (b < 0) {
                q
            } else {
                -q
            }),
    ;
}

/// A number that is a pointer is left as it is by `wrap_pointer`.
pub proof fn lemma_wrap_pointer(x: int)
    requires
        0 <= x <= usize::MAX,
    ensures
        wrap_pointer(x) == x,
{
    lemma_small_mod(x as nat, word_modulus() as nat);
}

/// Wrapping a sum whose first part was wrapped already gives what wrapping
/// the whole sum gives.
pub proof fn lemma_wrap_twice(x: int, y: int)
    ensures
        wrap_pointer(wrap_pointer(x) + y) == wrap_pointer(x + y),
{
    lemma_word_range();
    let m = word_modulus();
    lemma_mod_bound(x, m);
    lemma_add_mod_noop(x, y, m);
    lemma_add_mod_noop(x % m, y, m);
    lemma_mod_twice(x, m);
}

/// The quotient and remainder of a division rounded toward zero fit in a
/// word, but for the quotient of the least word by -1, which is one above the
/// greatest.
pub proof fn lemma_division_fits(a: Value, b: Value)
    requires
        b != 0,
    ensures
        isize::MIN <= remainder(a as int, b as int) <= isize::MAX,
        isize::MIN <= quotient(a as int, b as int) <= isize::MAX + 1,
        quotient(a as int, b as int) == isize::MAX + 1 <==> a == isize::MIN && b == -1,
{
    let x = magnitude(a as int);
    let d = magnitude(b as int);
    lemma_mod_bound(x, d);
    lemma_div_nonincreasing(x, d);
    lemma_div_pos_is_pos(x, d);
    if d == 1 {
        lemma_div_basics(x);
    } else {
        lemma_div_decreases_or_zero(x, d);
    }
}

/// Over a divisor of at least 2, a quotient is less than the dividend, or
/// both are zero.
proof fn lemma_div_decreases_or_zero(x: int, d: int)
    requires
        0 <= x,
        2 <= d,
    ensures
        x / d < x || x == 0,
{
    if x > 0 {
        lemma_div_decreases(x, d);
    }
}

/// Computes what a two-operand instruction pushes from the left operand `a`
/// and the right operand `b`; `None` for a zero divisor, and for an opcode
/// that is not two-operand.
pub fn compute(opcode: Opcode, a: Value, b: Value) -> (r: Option<Value>)
    ensures
        r == binary_value(opcode, a, b),
{
    proof {
        lemma_word_range();
    }
    match opcode {
        Opcode::ADD => {
            let sum = a.wrapping_add(b);
            assert(sum == crop(a + b)) by {
                lemma_crop(a + b);
            }
            Some(sum)
        },
        Opcode::SUB => {
            let difference = a.wrapping_sub(b);
            assert(difference == crop(a - b)) by {
                lemma_crop(a - b);
            }
            Some(difference)
        },
        Opcode::MUL => Some(a.wrapping_mul(b)),
        Opcode::DIV => {
            if b == 0 {
                None
            } else {
                let q = match a.checked_div(b) {
                    Some(q) => q,
                    None => isize::MIN,
                };
                assert(q == crop(quotient(a as int, b as int))) by {
                    lemma_division_fits(a, b);
                    lemma_crop(quotient(a as int, b as int));
                }
                Some(q)
            }
        },
        Opcode::MOD => {
            if b == 0 {
                None
            } else {
                let r = match a.checked_rem(b) {
                    Some(r) => r,
                    None => 0,
                };
                assert(r == crop(remainder(a as int, b as int))) by {
                    lemma_division_fits(a, b);
                    lemma_crop(remainder(a as int, b as int));
                }
                Some(r)
            }
        },
        Opcode::AND => Some(a & b),
        Opcode::OR => Some(a | b),
        Opcode::XOR => Some(a ^ b),
        Opcode::LSF => {
            let low_bits = #[verifier::truncate] (b as u32);
            assert(low_bits % usize::BITS == shift_count(b)) by (bit_vector)
                requires
                    low_bits == b as u32,
            ;
            Some(a.wrapping_shl(low_bits))
        },
        Opcode::RSF => {
            let low_bits = #[verifier::truncate] (b as u32);
            assert(low_bits % usize::BITS == shift_count(b)) by (bit_vector)
                requires
                    low_bits == b as u32,
            ;
            Some(a.wrapping_shr(low_bits))
        },
        Opcode::EQ => Some(if a == b { 1 } else { 0 }),
        Opcode::GT => Some(if a > b { 1 } else { 0 }),
        Opcode::LT => Some(if a < b { 1 } else { 0 }),
        Opcode::GTE => Some(if a >= b { 1 } else { 0 }),
        Opcode::LTE => Some(if a <= b { 1 } else { 0 }),
        _ => None,
    }
}

/// Computes the bitwise complement of a word.
pub fn invert(a: Value) -> (r: Value)
    ensures
        r == complement(a),
{
    assert(!a == (-a - 1) as Value) by (bit_vector);
    !a
}

/// Reads a word as an unsigned number.
pub fn to_pointer(v: Value) -> (p: Pointer)
    ensures
        p == unsigned(v),
{
    let p = #[verifier::truncate] (v as usize);
    assert({
        &&& v >= 0 ==> p == v
        &&& v < 0 && usize::BITS == 32 ==> p == v + 0x1_0000_0000
        &&& v < 0 && usize::BITS == 64 ==> p == v + 0x1_0000_0000_0000_0000
    }) by (bit_vector)
        requires
            p == v as usize,
    ;
    p
}

/// Moves a pointer forward by `distance`, wrapping around at the end of the
/// address range.
pub fn forward(pointer: Pointer, distance: Pointer) -> (p: Pointer)
    ensures
        p == wrap_pointer(pointer + distance),
{
    proof {
        let m = word_modulus();
        let sum = pointer + distance;
        if sum < m {
            lemma_small_mod(sum as nat, m as nat);
        } else {
            lemma_mod_add_multiples_vanish(sum - m, m);
            lemma_small_mod((sum - m) as nat, m as nat);
        }
    }
    pointer.wrapping_add(distance)
}

} // verus!
