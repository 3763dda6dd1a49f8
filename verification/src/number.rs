//! Numbers of the language: IEEE-754 doubles, held as their 64 bits.
//!
//! What the runtime itself does with doubles it does with integer arithmetic
//! on their bits: it makes doubles of whole numbers and whole numbers of
//! doubles, compares doubles, and writes doubles that are whole numbers.
//! Addition, subtraction, multiplication and division of doubles, and the
//! text of a double with a fractional part, are left to the embedding
//! program.

use crate::text::{decimal, push_char, push_decimal};
use vstd::arithmetic::power2::*;
use vstd::prelude::*;
use vstd::string::*;

verus! {

/// The weight of the lowest exponent bit: 2^52.
pub const FRACTION_SPAN: u64 = 0x10_0000_0000_0000;

/// The weight of the sign bit: 2^63.
pub const SIGN_BIT: u64 = 0x8000_0000_0000_0000;

/// The bound below which every whole number is a double: 2^53.
pub const EXACT_SPAN: u64 = 0x20_0000_0000_0000;

/// Whether the sign bit of the double `bits` is set.
pub open spec fn sign_of(bits: u64) -> bool {
    bits >= SIGN_BIT
}

/// The biased exponent of the double `bits`, 11 bits wide.
pub open spec fn exponent_of(bits: u64) -> nat {
    ((bits / FRACTION_SPAN) % 0x800) as nat
}

/// The fraction of the double `bits`, 52 bits wide.
pub open spec fn fraction_of(bits: u64) -> nat {
    (bits % FRACTION_SPAN) as nat
}

/// The absolute value of the double `bits` where it is a whole number; `None`
/// for a NaN, an infinity, and a number with a fractional part.
///
/// A normal double with biased exponent `e` and fraction `f` has the absolute
/// value `(2^52 + f) * 2^(e - 1075)`.
pub open spec fn magnitude(bits: u64) -> Option<nat> {
    let e = exponent_of(bits);
    let m = fraction_of(bits) + FRACTION_SPAN;
    if e == 0x7ff {
        None
    } else if e == 0 {
        if fraction_of(bits) == 0 {
            Some(0)
        } else {
            None
        }
    } else if e < 1023 {
        None
    } else if e >= 1075 {
        Some((m * pow2((e - 1075) as nat)) as nat)
    } else if m % (pow2((1075 - e) as nat) as int) == 0 {
        Some((m / (pow2((1075 - e) as nat) as int)) as nat)
    } else {
        None
    }
}

/// The value of the double `bits` where it is a whole number.
pub open spec fn whole_value(bits: u64) -> Option<int> {
    match magnitude(bits) {
        Some(m) => Some(
            if sign_of(bits) {
                -(m as int)
            } else {
                m as int
            },
        ),
        None => None,
    }
}

/// The position of the highest set bit of `n`.
pub open spec fn floor_log2(n: nat) -> nat
    decreases n,
{
    if n <= 1 {
        0
    } else {
        1 + floor_log2(n / 2)
    }
}

/// The double that is the whole number `n`, for `n` below 2^53.
pub open spec fn double_of_nat(n: nat) -> u64 {
    if n == 0 {
        0
    } else {
        let p = floor_log2(n);
        ((1023 + p) * FRACTION_SPAN + (n - pow2(p)) * pow2((52 - p) as nat)) as u64
    }
}

/// The double that is the whole number `k`, for `k` strictly between -2^53 and 2^53.
pub open spec fn double_of_int(k: int) -> u64 {
    if k >= 0 {
        double_of_nat(k as nat)
    } else {
        (SIGN_BIT + double_of_nat((-k) as nat)) as u64
    }
}

/// The double nearest to the whole number `n`, for `n` below 2^64; of two
/// doubles that are equally near, the one whose last bit is 0.
///
/// From 2^53 on a double keeps the leading 53 bits `q` of the number; the
/// rest `r`, of `d` possible values, decides whether `q` is rounded up.
pub open spec fn nearest_double(n: nat) -> u64 {
    if n < EXACT_SPAN {
        double_of_nat(n)
    } else {
        let p = floor_log2(n);
        let d = pow2((p - 52) as nat) as int;
        let q = (n as int) / d;
        let r = (n as int) % d;
        let up: int = if 2 * r > d || (2 * r == d && q % 2 == 1) {
            1
        } else {
            0
        };
        ((1023 + p) * FRACTION_SPAN + (q - FRACTION_SPAN) + up) as u64
    }
}

/// The double nearest to the whole number `k`, for `k` from -2^63 to 2^63.
pub open spec fn rounded(k: int) -> u64 {
    if k >= 0 {
        nearest_double(k as nat)
    } else {
        (SIGN_BIT + nearest_double((-k) as nat)) as u64
    }
}

/// The absolute value of the finite double `bits`, without its fractional part.
pub open spec fn floor_magnitude(bits: u64) -> nat {
    let e = exponent_of(bits);
    let m = fraction_of(bits) + FRACTION_SPAN;
    if e < 1023 {
        0
    } else if e >= 1075 {
        (m * pow2((e - 1075) as nat)) as nat
    } else {
        (m / (pow2((1075 - e) as nat) as int)) as nat
    }
}

/// The double `bits` as a 64-bit integer: its value without its fractional
/// part; the nearest 64-bit integer where that is out of range; 0 for a NaN.
pub open spec fn truncated(bits: u64) -> i64 {
    if is_nan(bits) {
        0
    } else if exponent_of(bits) == 0x7ff || floor_magnitude(bits) >= SIGN_BIT {
        if sign_of(bits) {
            i64::MIN
        } else {
            i64::MAX
        }
    } else if sign_of(bits) {
        (-(floor_magnitude(bits) as int)) as i64
    } else {
        floor_magnitude(bits) as i64
    }
}

/// The value of the double `bits` where it is a whole number below 2^53 in
/// absolute value.
pub open spec fn exact_value(bits: u64) -> Option<int> {
    match whole_value(bits) {
        Some(v) => if -(EXACT_SPAN as int) < v < EXACT_SPAN as int {
            Some(v)
        } else {
            None
        },
        None => None,
    }
}

/// The double that is the whole number `k`, for `k` strictly between -2^53
/// and 2^53; where `k` is 0, the zero with the sign bit set if `negative`
/// says so.
pub open spec fn signed_double(k: int, negative: bool) -> u64 {
    if k != 0 {
        double_of_int(k)
    } else if negative {
        SIGN_BIT
    } else {
        0
    }
}

/// The remainder of the division of `a` by `b` that rounds towards zero: it
/// has the sign of `a`.
pub open spec fn remainder(a: int, b: int) -> int {
    let r = (if a < 0 {
        -a
    } else {
        a
    }) % (if b < 0 {
        -b
    } else {
        b
    });
    if a < 0 {
        -r
    } else {
        r
    }
}

/// Whether the double `bits` is a NaN.
pub open spec fn is_nan(bits: u64) -> bool {
    exponent_of(bits) == 0x7ff && fraction_of(bits) != 0
}

/// The place of the double `bits`, where it is no NaN, in the order of the
/// doubles: the doubles are ordered as their bits under the sign bit are,
/// read as a whole number, negated where the sign bit is set. The two zeros
/// share a place.
pub open spec fn order_key(bits: u64) -> int {
    if bits >= SIGN_BIT {
        -(bits - SIGN_BIT)
    } else {
        bits as int
    }
}

/// Whether two doubles are equal as IEEE-754 has it: a NaN equals nothing,
/// the two zeros equal each other, and any other double equals itself only.
pub open spec fn doubles_equal(a: u64, b: u64) -> bool {
    !is_nan(a) && !is_nan(b) && order_key(a) == order_key(b)
}

/// Whether the double `a` is less than the double `b` as IEEE-754 has it: a
/// NaN is less than nothing, and nothing is less than a NaN.
pub open spec fn double_less(a: u64, b: u64) -> bool {
    !is_nan(a) && !is_nan(b) && order_key(a) < order_key(b)
}

/// The double `bits` with its sign flipped.
pub open spec fn negated(bits: u64) -> u64 {
    if bits >= SIGN_BIT {
        (bits - SIGN_BIT) as u64
    } else {
        (bits + SIGN_BIT) as u64
    }
}

/// The text of the double `bits` where it is a whole number below 2^53 in
/// absolute value: its decimal numeral, after a minus sign where the sign bit
/// is set. (Every whole number below 2^53 is a double, and this is how such a
/// double is written.)
pub open spec fn whole_text(bits: u64) -> Option<Seq<char>> {
    match magnitude(bits) {
        Some(m) => if m < EXACT_SPAN {
            Some(
                if sign_of(bits) {
                    seq!['-'] + decimal(m)
                } else {
                    decimal(m)
                },
            )
        } else {
            None
        },
        None => None,
    }
}

/// The array index that the double `bits` stands for: its value where it is a
/// whole number, a negative one taken as 0 and one too large as the largest
/// index; `None` where it is no whole number.
pub open spec fn index_of(bits: u64) -> Option<usize> {
    match whole_value(bits) {
        Some(v) => Some(
            if v < 0 {
                0usize
            } else if v > usize::MAX {
                usize::MAX
            } else {
                v as usize
            },
        ),
        None => None,
    }
}

proof fn lemma_log2_bounds(n: nat, p: nat)
    requires
        pow2(p) <= n < 2 * pow2(p),
    ensures
        floor_log2(n) == p,
    decreases p,
{
    lemma2_to64();
    if p == 0 {
    } else {
        lemma_pow2_unfold(p);
        lemma_log2_bounds(n / 2, (p - 1) as nat);
    }
}

proof fn lemma_log2_is_bounds(n: nat)
    requires
        n >= 1,
    ensures
        pow2(floor_log2(n)) <= n < 2 * pow2(floor_log2(n)),
    decreases n,
{
    lemma2_to64();
    if n > 1 {
        lemma_log2_is_bounds(n / 2);
        lemma_pow2_unfold(floor_log2(n));
    }
}

proof fn lemma_scaled(n: nat, top: nat, scale: nat)
    requires
        top <= n < 2 * top,
        top * scale == FRACTION_SPAN,
    ensures
        (n - top) * scale < FRACTION_SPAN,
        (n - top) * scale + FRACTION_SPAN == n * scale,
        (n - top) * scale >= 0,
{
    assert((n - top) * scale < top * scale) by (nonlinear_arith)
        requires
            n - top < top,
            top * scale == FRACTION_SPAN,
            scale >= 0,
    ;
    assert((n - top) * scale + top * scale == n * scale) by (nonlinear_arith);
    assert((n - top) * scale >= 0) by (nonlinear_arith)
        requires
            n >= top,
            scale >= 0,
    ;
}

/// The fields of the double that is the whole number `n`.
proof fn lemma_fields(n: nat)
    requires
        1 <= n < EXACT_SPAN,
    ensures
        floor_log2(n) <= 52,
        double_of_nat(n) == (1023 + floor_log2(n)) * FRACTION_SPAN + (n - pow2(floor_log2(n)))
            * pow2((52 - floor_log2(n)) as nat),
        exponent_of(double_of_nat(n)) == 1023 + floor_log2(n),
        fraction_of(double_of_nat(n)) + FRACTION_SPAN == n * pow2((52 - floor_log2(n)) as nat),
        !sign_of(double_of_nat(n)),
        double_of_nat(n) < SIGN_BIT,
{
    let p = floor_log2(n);
    lemma_log2_is_bounds(n);
    lemma2_to64();
    lemma2_to64_rest();
    if p > 52 {
        if p > 53 {
            lemma_pow2_strictly_increases(53, p);
        }
        assert(pow2(53) == 0x20_0000_0000_0000);
        assert(false);
    }
    let scale = pow2((52 - p) as nat);
    lemma_pow2_adds(p, (52 - p) as nat);
    lemma_scaled(n, pow2(p), scale);
    let f = (n - pow2(p)) * scale;
    let bits = (1023 + p) * FRACTION_SPAN + f;
    assert(0 <= f < FRACTION_SPAN);
    assert(bits < 1076 * FRACTION_SPAN);
    assert(bits / (FRACTION_SPAN as int) == 1023 + p && bits % (FRACTION_SPAN as int) == f)
        by (nonlinear_arith)
        requires
            bits == (1023 + p) * FRACTION_SPAN + f,
            0 <= f < FRACTION_SPAN,
            FRACTION_SPAN == 0x10_0000_0000_0000,
    ;
}

/// Law: a whole number survives the way into a double and back. The double
/// made of a whole number strictly between -2^53 and 2^53 has that number as
/// its value.
pub proof fn lemma_whole_number_round_trip(k: int)
    requires
        -(EXACT_SPAN as int) < k < EXACT_SPAN as int,
    ensures
        whole_value(double_of_int(k)) == Some(k),
{
    lemma2_to64();
    if k == 0 {
        assert(double_of_int(0) == 0);
        assert(exponent_of(0) == 0);
        assert(fraction_of(0) == 0);
    } else {
        let n: nat = if k > 0 {
            k as nat
        } else {
            (-k) as nat
        };
        lemma_fields(n);
        let d = double_of_nat(n);
        let p = floor_log2(n);
        let bits = double_of_int(k);
        if k < 0 {
            assert(bits == SIGN_BIT + d);
            assert(bits / FRACTION_SPAN == 2048 + d / FRACTION_SPAN);
            assert(bits % FRACTION_SPAN == d % FRACTION_SPAN);
        }
        assert(exponent_of(bits) == 1023 + p);
        assert(fraction_of(bits) == fraction_of(d));
        let scale = pow2((52 - p) as nat);
        lemma_pow2_pos((52 - p) as nat);
        let m = fraction_of(bits) + FRACTION_SPAN;
        assert(m == n * scale);
        if p == 52 {
            assert(scale == 1);
            assert(m == n && m * pow2(0) == n) by (nonlinear_arith)
                requires
                    m == n * scale,
                    scale == 1,
                    pow2(0) == 1,
            ;
        } else {
            assert(((n * scale) as int) % (scale as int) == 0
                && ((n * scale) as int) / (scale as int)
                == n)
                by (nonlinear_arith)
                requires
                    scale > 0,
            ;
        }
    }
}

/// The power of two with exponent `k`.
pub fn power_of_two(k: u64) -> (r: u64)
    requires
        k <= 63,
    ensures
        r == pow2(k as nat),
{
    let mut r: u64 = 1;
    let mut i: u64 = 0;
    proof {
        lemma2_to64();
    }
    while i < k
        invariant
            i <= k <= 63,
            r == pow2(i as nat),
        decreases k - i,
    {
        proof {
            lemma_pow2_unfold((i + 1) as nat);
            lemma_pow2_strictly_increases((i + 1) as nat, 64);
            lemma2_to64();
            lemma2_to64_rest();
        }
        r = r * 2;
        i = i + 1;
    }
    r
}

/// The double that is the whole number `n`.
pub fn encode_nat(n: u64) -> (bits: u64)
    requires
        n < EXACT_SPAN,
    ensures
        bits == double_of_nat(n as nat),
        bits < SIGN_BIT,
{
    if n == 0 {
        return 0;
    }
    let mut p: u64 = 0;
    let mut top: u64 = 1;
    let mut scale: u64 = FRACTION_SPAN;
    proof {
        lemma2_to64();
        lemma2_to64_rest();
    }
    while top <= n / 2
        invariant
            1 <= n < EXACT_SPAN,
            p <= 52,
            top == pow2(p as nat),
            scale == pow2((52 - p) as nat),
            top <= n,
            top * scale == FRACTION_SPAN,
        decreases 52 - p,
    {
        proof {
            lemma2_to64_rest();
            if p == 52 {
                assert(top == 0x10_0000_0000_0000);
                assert(false);
            }
            lemma_pow2_unfold((p + 1) as nat);
            lemma_pow2_unfold((52 - p) as nat);
            assert((top * 2) * (scale / 2) == FRACTION_SPAN) by (nonlinear_arith)
                requires
                    top * scale == FRACTION_SPAN,
                    scale % 2 == 0,
            ;
        }
        top = top * 2;
        scale = scale / 2;
        p = p + 1;
    }
    proof {
        lemma_log2_bounds(n as nat, p as nat);
        lemma_scaled(n as nat, top as nat, scale as nat);
        lemma_fields(n as nat);
    }
    (1023 + p) * FRACTION_SPAN + (n - top) * scale
}

/// The double nearest to the whole number `n`.
pub fn encode_u64(n: u64) -> (bits: u64)
    ensures
        bits == nearest_double(n as nat),
        bits < SIGN_BIT,
{
    if n < EXACT_SPAN {
        return encode_nat(n);
    }
    let mut p: u64 = 53;
    let mut top: u64 = EXACT_SPAN;
    proof {
        lemma2_to64();
        lemma2_to64_rest();
    }
    while p < 63 && top <= n / 2
        invariant
            n >= EXACT_SPAN,
            53 <= p <= 63,
            top == pow2(p as nat),
            top <= n,
        decreases 63 - p,
    {
        proof {
            lemma_pow2_unfold((p + 1) as nat);
            lemma_pow2_strictly_increases((p + 1) as nat, 64);
            lemma2_to64_rest();
        }
        top = top * 2;
        p = p + 1;
    }
    proof {
        lemma2_to64_rest();
        lemma_log2_bounds(n as nat, p as nat);
        lemma_pow2_adds(52, (p - 52) as nat);
        lemma_pow2_strictly_increases((p - 52) as nat, 12);
        lemma_pow2_pos((p - 52) as nat);
    }
    let d = power_of_two(p - 52);
    let q = n / d;
    let r = n % d;
    proof {
        assert(FRACTION_SPAN <= q < EXACT_SPAN) by (nonlinear_arith)
            requires
                q == n / d,
                d > 0,
                FRACTION_SPAN * d <= n,
                n < 2 * (FRACTION_SPAN * d),
                FRACTION_SPAN == 0x10_0000_0000_0000,
                EXACT_SPAN == 0x20_0000_0000_0000,
        ;
    }
    let up: u64 = if 2 * r > d || (2 * r == d && q % 2 == 1) {
        1
    } else {
        0
    };
    (1023 + p) * FRACTION_SPAN + (q - FRACTION_SPAN) + up
}

/// The double nearest to the whole number `k`.
pub fn encode_i64(k: i64) -> (bits: u64)
    ensures
        bits == rounded(k as int),
{
    if k >= 0 {
        encode_u64(k as u64)
    } else if k == i64::MIN {
        SIGN_BIT + encode_u64(SIGN_BIT)
    } else {
        SIGN_BIT + encode_u64((-k) as u64)
    }
}

/// The double `bits` as a 64-bit integer.
pub fn truncate(bits: u64) -> (r: i64)
    ensures
        r == truncated(bits),
{
    let e = (bits / FRACTION_SPAN) % 0x800;
    let f = bits % FRACTION_SPAN;
    let negative = bits >= SIGN_BIT;
    let m = f + FRACTION_SPAN;
    proof {
        lemma2_to64();
        lemma2_to64_rest();
        assert(e == exponent_of(bits));
        assert(f == fraction_of(bits));
    }
    if e == 0x7ff {
        if f != 0 {
            0
        } else if negative {
            i64::MIN
        } else {
            i64::MAX
        }
    } else if e < 1023 {
        0
    } else if e >= 1075 {
        let ghost scale = pow2((e - 1075) as nat);
        if e - 1075 >= 11 {
            proof {
                if e - 1075 > 11 {
                    lemma_pow2_strictly_increases(11, (e - 1075) as nat);
                }
                assert(m * scale >= 0x10_0000_0000_0000 * 0x800) by (nonlinear_arith)
                    requires
                        m >= 0x10_0000_0000_0000,
                        scale >= 0x800,
                ;
            }
            if negative {
                i64::MIN
            } else {
                i64::MAX
            }
        } else {
            let d = power_of_two(e - 1075);
            proof {
                lemma_pow2_strictly_increases((e - 1075) as nat, 11);
                assert(m * d < 0x20_0000_0000_0000 * 0x400) by (nonlinear_arith)
                    requires
                        m < 0x20_0000_0000_0000,
                        d <= 0x400,
                        d >= 0,
                        m >= 0,
                ;
            }
            let whole = (m * d) as i64;
            if negative {
                -whole
            } else {
                whole
            }
        }
    } else {
        let d = power_of_two(1075 - e);
        proof {
            lemma_pow2_pos((1075 - e) as nat);
        }
        let whole = (m / d) as i64;
        if negative {
            -whole
        } else {
            whole
        }
    }
}

/// The double that is the whole number `k`.
pub fn encode_i32(k: i32) -> (bits: u64)
    ensures
        bits == double_of_int(k as int),
{
    if k >= 0 {
        encode_nat(k as u64)
    } else {
        let n: u64 = (-(k as i64)) as u64;
        SIGN_BIT + encode_nat(n)
    }
}

/// The value of the double `bits` where it is a whole number below 2^53 in
/// absolute value.
pub fn exact(bits: u64) -> (r: Option<i64>)
    ensures
        r is Some <==> exact_value(bits) is Some,
        r is Some ==> r->Some_0 == exact_value(bits)->Some_0,
{
    match whole_magnitude(bits) {
        Some(m) => {
            if m < EXACT_SPAN {
                if bits >= SIGN_BIT {
                    Some(-(m as i64))
                } else {
                    Some(m as i64)
                }
            } else {
                None
            }
        },
        None => None,
    }
}

/// The double that is the whole number `k`; where `k` is 0, the zero with
/// the sign bit set if `negative` says so.
pub fn encode_signed(k: i64, negative: bool) -> (bits: u64)
    requires
        -(EXACT_SPAN as int) < k < EXACT_SPAN as int,
    ensures
        bits == signed_double(k as int, negative),
{
    if k > 0 {
        encode_nat(k as u64)
    } else if k < 0 {
        SIGN_BIT + encode_nat((-k) as u64)
    } else if negative {
        SIGN_BIT
    } else {
        0
    }
}

/// The absolute value of `k`.
fn magnitude_of(k: i64) -> (r: u64)
    ensures
        r == (if k < 0 {
            -(k as int)
        } else {
            k as int
        }),
{
    if k >= 0 {
        k as u64
    } else if k == i64::MIN {
        SIGN_BIT
    } else {
        (-k) as u64
    }
}

/// The remainder of the division of `a` by `b` that rounds towards zero.
pub fn remainder_of(a: i64, b: i64) -> (r: i64)
    requires
        b != 0,
    ensures
        r == remainder(a as int, b as int),
{
    let r = magnitude_of(a) % magnitude_of(b);
    if a < 0 {
        -(r as i64)
    } else {
        r as i64
    }
}

/// Whether the double `bits` is a NaN.
pub fn nan(bits: u64) -> (r: bool)
    ensures
        r == is_nan(bits),
{
    (bits / FRACTION_SPAN) % 0x800 == 0x7ff && bits % FRACTION_SPAN != 0
}

/// The place of the double `bits` in the order of the doubles.
pub fn place(bits: u64) -> (r: i64)
    ensures
        r == order_key(bits),
{
    if bits >= SIGN_BIT {
        let magnitude = (bits - SIGN_BIT) as i64;
        -magnitude
    } else {
        bits as i64
    }
}

/// Whether two doubles are equal as IEEE-754 has it.
pub fn equal_doubles(a: u64, b: u64) -> (r: bool)
    ensures
        r == doubles_equal(a, b),
{
    !nan(a) && !nan(b) && place(a) == place(b)
}

/// Whether the double `a` is less than the double `b` as IEEE-754 has it.
pub fn less_doubles(a: u64, b: u64) -> (r: bool)
    ensures
        r == double_less(a, b),
{
    !nan(a) && !nan(b) && place(a) < place(b)
}

/// The double `bits` with its sign flipped.
pub fn negate(bits: u64) -> (r: u64)
    ensures
        r == negated(bits),
{
    if bits >= SIGN_BIT {
        bits - SIGN_BIT
    } else {
        bits + SIGN_BIT
    }
}

/// `v` as an index, the largest index where `v` is larger.
fn clamp_index(v: u64) -> (r: usize)
    ensures
        r == (if v > usize::MAX {
            usize::MAX
        } else {
            v as usize
        }),
{
    if v > usize::MAX as u64 {
        usize::MAX
    } else {
        v as usize
    }
}

/// The absolute value of the double `bits` where it is a whole number, and
/// the largest 64-bit number where that is larger.
pub fn whole_magnitude(bits: u64) -> (r: Option<u64>)
    ensures
        r == (match magnitude(bits) {
            Some(m) => Some(
                if m > u64::MAX {
                    u64::MAX
                } else {
                    m as u64
                },
            ),
            None => None,
        }),
{
    let e = (bits / FRACTION_SPAN) % 0x800;
    let f = bits % FRACTION_SPAN;
    let m = f + FRACTION_SPAN;
    proof {
        lemma2_to64();
        lemma2_to64_rest();
        assert(e == exponent_of(bits));
        assert(f == fraction_of(bits));
    }
    if e == 0x7ff {
        None
    } else if e == 0 {
        if f == 0 {
            Some(0)
        } else {
            None
        }
    } else if e < 1023 {
        None
    } else if e >= 1075 {
        let ghost scale = pow2((e - 1075) as nat);
        if e - 1075 >= 12 {
            proof {
                if e - 1075 > 12 {
                    lemma_pow2_strictly_increases(12, (e - 1075) as nat);
                }
                assert(m * scale >= 0x10_0000_0000_0000 * 0x1000) by (nonlinear_arith)
                    requires
                        m >= 0x10_0000_0000_0000,
                        scale >= 0x1000,
                ;
            }
            Some(u64::MAX)
        } else {
            let d = power_of_two(e - 1075);
            proof {
                lemma_pow2_strictly_increases((e - 1075) as nat, 12);
                assert(m * d <= 0x1f_ffff_ffff_ffff * 0x800) by (nonlinear_arith)
                    requires
                        m <= 0x1f_ffff_ffff_ffff,
                        d <= 0x800,
                        d >= 0,
                        m >= 0,
                ;
            }
            Some(m * d)
        }
    } else {
        let d = power_of_two(1075 - e);
        proof {
            lemma_pow2_pos((1075 - e) as nat);
        }
        if m % d == 0 {
            Some(m / d)
        } else {
            None
        }
    }
}

/// The array index that the double `bits` stands for.
pub fn decode_index(bits: u64) -> (r: Option<usize>)
    ensures
        r == index_of(bits),
{
    match whole_magnitude(bits) {
        Some(m) => {
            if bits >= SIGN_BIT {
                Some(0)
            } else {
                Some(clamp_index(m))
            }
        },
        None => None,
    }
}

/// The text of the double `bits` where it is a whole number below 2^53 in
/// absolute value.
pub fn format_whole(bits: u64) -> (r: Option<String>)
    ensures
        r is Some <==> whole_text(bits) is Some,
        r is Some ==> r->Some_0@ == whole_text(bits)->Some_0,
{
    match whole_magnitude(bits) {
        Some(m) => {
            if m < EXACT_SPAN {
                let mut s = String::new();
                if bits >= SIGN_BIT {
                    push_char(&mut s, '-');
                }
                push_decimal(&mut s, m);
                assert(s@ =~= whole_text(bits)->Some_0);
                Some(s)
            } else {
                None
            }
        },
        None => None,
    }
}

} // verus!
