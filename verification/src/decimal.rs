//! Decimal numbers in text, rounded to whole seconds.
//!
//! The syntax is that of the finite numbers that Rust's floating-point
//! parser documents:
//!
//! ```text
//! Float  ::= Sign? Number
//! Number ::= ( Digit+ | Digit+ '.' Digit* | Digit* '.' Digit+ ) Exp?
//! Exp    ::= 'e' Sign? Digit+
//! Sign   ::= [+-]
//! Digit  ::= [0-9]
//! ```
//!
//! with the letter in either case. The words for infinity and for what is
//! no number write no number of seconds, and count as any other text that
//! is not in the syntax. The value is taken exactly, as the decimal number
//! that the text writes; no binary approximation takes part, and no value
//! is replaced by a nearer one that fits: a number of seconds that
//! sixty-four bits cannot hold is not there.

use crate::text::{
    all_digits, chars_of, digit_of, digit_value, digits_value, is_digit, is_digit_char,
    lemma_digits_value_push, trim, trimmed_range,
};
use vstd::prelude::*;

verus! {

/// The power of ten with exponent `n`.
pub open spec fn pow10(n: nat) -> nat
    decreases n,
{
    if n == 0 {
        1
    } else {
        10 * pow10((n - 1) as nat)
    }
}

/// The number of ASCII digits that `s` starts with.
pub open spec fn leading_digits(s: Seq<char>) -> int
    decreases s.len(),
{
    if s.len() > 0 && is_digit(s[0]) {
        1 + leading_digits(s.skip(1))
    } else {
        0
    }
}

/// Whether `c` is the letter `lower` in either case; `upper` is its capital.
pub open spec fn is_letter(c: char, lower: char, upper: char) -> bool {
    c == lower || c == upper
}

/// Whether `s` starts with a sign.
pub open spec fn has_sign(s: Seq<char>) -> bool {
    s.len() > 0 && (s[0] == '+' || s[0] == '-')
}

/// Whether `s` starts with a minus sign.
pub open spec fn has_minus(s: Seq<char>) -> bool {
    s.len() > 0 && s[0] == '-'
}

/// `s` without one leading sign.
pub open spec fn unsigned_part(s: Seq<char>) -> Seq<char> {
    if has_sign(s) {
        s.skip(1)
    } else {
        s
    }
}

/// A decimal number without sign: the digits of its mantissa, and the number
/// of them that stand before the decimal point once the exponent has moved
/// it. A point beyond the last digit stands for trailing zeros, one before
/// the first (zero or negative) for leading zeros behind the point.
pub struct Decimal {
    pub digits: Seq<char>,
    pub point: int,
}

/// The exponent that `t` writes, `t` being all that follows the mantissa:
/// zero when nothing follows, and none when `t` is no exponent.
pub open spec fn read_exponent(t: Seq<char>) -> Option<int> {
    if t.len() == 0 {
        Some(0)
    } else if !is_letter(t[0], 'e', 'E') {
        None
    } else {
        let body = unsigned_part(t.skip(1));
        if body.len() > 0 && all_digits(body) {
            Some(
                if has_minus(t.skip(1)) {
                    -(digits_value(body) as int)
                } else {
                    digits_value(body) as int
                },
            )
        } else {
            None
        }
    }
}

/// The number of characters that the mantissa takes at the start of `s`:
/// digits, and a point with the digits behind it.
pub open spec fn mantissa_len(s: Seq<char>) -> int {
    let int_len = leading_digits(s);
    if int_len < s.len() && s[int_len] == '.' {
        int_len + 1 + leading_digits(s.skip(int_len + 1))
    } else {
        int_len
    }
}

/// The digits of the mantissa at the start of `s`, without the point.
pub open spec fn mantissa_digits(s: Seq<char>) -> Seq<char> {
    let int_len = leading_digits(s);
    if int_len < s.len() && s[int_len] == '.' {
        s.take(int_len) + s.subrange(int_len + 1, mantissa_len(s))
    } else {
        s.take(int_len)
    }
}

/// The number that `s` writes in the syntax `Number`, if it writes one.
pub open spec fn read_number(s: Seq<char>) -> Option<Decimal> {
    let digits = mantissa_digits(s);
    if digits.len() == 0 {
        None
    } else {
        match read_exponent(s.skip(mantissa_len(s))) {
            Some(x) => Some(Decimal { digits, point: leading_digits(s) + x }),
            None => None,
        }
    }
}

/// The whole part of `d`: what stands before the decimal point.
pub open spec fn whole_part(d: Decimal) -> nat {
    if d.point <= 0 {
        0
    } else if d.point <= d.digits.len() {
        digits_value(d.digits.take(d.point))
    } else {
        digits_value(d.digits) * pow10((d.point - d.digits.len()) as nat)
    }
}

/// Whether the fraction of `d` is one half or more: whether the first digit
/// behind the decimal point is five or more.
pub open spec fn rounds_up(d: Decimal) -> bool {
    0 <= d.point < d.digits.len() && digit_value(d.digits[d.point]) >= 5
}

/// `d` rounded to the nearest integer, a half rounded up.
pub open spec fn rounded(d: Decimal) -> nat {
    if rounds_up(d) {
        whole_part(d) + 1
    } else {
        whole_part(d)
    }
}

/// The seconds that a rounded value `r` stands for: `r` itself where it is
/// positive and sixty-four bits hold it, and none else.
pub open spec fn seconds_of(r: nat) -> Option<u64> {
    if 1 <= r <= u64::MAX {
        Some(r as u64)
    } else {
        None
    }
}

/// The positive number of whole seconds that `s` writes: `s` read in the
/// syntax `Float` and rounded to the nearest integer. None where `s` is not
/// in that syntax, where it writes a negative number or one that rounds to
/// zero, and where sixty-four bits do not hold the rounded number.
pub open spec fn rounded_seconds(s: Seq<char>) -> Option<u64> {
    if has_minus(s) {
        None
    } else {
        match read_number(unsigned_part(s)) {
            Some(d) => seconds_of(rounded(d)),
            None => None,
        }
    }
}

/// A number of seconds that is there is the rounded value of the number
/// that the text writes, and no other: it is positive, and no value that
/// fits stands in for one that does not.
pub proof fn lemma_seconds_are_the_rounded_value(s: Seq<char>)
    ensures
        rounded_seconds(s) is Some ==> !has_minus(s) && read_number(unsigned_part(s)) is Some,
        rounded_seconds(s) is Some ==> rounded_seconds(s).unwrap() >= 1
            && rounded_seconds(s).unwrap() == rounded(read_number(unsigned_part(s)).unwrap()),
        !has_minus(s) && read_number(unsigned_part(s)) is Some && 1 <= rounded(
            read_number(unsigned_part(s)).unwrap(),
        ) <= u64::MAX ==> rounded_seconds(s) == Some(
            rounded(read_number(unsigned_part(s)).unwrap()) as u64,
        ),
{
}

/// A run of characters writes a number below the power of ten of its
/// length.
pub proof fn lemma_digits_value_bound(s: Seq<char>)
    ensures
        digits_value(s) < pow10(s.len()),
    decreases s.len(),
{
    if s.len() > 0 {
        lemma_digits_value_bound(s.drop_last());
        let v = digits_value(s.drop_last());
        let p = pow10((s.len() - 1) as nat);
        assert(v * 10 + digit_value(s.last()) < 10 * p) by (nonlinear_arith)
            requires
                v < p,
                digit_value(s.last()) <= 9,
        ;
    }
}

/// The number that a run writes is the number of its first `p` characters,
/// moved up by the length of the rest, plus the number of the rest.
pub proof fn lemma_digits_value_split(s: Seq<char>, p: int)
    requires
        0 <= p <= s.len(),
    ensures
        digits_value(s) == digits_value(s.take(p)) * pow10((s.len() - p) as nat) + digits_value(
            s.skip(p),
        ),
    decreases s.len(),
{
    if p == s.len() {
        assert(s.take(p) =~= s);
        assert(s.skip(p) =~= Seq::<char>::empty());
        assert(digits_value(s) * pow10(0) == digits_value(s)) by (nonlinear_arith)
            requires
                pow10(0) == 1,
        ;
    } else {
        let front = s.drop_last();
        lemma_digits_value_split(front, p);
        assert(front.take(p) =~= s.take(p));
        assert(front.skip(p) =~= s.skip(p).drop_last());
        assert(s.skip(p).last() == s.last());
        let a = digits_value(s.take(p));
        let k = pow10((front.len() - p) as nat);
        let r = digits_value(front.skip(p));
        let d = digit_value(s.last());
        assert(pow10((s.len() - p) as nat) == 10 * k);
        assert((a * k + r) * 10 + d == a * (10 * k) + (r * 10 + d)) by (nonlinear_arith);
    }
}

/// Rounding by digits is rounding to the nearest integer, a half rounded
/// up. Let the digits of `d` write the number `v` and let `k` of them
/// stand behind the point, so that `d` is `v` divided by the `k`-th power of
/// ten. Then `rounded(d)` is the one integer `r` with
/// `r - 1/2 <= d < r + 1/2`; the claim is that inequality, cleared of
/// fractions.
pub proof fn lemma_rounded_is_nearest(d: Decimal)
    requires
        d.point <= d.digits.len(),
    ensures
        ({
            let v = digits_value(d.digits);
            let scale = pow10((d.digits.len() - d.point) as nat);
            2 * scale * rounded(d) <= 2 * v + scale < 2 * scale * (rounded(d) + 1)
        }),
{
    let n = d.digits.len() as int;
    let v = digits_value(d.digits);
    let k = (n - d.point) as nat;
    let scale = pow10(k);
    lemma_pow10_monotonic(0, k);
    if d.point < 0 {
        lemma_digits_value_bound(d.digits);
        lemma_pow10_monotonic((n + 1) as nat, k);
        assert(pow10((n + 1) as nat) == 10 * pow10(n as nat));
        assert(2 * scale * 0 == 0) by (nonlinear_arith);
        assert(2 * scale * 1 == 2 * scale) by (nonlinear_arith);
    } else if d.point == n {
        assert(d.digits.take(n) =~= d.digits);
        assert(scale == 1);
        assert(2 * scale * v == 2 * v && 2 * scale * (v + 1) == 2 * v + 2) by (nonlinear_arith)
            requires
                scale == 1,
        ;
    } else {
        let whole = digits_value(d.digits.take(d.point));
        let rest = d.digits.skip(d.point);
        let fraction = digits_value(rest);
        lemma_digits_value_split(d.digits, d.point);
        lemma_digits_value_bound(rest);
        lemma_digits_value_split(rest, 1);
        lemma_digits_value_bound(rest.skip(1));
        let first = digit_value(rest[0]);
        let low = digits_value(rest.skip(1));
        let unit = pow10((k - 1) as nat);
        assert(rest.take(1) =~= seq![rest[0]]);
        assert(seq![rest[0]].drop_last() =~= Seq::<char>::empty());
        assert(digits_value(rest.take(1)) == first) by {
            reveal_with_fuel(digits_value, 2);
        }
        assert(rest[0] == d.digits[d.point]);
        assert(scale == 10 * unit);
        assert(fraction == first * unit + low);
        assert(v == whole * scale + fraction);
        if first >= 5 {
            assert(2 * scale * (whole + 1) <= 2 * v + scale && 2 * v + scale < 2 * scale * (whole
                + 2)) by (nonlinear_arith)
                requires
                    v == whole * scale + fraction,
                    fraction == first * unit + low,
                    scale == 10 * unit,
                    first >= 5,
                    fraction < scale,
                    low >= 0,
                    unit >= 1,
            ;
        } else {
            assert(2 * scale * whole <= 2 * v + scale && 2 * v + scale < 2 * scale * (whole + 1))
                by (nonlinear_arith)
                requires
                    v == whole * scale + fraction,
                    fraction == first * unit + low,
                    scale == 10 * unit,
                    first <= 4,
                    low < unit,
                    fraction >= 0,
                    whole >= 0,
                    scale >= 1,
            ;
        }
    }
}

/// `v`, or `cap` where `v` is beyond it.
pub open spec fn held(v: nat, cap: nat) -> nat {
    if v < cap {
        v
    } else {
        cap
    }
}

/// The magnitude to which exponents are held while reading: one that no
/// text in memory reaches with the count of its digits.
pub const EXPONENT_CAP: u128 = 0x40_0000_0000_0000_0000;

/// The value to which whole parts are held while reading: the first that
/// sixty-four bits cannot take.
pub const WHOLE_CAP: u128 = 0x1_0000_0000_0000_0000;

/// The number of zeros behind a positive whole part with which it is
/// beyond `WHOLE_CAP` for certain.
pub const PAD_CAP: u8 = 20;

/// Twenty zeros behind a one write a number that sixty-four bits cannot
/// hold.
pub proof fn lemma_pow10_of_twenty()
    ensures
        pow10(20) == 100_000_000_000_000_000_000,
        pow10(20) >= WHOLE_CAP,
{
    reveal_with_fuel(pow10, 11);
    assert(pow10(10) == 10_000_000_000);
    assert(pow10(20) == 10_000_000_000 * pow10(10));
}

/// Powers of ten grow with their exponent.
pub proof fn lemma_pow10_monotonic(a: nat, b: nat)
    requires
        a <= b,
    ensures
        1 <= pow10(a) <= pow10(b),
    decreases b,
{
    if b == 0 {
    } else if a == b {
        lemma_pow10_monotonic((a - 1) as nat, (b - 1) as nat);
    } else {
        lemma_pow10_monotonic(a, (b - 1) as nat);
    }
}

/// The index behind the run of ASCII digits that starts at `from` and ends
/// at `hi` at the latest.
pub fn digits_end(s: &Vec<char>, from: usize, hi: usize) -> (end: usize)
    requires
        from <= hi <= s.len(),
    ensures
        from <= end <= hi,
        end - from == leading_digits(s@.subrange(from as int, hi as int)),
        all_digits(s@.subrange(from as int, end as int)),
{
    let mut i: usize = from;
    while i < hi && is_digit_char(s[i])
        invariant
            from <= i <= hi <= s.len(),
            leading_digits(s@.subrange(from as int, hi as int)) == (i - from) + leading_digits(
                s@.subrange(i as int, hi as int),
            ),
            all_digits(s@.subrange(from as int, i as int)),
        decreases hi - i,
    {
        assert(s@.subrange(i as int, hi as int).skip(1) =~= s@.subrange(i + 1, hi as int));
        i += 1;
    }
    i
}

/// Reads the range `lo..hi` of `s` as all that follows a mantissa. Where it
/// is an exponent, or empty, the result tells whether a minus sign stands
/// in it, and the exponent's magnitude, held to `EXPONENT_CAP`.
pub fn exponent_in(s: &Vec<char>, lo: usize, hi: usize) -> (r: Option<(bool, u128)>)
    requires
        lo <= hi <= s.len(),
    ensures
        match read_exponent(s@.subrange(lo as int, hi as int)) {
            Some(x) => r matches Some((negative, magnitude)) && stands_for(negative, magnitude, x),
            None => r is None,
        },
{
    let ghost tail = s@.subrange(lo as int, hi as int);
    if lo == hi {
        return Some((false, 0));
    }
    if s[lo] != 'e' && s[lo] != 'E' {
        return None;
    }
    let negative = lo + 1 < hi && s[lo + 1] == '-';
    let start: usize = if lo + 1 < hi && (s[lo + 1] == '+' || s[lo + 1] == '-') {
        lo + 2
    } else {
        lo + 1
    };
    let ghost body = s@.subrange(start as int, hi as int);
    assert(tail.skip(1) =~= s@.subrange(lo + 1, hi as int));
    assert(body =~= unsigned_part(tail.skip(1)));
    assert(negative == has_minus(tail.skip(1)));
    if start == hi {
        return None;
    }
    let mut acc: u128 = 0;
    let mut i: usize = start;
    while i < hi
        invariant
            lo < start <= i <= hi <= s.len(),
            body == s@.subrange(start as int, hi as int),
            tail == s@.subrange(lo as int, hi as int),
            is_letter(tail[0], 'e', 'E'),
            body == unsigned_part(tail.skip(1)),
            all_digits(body.take(i - start)),
            acc == held(digits_value(body.take(i - start)), EXPONENT_CAP as nat),
        decreases hi - i,
    {
        let c = s[i];
        assert(c == body[i - start]);
        if !is_digit_char(c) {
            return None;
        }
        proof {
            assert(body.take(i + 1 - start) =~= body.take(i - start).push(c));
            lemma_digits_value_push(body.take(i - start), c);
        }
        let next: u128 = acc * 10 + digit_of(c) as u128;
        acc = if next < EXPONENT_CAP {
            next
        } else {
            EXPONENT_CAP
        };
        i += 1;
    }
    assert(body.take(hi - start) =~= body);
    Some((negative, acc))
}

/// The number that the first `count` of `digits` write, held to `WHOLE_CAP`.
pub fn held_value(digits: &Vec<char>, count: usize) -> (v: u128)
    requires
        count <= digits.len(),
        all_digits(digits@),
    ensures
        v == held(digits_value(digits@.take(count as int)), WHOLE_CAP as nat),
{
    let mut acc: u128 = 0;
    let mut j: usize = 0;
    while j < count
        invariant
            j <= count <= digits.len(),
            all_digits(digits@),
            acc == held(digits_value(digits@.take(j as int)), WHOLE_CAP as nat),
        decreases count - j,
    {
        let c = digits[j];
        proof {
            assert(digits@.take(j + 1) =~= digits@.take(j as int).push(c));
            lemma_digits_value_push(digits@.take(j as int), c);
        }
        let next: u128 = acc * 10 + digit_of(c) as u128;
        acc = if next < WHOLE_CAP {
            next
        } else {
            WHOLE_CAP
        };
        j += 1;
    }
    acc
}

/// Appends the range `from..to` of `s` to `out`.
pub fn append_range(out: &mut Vec<char>, s: &Vec<char>, from: usize, to: usize)
    requires
        from <= to <= s.len(),
    ensures
        final(out)@ == old(out)@ + s@.subrange(from as int, to as int),
{
    let mut i: usize = from;
    while i < to
        invariant
            from <= i <= to <= s.len(),
            out@ == old(out)@ + s@.subrange(from as int, i as int),
        decreases to - i,
    {
        out.push(s[i]);
        assert(s@.subrange(from as int, i + 1) =~= s@.subrange(from as int, i as int).push(
            s@[i as int],
        ));
        i += 1;
    }
    assert(s@.subrange(from as int, from as int) =~= Seq::<char>::empty());
}

/// The seconds for a whole part held to `WHOLE_CAP`, one added where `up`.
pub fn seconds_for(whole: u128, up: bool) -> (r: Option<u64>)
    requires
        whole <= WHOLE_CAP,
    ensures
        forall|w: nat|
            whole == held(w, WHOLE_CAP as nat) ==> r == seconds_of(
                if up {
                    w + 1
                } else {
                    w
                },
            ),
{
    let total: u128 = if up {
        whole + 1
    } else {
        whole
    };
    if total == 0 || total > u64::MAX as u128 {
        None
    } else {
        Some(total as u64)
    }
}

/// Whether a sign flag and a held magnitude stand for the exponent `x`.
pub open spec fn stands_for(negative: bool, magnitude: u128, x: int) -> bool {
    &&& magnitude == held((if x < 0 { -x } else { x }) as nat, EXPONENT_CAP as nat)
    &&& negative ==> x <= 0
    &&& !negative ==> x >= 0
}

/// Reads the mantissa that starts at `from`: its digits without the point,
/// the number of them that stand before the point, and the index behind it.
pub fn read_mantissa(s: &Vec<char>, from: usize, hi: usize) -> (r: (Vec<char>, usize, usize))
    requires
        from <= hi <= s.len(),
    ensures
        r.0@ == mantissa_digits(s@.subrange(from as int, hi as int)),
        r.1 == leading_digits(s@.subrange(from as int, hi as int)),
        r.2 - from == mantissa_len(s@.subrange(from as int, hi as int)),
        from <= r.2 <= hi,
        r.1 <= r.0.len() <= r.2 - from,
        all_digits(r.0@),
{
    let ghost body = s@.subrange(from as int, hi as int);
    let int_end = digits_end(s, from, hi);
    let has_point = int_end < hi && s[int_end] == '.';
    let frac_start: usize = if has_point {
        int_end + 1
    } else {
        int_end
    };
    let frac_end: usize = if has_point {
        digits_end(s, frac_start, hi)
    } else {
        int_end
    };
    let mut digits: Vec<char> = Vec::new();
    append_range(&mut digits, s, from, int_end);
    append_range(&mut digits, s, frac_start, frac_end);
    proof {
        let int_len = int_end - from;
        assert(body.take(int_len) =~= s@.subrange(from as int, int_end as int));
        if has_point {
            assert(body[int_len] == '.');
            assert(body.skip(int_len + 1) =~= s@.subrange(frac_start as int, hi as int));
            assert(body.subrange(int_len + 1, frac_end - from) =~= s@.subrange(
                frac_start as int,
                frac_end as int,
            ));
        } else {
            assert(s@.subrange(frac_start as int, frac_end as int) =~= Seq::<char>::empty());
        }
        assert(digits@ =~= mantissa_digits(body));
    }
    (digits, int_end - from, frac_end)
}

/// The whole part of the number with the given digits, held to `WHOLE_CAP`,
/// where the exponent moves the point beyond the last digit by `beyond`
/// places or more: zeros fill them.
fn held_padded(digits: &Vec<char>, beyond: u128, Ghost(pad): Ghost<nat>) -> (whole: u128)
    requires
        all_digits(digits@),
        beyond >= 1,
        beyond as nat == pad || (beyond >= PAD_CAP && pad >= PAD_CAP),
    ensures
        whole == held(digits_value(digits@) * pow10(pad), WHOLE_CAP as nat),
{
    let value = held_value(digits, digits.len());
    assert(digits@.take(digits.len() as int) =~= digits@);
    let steps: u8 = if beyond < PAD_CAP as u128 {
        beyond as u8
    } else {
        PAD_CAP
    };
    let ghost v = digits_value(digits@);
    let mut whole: u128 = value;
    let mut t: u8 = 0;
    assert(v * pow10(0) == v) by (nonlinear_arith)
        requires
            pow10(0) == 1,
    ;
    while t < steps
        invariant
            t <= steps <= PAD_CAP,
            v == digits_value(digits@),
            whole == held(v * pow10(t as nat), WHOLE_CAP as nat),
        decreases steps - t,
    {
        proof {
            assert(v * pow10((t + 1) as nat) == (v * pow10(t as nat)) * 10) by (nonlinear_arith)
                requires
                    pow10((t + 1) as nat) == 10 * pow10(t as nat),
            ;
        }
        let next: u128 = whole * 10;
        whole = if next < WHOLE_CAP {
            next
        } else {
            WHOLE_CAP
        };
        t += 1;
    }
    proof {
        if (steps as nat) != pad {
            lemma_pow10_monotonic(20, pad);
            lemma_pow10_of_twenty();
            if v > 0 {
                assert(v * pow10(pad) >= WHOLE_CAP && v * pow10(20) >= WHOLE_CAP) by (nonlinear_arith)
                    requires
                        v >= 1,
                        pow10(pad) >= pow10(20),
                        pow10(20) >= WHOLE_CAP,
                ;
            } else {
                assert(v * pow10(pad) == 0 && v * pow10(20) == 0) by (nonlinear_arith)
                    requires
                        v == 0,
                ;
            }
        }
    }
    whole
}

/// The seconds that a number stands for, given the digits of its mantissa,
/// the count of those before the point, and its exponent as a sign flag and
/// a magnitude held to `EXPONENT_CAP`.
fn seconds_from(
    digits: &Vec<char>,
    int_len: usize,
    negative: bool,
    magnitude: u128,
    Ghost(x): Ghost<int>,
) -> (r: Option<u64>)
    requires
        all_digits(digits@),
        int_len <= digits.len(),
        stands_for(negative, magnitude, x),
    ensures
        r == seconds_of(rounded(Decimal { digits: digits@, point: int_len + x })),
{
    let n: usize = digits.len();
    let frac_len: usize = n - int_len;
    let ghost d = Decimal { digits: digits@, point: int_len + x };
    if negative {
        if magnitude > int_len as u128 {
            return None;
        }
        let point: usize = int_len - magnitude as usize;
        assert(point == d.point);
        let whole = held_value(digits, point);
        let up = point < n && digit_of(digits[point]) >= 5;
        seconds_for(whole, up)
    } else if magnitude <= frac_len as u128 {
        let point: usize = int_len + magnitude as usize;
        assert(point == d.point);
        let whole = held_value(digits, point);
        let up = point < n && digit_of(digits[point]) >= 5;
        seconds_for(whole, up)
    } else {
        let beyond: u128 = magnitude - frac_len as u128;
        let whole = held_padded(digits, beyond, Ghost((d.point - n) as nat));
        seconds_for(whole, false)
    }
}

/// Reads the range `lo..hi` of `s` as a number of seconds.
pub fn rounded_seconds_in(s: &Vec<char>, lo: usize, hi: usize) -> (r: Option<u64>)
    requires
        lo <= hi <= s.len(),
    ensures
        r == rounded_seconds(s@.subrange(lo as int, hi as int)),
{
    let ghost whole_text = s@.subrange(lo as int, hi as int);
    if lo == hi {
        return None;
    }
    if s[lo] == '-' {
        return None;
    }
    let a: usize = if s[lo] == '+' {
        lo + 1
    } else {
        lo
    };
    let ghost body = s@.subrange(a as int, hi as int);
    assert(body =~= unsigned_part(whole_text));
    let (digits, int_len, end) = read_mantissa(s, a, hi);
    if digits.len() == 0 {
        return None;
    }
    assert(body.skip(end - a) =~= s@.subrange(end as int, hi as int));
    match exponent_in(s, end, hi) {
        Some((negative, magnitude)) => {
            let ghost x = read_exponent(s@.subrange(end as int, hi as int)).unwrap();
            seconds_from(&digits, int_len, negative, magnitude, Ghost(x))
        },
        None => None,
    }
}

/// Reads `text` as a number of seconds, after trimming it.
pub fn parse_seconds(text: &str) -> (r: Option<u64>)
    ensures
        r == rounded_seconds(trim(text@)),
{
    let chars = chars_of(text);
    assert(chars@.subrange(0, chars@.len() as int) =~= chars@);
    let (a, b) = trimmed_range(&chars, 0, chars.len());
    rounded_seconds_in(&chars, a, b)
}

} // verus!
