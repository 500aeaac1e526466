//! The kinds of number a setting can hold: whole numbers, and binary floating-point numbers
//! kept by their bit pattern.

use vstd::prelude::*;

verus! {

/// Whether the first rank lies before the second. A value without a rank lies before nothing
/// and nothing lies before it.
pub open spec fn precedes(a: Option<int>, b: Option<int>) -> bool {
    match (a, b) {
        (Some(x), Some(y)) => x < y,
        _ => false,
    }
}

/// Whether the first rank lies before the second or is the same. A value without a rank is
/// not even level with itself.
pub open spec fn levels(a: Option<int>, b: Option<int>) -> bool {
    match (a, b) {
        (Some(x), Some(y)) => x <= y,
        _ => false,
    }
}

/// A number that a setting can be bounded by.
pub trait Number: Copy + Sized {
    /// Where the value stands among all values of its kind; `None` for one that compares
    /// with nothing, itself included.
    spec fn rank(self) -> Option<int>;

    /// `self < other`
    fn below(self, other: Self) -> (b: bool)
        ensures
            b == precedes(self.rank(), other.rank()),
    ;

    /// `self <= other`
    fn at_most(self, other: Self) -> (b: bool)
        ensures
            b == levels(self.rank(), other.rank()),
    ;
}

impl Number for i64 {
    open spec fn rank(self) -> Option<int> {
        Some(self as int)
    }

    fn below(self, other: Self) -> (b: bool) {
        self < other
    }

    fn at_most(self, other: Self) -> (b: bool) {
        self <= other
    }
}

/// The bit that holds the sign of a `Float`.
pub const SIGN_BIT: u64 = 0x8000_0000_0000_0000;

/// The bits of positive infinity; a greater magnitude is not a number.
pub const INFINITY_BITS: u64 = 0x7FF0_0000_0000_0000;

/// A binary floating-point number of 64 bits, held by its bit pattern: the sign in the
/// highest bit, exponent and fraction below it.
#[derive(Clone, Copy, Debug)]
pub struct Float {
    bits: u64,
}

impl Float {
    /// The bits below the sign.
    pub closed spec fn magnitude(self) -> int {
        if self.bits >= SIGN_BIT {
            self.bits - SIGN_BIT
        } else {
            self.bits as int
        }
    }

    /// Whether the sign bit is set.
    pub closed spec fn negative(self) -> bool {
        self.bits >= SIGN_BIT
    }

    /// Whether the bits stand for no number at all.
    pub open spec fn is_nan(self) -> bool {
        self.magnitude() > INFINITY_BITS
    }

    /// The bit pattern.
    pub closed spec fn bits(self) -> u64 {
        self.bits
    }

    /// The number with this bit pattern.
    pub fn from_bits(bits: u64) -> (r: Self)
        ensures
            r.bits() == bits,
    {
        Float { bits }
    }

    /// The bit pattern of the number.
    pub fn to_bits(self) -> (bits: u64)
        ensures
            bits == self.bits(),
    {
        self.bits
    }

    /// The rank as a machine integer; `None` for what is not a number.
    fn key(self) -> (k: Option<i64>)
        ensures
            self.rank() == match k {
                Some(v) => Some(v as int),
                None => None,
            },
    {
        let (negative, magnitude) = if self.bits >= SIGN_BIT {
            (true, self.bits - SIGN_BIT)
        } else {
            (false, self.bits)
        };
        if magnitude > INFINITY_BITS {
            None
        } else if negative {
            Some(-(magnitude as i64))
        } else {
            Some(magnitude as i64)
        }
    }
}

impl Number for Float {
    /// Numbers of one sign are ordered by their magnitude, negative ones backwards; the two
    /// zeros share rank 0.
    open spec fn rank(self) -> Option<int> {
        if self.is_nan() {
            None
        } else if self.negative() {
            Some(-self.magnitude())
        } else {
            Some(self.magnitude())
        }
    }

    fn below(self, other: Self) -> (b: bool) {
        match (self.key(), other.key()) {
            (Some(x), Some(y)) => x < y,
            _ => false,
        }
    }

    fn at_most(self, other: Self) -> (b: bool) {
        match (self.key(), other.key()) {
            (Some(x), Some(y)) => x <= y,
            _ => false,
        }
    }
}

/// Whether `c` is a decimal digit.
pub open spec fn is_digit(c: char) -> bool {
    '0' <= c <= '9'
}

/// Whether `s` holds decimal digits only.
pub open spec fn all_digits(s: Seq<char>) -> bool {
    forall|i: int| 0 <= i < s.len() ==> is_digit(#[trigger] s[i])
}

/// The number that the decimal digits `s` write.
pub open spec fn digits_value(s: Seq<char>) -> int
    decreases s.len(),
{
    if s.len() == 0 {
        0
    } else {
        digits_value(s.drop_last()) * 10 + (s.last() as int - '0' as int)
    }
}

/// The whole number that `s` writes in decimal digits: an optional `+` or `-`, then at least
/// one digit and nothing else. `None` for any other text, and for a number that does not
/// fit in 64 bits.
pub open spec fn decimal(s: Seq<char>) -> Option<int> {
    let signed = s.len() > 0 && (s[0] == '-' || s[0] == '+');
    let digits = if signed {
        s.drop_first()
    } else {
        s
    };
    let value = if s.len() > 0 && s[0] == '-' {
        -digits_value(digits)
    } else {
        digits_value(digits)
    };
    if digits.len() > 0 && all_digits(digits) && i64::MIN <= value <= i64::MAX {
        Some(value)
    } else {
        None
    }
}

/// The digits at the start of a number write no more than all of them.
proof fn lemma_digits_value_grows(s: Seq<char>, k: int)
    requires
        all_digits(s),
        0 <= k <= s.len(),
    ensures
        0 <= digits_value(s.take(k)) <= digits_value(s),
    decreases s.len(),
{
    if k == s.len() {
        assert(s.take(k) =~= s);
        if s.len() > 0 {
            assert(all_digits(s.drop_last()));
            lemma_digits_value_grows(s.drop_last(), k - 1);
            assert(is_digit(s.last()));
        }
    } else {
        let shorter = s.drop_last();
        assert(all_digits(shorter));
        assert(is_digit(s.last()));
        lemma_digits_value_grows(shorter, k);
        assert(shorter.take(k) =~= s.take(k));
    }
}

/// Reads a whole number in decimal digits.
pub fn parse_decimal(text: &Vec<char>) -> (number: Option<i64>)
    ensures
        match number {
            Some(v) => decimal(text@) == Some(v as int),
            None => decimal(text@).is_none(),
        },
{
    let n = text.len();
    if n == 0 {
        return None;
    }
    let negative = text[0] == '-';
    let start: usize = if negative || text[0] == '+' {
        1
    } else {
        0
    };
    let ghost digits = text@.skip(start as int);
    assert(digits =~= if start == 1 {
        text@.drop_first()
    } else {
        text@
    });
    if start == n {
        return None;
    }
    let limit: i128 = 0x8000_0000_0000_0000;
    let mut magnitude: i128 = 0;
    let mut i: usize = start;
    while i < n
        invariant
            start <= i <= n == text.len(),
            n > 0,
            start == if text@[0] == '-' || text@[0] == '+' {
                1int
            } else {
                0int
            },
            digits == if start == 1 {
                text@.drop_first()
            } else {
                text@
            },
            all_digits(digits.take(i - start)),
            magnitude == digits_value(digits.take(i - start)),
            0 <= magnitude <= limit,
            limit == 0x8000_0000_0000_0000,
        decreases n - i,
    {
        let c = text[i];
        if !('0' <= c && c <= '9') {
            assert(!is_digit(digits[i - start]));
            return None;
        }
        let digit: i128 = (c as u32 - '0' as u32) as i128;
        proof {
            let longer = digits.take(i - start + 1);
            assert(longer.drop_last() =~= digits.take(i - start));
            assert(longer.last() == c);
        }
        magnitude = magnitude * 10 + digit;
        i = i + 1;
        if magnitude > limit {
            proof {
                if all_digits(digits) {
                    lemma_digits_value_grows(digits, i - start);
                }
            }
            return None;
        }
    }
    assert(digits.take(n - start) =~= digits);
    if negative {
        Some((-magnitude) as i64)
    } else if magnitude == limit {
        None
    } else {
        Some(magnitude as i64)
    }
}

} // verus!
