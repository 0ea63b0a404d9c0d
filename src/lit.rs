//! Reading typed values out of attribute literals.
use vstd::prelude::*;
use crate::attr::Lit;

verus! {

/// Why a literal could not be read as the requested type.
#[derive(Debug, PartialEq, Eq, Structural, Clone, Copy)]
pub enum LitError {
    NotBool,
    NotString,
    NotInteger,
    IntegerOutOfRange,
}

impl LitError {
    /// A human-readable description.
    pub fn message(&self) -> (r: String)
        ensures
            *self == LitError::NotBool ==> r@ == "parse to bool failed"@,
            *self == LitError::NotString ==> r@ == "parse to string failed"@,
            *self == LitError::NotInteger ==> r@ == "parse to integer failed"@,
            *self == LitError::IntegerOutOfRange ==> r@ == "integer literal out of range"@,
    {
        match self {
            LitError::NotBool => String::from_str("parse to bool failed"),
            LitError::NotString => String::from_str("parse to string failed"),
            LitError::NotInteger => String::from_str("parse to integer failed"),
            LitError::IntegerOutOfRange => String::from_str("integer literal out of range"),
        }
    }
}

pub open spec fn is_digit(c: char) -> bool {
    '0' <= c && c <= '9'
}

pub open spec fn digit_value(c: char) -> int {
    c as int - '0' as int
}

/// The number that a string of decimal digits denotes.
pub open spec fn decimal_value(s: Seq<char>) -> int
    decreases s.len(),
{
    if s.len() == 0 {
        0
    } else {
        decimal_value(s.drop_last()) * 10 + digit_value(s.last())
    }
}

pub open spec fn all_digits(s: Seq<char>) -> bool {
    forall|i: int| 0 <= i < s.len() ==> is_digit(#[trigger] s[i])
}

/// Whether a string is a non-empty run of decimal digits.
pub open spec fn is_decimal(s: Seq<char>) -> bool {
    s.len() > 0 && all_digits(s)
}

/// The number that a string of decimal digits denotes, if it is one and at
/// most `max`.
pub open spec fn decimal_bounded(s: Seq<char>, max: int) -> Option<int> {
    if is_decimal(s) && decimal_value(s) <= max {
        Some(decimal_value(s))
    } else {
        None
    }
}

/// The `i64` that a string of decimal digits denotes, if it is one and fits.
pub open spec fn decimal_i64(s: Seq<char>) -> Option<i64> {
    match decimal_bounded(s, i64::MAX as int) {
        Some(v) => Some(v as i64),
        None => None,
    }
}

proof fn lemma_decimal_nonneg(s: Seq<char>)
    requires
        all_digits(s),
    ensures
        decimal_value(s) >= 0,
    decreases s.len(),
{
    if s.len() > 0 {
        assert(all_digits(s.drop_last()));
        lemma_decimal_nonneg(s.drop_last());
    }
}

/// A longer digit string never denotes less than its prefix.
proof fn lemma_decimal_prefix_mono(s: Seq<char>, i: int)
    requires
        all_digits(s),
        0 <= i <= s.len(),
    ensures
        decimal_value(s.subrange(0, i)) <= decimal_value(s),
    decreases s.len() - i,
{
    if i < s.len() {
        lemma_decimal_prefix_mono(s, i + 1);
        let p = s.subrange(0, i + 1);
        assert(p.drop_last() =~= s.subrange(0, i));
        assert(all_digits(s.subrange(0, i)));
        lemma_decimal_nonneg(s.subrange(0, i));
        assert(is_digit(p.last()));
    } else {
        assert(s.subrange(0, i) =~= s);
    }
}

/// Reads a string of decimal digits as a number no greater than `max`.
pub fn parse_decimal_bounded(s: &str, max: u64) -> (r: Option<u64>)
    ensures
        match r {
            Some(v) => decimal_bounded(s@, max as int) == Some(v as int),
            None => decimal_bounded(s@, max as int).is_none(),
        },
{
    let n = s.unicode_len();
    if n == 0 {
        return None;
    }
    let mut acc: u64 = 0;
    let mut i: usize = 0;
    while i < n
        invariant
            n == s@.len(),
            i <= n,
            all_digits(s@.subrange(0, i as int)),
            acc as int == decimal_value(s@.subrange(0, i as int)),
            acc <= max,
        decreases n - i,
    {
        let c = s.get_char(i);
        let ghost pre = s@.subrange(0, i as int);
        let ghost next = s@.subrange(0, i as int + 1);
        assert(next.drop_last() =~= pre);
        if !('0' <= c && c <= '9') {
            assert(!all_digits(s@));
            return None;
        }
        let d: u64 = (c as u32 - '0' as u32) as u64;
        if d > max || acc > (max - d) / 10 {
            proof {
                assert(all_digits(next));
                assert(decimal_value(next) > max) by (nonlinear_arith)
                    requires
                        decimal_value(next) == acc * 10 + d,
                        d > max || acc > (max - d) / 10,
                        acc <= max,
                        d >= 0,
                ;
                if all_digits(s@) {
                    lemma_decimal_prefix_mono(s@, i as int + 1);
                }
            }
            return None;
        }
        assert(0 <= acc * 10 + d <= max) by (nonlinear_arith)
            requires
                d <= max,
                0 <= acc <= (max - d) / 10,
                0 <= d <= 9,
        ;
        acc = acc * 10 + d;
        i = i + 1;
        assert(all_digits(s@.subrange(0, i as int)));
    }
    assert(s@.subrange(0, n as int) =~= s@);
    Some(acc)
}

/// Reads a string of decimal digits as an `i64`.
pub fn parse_decimal(s: &str) -> (r: Option<i64>)
    ensures
        r == decimal_i64(s@),
{
    match parse_decimal_bounded(s, i64::MAX as u64) {
        Some(v) => Some(v as i64),
        None => None,
    }
}

/// Whether a string is a non-empty run of decimal digits.
pub fn str_is_decimal(s: &str) -> (r: bool)
    ensures
        r == is_decimal(s@),
{
    let n = s.unicode_len();
    let mut i: usize = 0;
    while i < n
        invariant
            n == s@.len(),
            i <= n,
            forall|j: int| 0 <= j < i ==> is_digit(#[trigger] s@[j]),
        decreases n - i,
    {
        let c = s.get_char(i);
        if !('0' <= c && c <= '9') {
            return false;
        }
        i = i + 1;
    }
    n > 0
}

/// The integer that a literal's text denotes: a non-empty run of decimal
/// digits, or, for a signed type, such a run after a leading `-`.
pub open spec fn int_text(s: Seq<char>, signed: bool) -> Option<int> {
    if is_decimal(s) {
        Some(decimal_value(s))
    } else if signed && s.len() > 0 && s[0] == '-' && is_decimal(s.drop_first()) {
        Some(-decimal_value(s.drop_first()))
    } else {
        None
    }
}

/// The value of an integer literal, if it is one within `[min, max]`; a
/// leading `-` is read only where `min` is negative.
pub open spec fn int_lit_value(lit: Lit, min: int, max: int) -> Option<int> {
    match lit {
        Lit::Int(d) => match int_text(d@, min < 0) {
            Some(v) => if min <= v <= max {
                Some(v)
            } else {
                None
            },
            None => None,
        },
        _ => None,
    }
}

/// Why a literal is no integer within the bounds: it denotes one outside
/// them, or it is no integer literal at all.
pub open spec fn int_lit_error(lit: Lit, signed: bool) -> LitError {
    match lit {
        Lit::Int(d) => if int_text(d@, signed) is Some {
            LitError::IntegerOutOfRange
        } else {
            LitError::NotInteger
        },
        _ => LitError::NotInteger,
    }
}

/// Reads an integer literal as a number within `[min, max]`.
fn int_from_lit(lit: &Lit, min: i128, max: i128) -> (r: Result<i128, LitError>)
    requires
        min <= 0 <= max,
        max <= u64::MAX,
        -min <= u64::MAX,
    ensures
        match r {
            Ok(v) => int_lit_value(*lit, min as int, max as int) == Some(v as int),
            Err(e) => int_lit_value(*lit, min as int, max as int).is_none() && e == int_lit_error(
                *lit,
                min < 0,
            ),
        },
{
    match lit {
        Lit::Int(digits) => {
            let s = digits.as_str();
            match parse_decimal_bounded(s, max as u64) {
                Some(v) => {
                    return Ok(v as i128);
                },
                None => {},
            }
            if str_is_decimal(s) {
                return Err(LitError::IntegerOutOfRange);
            }
            let n = s.unicode_len();
            if min < 0 && n > 1 && s.get_char(0) == '-' {
                let rest = s.substring_char(1, n);
                assert(rest@ =~= s@.drop_first());
                match parse_decimal_bounded(rest, (-min) as u64) {
                    Some(m) => {
                        return Ok(-(m as i128));
                    },
                    None => {
                        if str_is_decimal(rest) {
                            return Err(LitError::IntegerOutOfRange);
                        }
                    },
                }
            }
            Err(LitError::NotInteger)
        },
        _ => Err(LitError::NotInteger),
    }
}

/// A type that can be read out of a literal.
pub trait FromLit: Sized {
    /// The value that a literal denotes in this type, if any.
    spec fn lit_value(lit: Lit) -> Option<Self>;

    /// The error reported for a literal that does not read as this type.
    spec fn lit_error(lit: Lit) -> LitError;

    fn from_lit(lit: &Lit) -> (r: Result<Self, LitError>)
        ensures
            match r {
                Ok(v) => Self::lit_value(*lit) == Some(v),
                Err(e) => Self::lit_value(*lit).is_none() && e == Self::lit_error(*lit),
            },
    ;
}

impl FromLit for bool {
    open spec fn lit_value(lit: Lit) -> Option<bool> {
        match lit {
            Lit::Bool(b) => Some(b),
            _ => None,
        }
    }

    open spec fn lit_error(lit: Lit) -> LitError {
        LitError::NotBool
    }

    fn from_lit(lit: &Lit) -> (r: Result<bool, LitError>) {
        match lit {
            Lit::Bool(b) => Ok(*b),
            _ => Err(LitError::NotBool),
        }
    }
}

impl FromLit for String {
    open spec fn lit_value(lit: Lit) -> Option<String> {
        match lit {
            Lit::Str(s) => Some(s),
            _ => None,
        }
    }

    open spec fn lit_error(lit: Lit) -> LitError {
        LitError::NotString
    }

    fn from_lit(lit: &Lit) -> (r: Result<String, LitError>) {
        match lit {
            Lit::Str(s) => Ok(s.clone()),
            _ => Err(LitError::NotString),
        }
    }
}

impl FromLit for u8 {
    open spec fn lit_value(lit: Lit) -> Option<u8> {
        match int_lit_value(lit, u8::MIN as int, u8::MAX as int) {
            Some(v) => Some(v as u8),
            None => None,
        }
    }

    open spec fn lit_error(lit: Lit) -> LitError {
        int_lit_error(lit, false)
    }

    fn from_lit(lit: &Lit) -> (r: Result<u8, LitError>) {
        match int_from_lit(lit, u8::MIN as i128, u8::MAX as i128) {
            Ok(v) => Ok(v as u8),
            Err(e) => Err(e),
        }
    }
}

impl FromLit for u16 {
    open spec fn lit_value(lit: Lit) -> Option<u16> {
        match int_lit_value(lit, u16::MIN as int, u16::MAX as int) {
            Some(v) => Some(v as u16),
            None => None,
        }
    }

    open spec fn lit_error(lit: Lit) -> LitError {
        int_lit_error(lit, false)
    }

    fn from_lit(lit: &Lit) -> (r: Result<u16, LitError>) {
        match int_from_lit(lit, u16::MIN as i128, u16::MAX as i128) {
            Ok(v) => Ok(v as u16),
            Err(e) => Err(e),
        }
    }
}

impl FromLit for u32 {
    open spec fn lit_value(lit: Lit) -> Option<u32> {
        match int_lit_value(lit, u32::MIN as int, u32::MAX as int) {
            Some(v) => Some(v as u32),
            None => None,
        }
    }

    open spec fn lit_error(lit: Lit) -> LitError {
        int_lit_error(lit, false)
    }

    fn from_lit(lit: &Lit) -> (r: Result<u32, LitError>) {
        match int_from_lit(lit, u32::MIN as i128, u32::MAX as i128) {
            Ok(v) => Ok(v as u32),
            Err(e) => Err(e),
        }
    }
}

impl FromLit for u64 {
    open spec fn lit_value(lit: Lit) -> Option<u64> {
        match int_lit_value(lit, u64::MIN as int, u64::MAX as int) {
            Some(v) => Some(v as u64),
            None => None,
        }
    }

    open spec fn lit_error(lit: Lit) -> LitError {
        int_lit_error(lit, false)
    }

    fn from_lit(lit: &Lit) -> (r: Result<u64, LitError>) {
        match int_from_lit(lit, u64::MIN as i128, u64::MAX as i128) {
            Ok(v) => Ok(v as u64),
            Err(e) => Err(e),
        }
    }
}

impl FromLit for i8 {
    open spec fn lit_value(lit: Lit) -> Option<i8> {
        match int_lit_value(lit, i8::MIN as int, i8::MAX as int) {
            Some(v) => Some(v as i8),
            None => None,
        }
    }

    open spec fn lit_error(lit: Lit) -> LitError {
        int_lit_error(lit, true)
    }

    fn from_lit(lit: &Lit) -> (r: Result<i8, LitError>) {
        match int_from_lit(lit, i8::MIN as i128, i8::MAX as i128) {
            Ok(v) => Ok(v as i8),
            Err(e) => Err(e),
        }
    }
}

impl FromLit for i16 {
    open spec fn lit_value(lit: Lit) -> Option<i16> {
        match int_lit_value(lit, i16::MIN as int, i16::MAX as int) {
            Some(v) => Some(v as i16),
            None => None,
        }
    }

    open spec fn lit_error(lit: Lit) -> LitError {
        int_lit_error(lit, true)
    }

    fn from_lit(lit: &Lit) -> (r: Result<i16, LitError>) {
        match int_from_lit(lit, i16::MIN as i128, i16::MAX as i128) {
            Ok(v) => Ok(v as i16),
            Err(e) => Err(e),
        }
    }
}

impl FromLit for i32 {
    open spec fn lit_value(lit: Lit) -> Option<i32> {
        match int_lit_value(lit, i32::MIN as int, i32::MAX as int) {
            Some(v) => Some(v as i32),
            None => None,
        }
    }

    open spec fn lit_error(lit: Lit) -> LitError {
        int_lit_error(lit, true)
    }

    fn from_lit(lit: &Lit) -> (r: Result<i32, LitError>) {
        match int_from_lit(lit, i32::MIN as i128, i32::MAX as i128) {
            Ok(v) => Ok(v as i32),
            Err(e) => Err(e),
        }
    }
}

impl FromLit for i64 {
    open spec fn lit_value(lit: Lit) -> Option<i64> {
        match int_lit_value(lit, i64::MIN as int, i64::MAX as int) {
            Some(v) => Some(v as i64),
            None => None,
        }
    }

    open spec fn lit_error(lit: Lit) -> LitError {
        int_lit_error(lit, true)
    }

    fn from_lit(lit: &Lit) -> (r: Result<i64, LitError>) {
        match int_from_lit(lit, i64::MIN as i128, i64::MAX as i128) {
            Ok(v) => Ok(v as i64),
            Err(e) => Err(e),
        }
    }
}

/// A borrowed literal, read as any [`FromLit`] type.
pub struct LitWrap<'a> {
    pub inner: &'a Lit,
}

impl<'a> LitWrap<'a> {
    pub fn parse<T: FromLit>(&self) -> (r: Result<T, LitError>)
        ensures
            match r {
                Ok(v) => T::lit_value(*self.inner) == Some(v),
                Err(e) => T::lit_value(*self.inner).is_none() && e == T::lit_error(*self.inner),
            },
    {
        T::from_lit(self.inner)
    }
}

} // verus!
