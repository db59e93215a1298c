//! The numeric-literal micro-parser: turns the raw digit-and-suffix text
//! captured by the tokenizer into one of several numeric representations,
//! with precise suffix-and-volume parsing rules.
//!
//! A literal is, left to right: an optional high-minus sign, a magnitude,
//! an optional exponent marker `E` with a signed exponent, and an optional
//! signature letter declaring the kind, followed by volume digits declaring
//! the bit width. A `J` splits the text into the two halves of a complex
//! literal. Float-valued literals are kept exactly, as sign, magnitude text
//! and decimal exponent; realizing them as machine floats is left to the
//! caller.

use crate::digits::{all_digits, dec_digits_bounded, dec_text, dec_val, high_minus, int_text,
    is_dec_digit, parse_dec, parse_dec_bounded, pow10, push_dec_text, push_int_text, scale_pow10};
use crate::errors::BaseErr;
use crate::text::{build_string, sub_chars, to_chars};
use vstd::prelude::*;

verus! {

/// The exact content of a float-valued literal: its sign, its magnitude
/// text (well formed per the standard library's float grammar), and the
/// decimal exponent the literal declared. The value denoted is
/// `magnitude * 10^exponent`, negated when `negative` holds; realizing
/// that value as a machine float is left outside this crate.
#[derive(Debug, PartialEq, Clone)]
pub struct FloatLit {
    pub negative: bool,
    pub magnitude: String,
    pub exponent: i64,
}

/// The mathematical content of a `FloatLit`.
pub struct FloatLitV {
    pub negative: bool,
    pub magnitude: Seq<char>,
    pub exponent: i64,
}

impl View for FloatLit {
    type V = FloatLitV;

    open spec fn view(&self) -> FloatLitV {
        FloatLitV { negative: self.negative, magnitude: self.magnitude@, exponent: self.exponent }
    }
}

/// A parsed numeric literal: complex pairs, sized floats, sized or
/// system-width integers in both signs, unannotated values, and booleans.
/// The first field of the sized variants is the volume: the declared bit
/// width of the literal.
#[derive(Debug, PartialEq, Clone)]
pub enum NumericLiteral {
    Complex(FloatLit, FloatLit),
    Float(u8, FloatLit),
    SysUint(u64),
    Uint(u8, u64),
    SysInt(i64),
    Int(u8, i64),
    Auto(FloatLit),
    Boolean(bool),
}

/// The mathematical content of a `NumericLiteral`.
pub enum NumLitV {
    Complex(FloatLitV, FloatLitV),
    Float(u8, FloatLitV),
    SysUint(u64),
    Uint(u8, u64),
    SysInt(i64),
    Int(u8, i64),
    Auto(FloatLitV),
    Boolean(bool),
}

impl View for NumericLiteral {
    type V = NumLitV;

    open spec fn view(&self) -> NumLitV {
        match self {
            NumericLiteral::Complex(a, b) => NumLitV::Complex(a@, b@),
            NumericLiteral::Float(v, f) => NumLitV::Float(*v, f@),
            NumericLiteral::SysUint(x) => NumLitV::SysUint(*x),
            NumericLiteral::Uint(v, x) => NumLitV::Uint(*v, *x),
            NumericLiteral::SysInt(x) => NumLitV::SysInt(*x),
            NumericLiteral::Int(v, x) => NumLitV::Int(*v, *x),
            NumericLiteral::Auto(f) => NumLitV::Auto(f@),
            NumericLiteral::Boolean(b) => NumLitV::Boolean(*b),
        }
    }
}

/// Which segment of a literal failed to parse.
pub enum NumReason {
    BadU64,
    BadI64,
    BadF64,
    BadF64Neg,
    BadVolume,
    Unimplemented,
}

/// The reason text each failure is reported with.
pub open spec fn reason_text(k: NumReason) -> Seq<char> {
    match k {
        NumReason::BadU64 => "invalid u64 value"@,
        NumReason::BadI64 => "invalid i64 value"@,
        NumReason::BadF64 => "invalid f64 value"@,
        NumReason::BadF64Neg => "invalid f64 float value"@,
        NumReason::BadVolume => "Failed to parse volume"@,
        NumReason::Unimplemented => "unimplemented literal kind"@,
    }
}

// ---------------------------------------------------------------------------
// Scanning helpers: first occurrence of a character, end of a digit run.
// ---------------------------------------------------------------------------

/// The index of the first occurrence of `c` at or after `i`, or the length
/// of the text when there is none.
pub open spec fn find_from(s: Seq<char>, i: int, c: char) -> int
    decreases s.len() - i,
{
    if i < 0 || i >= s.len() {
        s.len() as int
    } else if s[i] == c {
        i
    } else {
        find_from(s, i + 1, c)
    }
}

/// The end of the digit run starting at `i`: the first index at or after
/// `i` holding no digit.
pub open spec fn digits_end(s: Seq<char>, i: int) -> int
    decreases s.len() - i,
{
    if i < 0 || i >= s.len() || !is_dec_digit(s[i]) {
        i
    } else {
        digits_end(s, i + 1)
    }
}

fn find_char(v: &Vec<char>, c: char) -> (k: usize)
    ensures
        k == find_from(v@, 0, c),
        k <= v@.len(),
        k < v@.len() ==> v@[k as int] == c,
{
    let n = v.len();
    let mut k: usize = 0;
    while k < n
        invariant
            k <= n == v@.len(),
            find_from(v@, 0, c) == find_from(v@, k as int, c),
        decreases n - k,
    {
        if v[k] == c {
            return k;
        }
        k = k + 1;
    }
    k
}

#[verifier::loop_isolation(false)]
fn digits_end_exec(v: &Vec<char>, i: usize) -> (k: usize)
    requires
        i <= v@.len(),
    ensures
        k == digits_end(v@, i as int),
        i <= k <= v@.len(),
{
    let n = v.len();
    let mut k: usize = i;
    while k < n
        invariant
            i <= k <= n,
            digits_end(v@, i as int) == digits_end(v@, k as int),
        decreases n - k,
    {
        if crate::digits::digit_value(v[k]).is_none() {
            return k;
        }
        k = k + 1;
    }
    k
}

// ---------------------------------------------------------------------------
// The float grammar, as the standard library documents it: an optional
// sign, then one of the keywords `inf`, `infinity`, `nan` (in any letter
// case) or a decimal number with an optional fraction and exponent.
// ---------------------------------------------------------------------------

pub open spec fn ci(c: char, lower: char, upper: char) -> bool {
    c == lower || c == upper
}

pub open spec fn is_inf_from(s: Seq<char>, i: int) -> bool {
    &&& s.len() - i == 3
    &&& ci(s[i], 'i', 'I')
    &&& ci(s[i + 1], 'n', 'N')
    &&& ci(s[i + 2], 'f', 'F')
}

pub open spec fn is_infinity_from(s: Seq<char>, i: int) -> bool {
    &&& s.len() - i == 8
    &&& ci(s[i], 'i', 'I')
    &&& ci(s[i + 1], 'n', 'N')
    &&& ci(s[i + 2], 'f', 'F')
    &&& ci(s[i + 3], 'i', 'I')
    &&& ci(s[i + 4], 'n', 'N')
    &&& ci(s[i + 5], 'i', 'I')
    &&& ci(s[i + 6], 't', 'T')
    &&& ci(s[i + 7], 'y', 'Y')
}

pub open spec fn is_nan_from(s: Seq<char>, i: int) -> bool {
    &&& s.len() - i == 3
    &&& ci(s[i], 'n', 'N')
    &&& ci(s[i + 1], 'a', 'A')
    &&& ci(s[i + 2], 'n', 'N')
}

/// From `i` on: either the end of the text, or an exponent marker with an
/// optionally signed digit run reaching the end of the text.
pub open spec fn exp_ok_from(s: Seq<char>, i: int) -> bool {
    if i == s.len() {
        true
    } else if 0 <= i < s.len() && (s[i] == 'e' || s[i] == 'E') {
        let j = if i + 1 < s.len() && (s[i + 1] == '+' || s[i + 1] == '-') {
            i + 2
        } else {
            i + 1
        };
        let d = digits_end(s, j);
        d > j && d == s.len()
    } else {
        false
    }
}

/// From `i` on: a decimal number with an optional fraction, then an
/// optional exponent, reaching the end of the text.
pub open spec fn number_valid_from(s: Seq<char>, i: int) -> bool {
    let d1 = digits_end(s, i);
    if d1 > i {
        if d1 == s.len() {
            true
        } else if s[d1] == '.' {
            exp_ok_from(s, digits_end(s, d1 + 1))
        } else {
            exp_ok_from(s, d1)
        }
    } else if 0 <= i < s.len() && s[i] == '.' {
        let d2 = digits_end(s, i + 1);
        d2 > i + 1 && exp_ok_from(s, d2)
    } else {
        false
    }
}

/// Whether the standard library's float parser accepts this text.
pub open spec fn float_text_valid(s: Seq<char>) -> bool {
    let b: int = if s.len() > 0 && (s[0] == '+' || s[0] == '-') {
        1
    } else {
        0
    };
    ||| is_inf_from(s, b)
    ||| is_infinity_from(s, b)
    ||| is_nan_from(s, b)
    ||| number_valid_from(s, b)
}

#[verifier::loop_isolation(false)]
fn exp_ok_exec(v: &Vec<char>, i: usize) -> (r: bool)
    requires
        i <= v@.len(),
    ensures
        r == exp_ok_from(v@, i as int),
{
    let n = v.len();
    if i == n {
        return true;
    }
    if v[i] == 'e' || v[i] == 'E' {
        let j: usize = if i + 1 < n && (v[i + 1] == '+' || v[i + 1] == '-') {
            i + 2
        } else {
            i + 1
        };
        let d = digits_end_exec(v, j);
        d > j && d == n
    } else {
        false
    }
}

/// Holds the characters of `v` against the float grammar.
#[verifier::loop_isolation(false)]
fn float_valid_chars(v: &Vec<char>) -> (r: bool)
    ensures
        r == float_text_valid(v@),
{
    let n = v.len();
    let b: usize = if n > 0 && (v[0] == '+' || v[0] == '-') {
        1
    } else {
        0
    };
    if n - b == 3 {
        if (v[b] == 'i' || v[b] == 'I') && (v[b + 1] == 'n' || v[b + 1] == 'N') && (v[b + 2] == 'f'
            || v[b + 2] == 'F') {
            return true;
        }
        if (v[b] == 'n' || v[b] == 'N') && (v[b + 1] == 'a' || v[b + 1] == 'A') && (v[b + 2] == 'n'
            || v[b + 2] == 'N') {
            return true;
        }
    }
    if n - b == 8 {
        if (v[b] == 'i' || v[b] == 'I') && (v[b + 1] == 'n' || v[b + 1] == 'N') && (v[b + 2] == 'f'
            || v[b + 2] == 'F') && (v[b + 3] == 'i' || v[b + 3] == 'I') && (v[b + 4] == 'n' || v[b
            + 4] == 'N') && (v[b + 5] == 'i' || v[b + 5] == 'I') && (v[b + 6] == 't' || v[b + 6]
            == 'T') && (v[b + 7] == 'y' || v[b + 7] == 'Y') {
            return true;
        }
    }
    let d1 = digits_end_exec(v, b);
    if d1 > b {
        if d1 == n {
            true
        } else if v[d1] == '.' {
            let d2 = digits_end_exec(v, d1 + 1);
            exp_ok_exec(v, d2)
        } else {
            exp_ok_exec(v, d1)
        }
    } else if b < n && v[b] == '.' {
        let d2 = digits_end_exec(v, b + 1);
        d2 > b + 1 && exp_ok_exec(v, d2)
    } else {
        false
    }
}

// ---------------------------------------------------------------------------
// Atomic parsers: one magnitude, no exponent marker.
// ---------------------------------------------------------------------------

/// Unsigned decimal text, as the standard library's `u64` parser takes it.
pub open spec fn atomic_unsigned_spec(s: Seq<char>) -> Option<u64> {
    match parse_dec(s) {
        Some(n) => if n <= u64::MAX {
            Some(n as u64)
        } else {
            None
        },
        None => None,
    }
}

/// Signed decimal text, as the standard library's `i64` parser takes it:
/// an optional ASCII sign, then digits, within the `i64` range.
pub open spec fn parse_i64_spec(s: Seq<char>) -> Option<i64> {
    let neg = s.len() > 0 && s[0] == '-';
    let t = if s.len() > 0 && (s[0] == '-' || s[0] == '+') {
        s.drop_first()
    } else {
        s
    };
    if t.len() > 0 && all_digits(t) {
        let n = dec_val(t);
        if neg {
            if n <= 0x8000_0000_0000_0000 {
                Some((-(n as int)) as i64)
            } else {
                None
            }
        } else {
            if n <= 0x7fff_ffff_ffff_ffff {
                Some(n as i64)
            } else {
                None
            }
        }
    } else {
        None
    }
}

/// A signed magnitude as a literal writes it: a high-minus negates the
/// decimal text that follows; without one the text is handed to the
/// signed parser as it stands.
pub open spec fn atomic_integer_spec(s: Seq<char>) -> Option<i64> {
    if s.len() > 0 && s[0] == high_minus() {
        match parse_i64_spec(s.drop_first()) {
            Some(x) => if x == i64::MIN {
                None
            } else {
                Some((-x) as i64)
            },
            None => None,
        }
    } else {
        parse_i64_spec(s)
    }
}

/// A float magnitude as a literal writes it: a high-minus negates the
/// float text that follows. The result is the sign and the magnitude text.
pub open spec fn atomic_float_spec(s: Seq<char>) -> Option<(bool, Seq<char>)> {
    if s.len() > 0 && s[0] == high_minus() {
        if float_text_valid(s.drop_first()) {
            Some((true, s.drop_first()))
        } else {
            None
        }
    } else {
        if float_text_valid(s) {
            Some((false, s))
        } else {
            None
        }
    }
}

fn atomic_unsigned_chars(v: &Vec<char>) -> (r: Option<u64>)
    ensures
        r == atomic_unsigned_spec(v@),
{
    proof {
        assert(v@.subrange(0, v@.len() as int) =~= v@);
    }
    parse_dec_bounded(v, 0, v.len(), u64::MAX)
}

#[verifier::loop_isolation(false)]
fn atomic_signed_chars(v: &Vec<char>) -> (r: Option<i64>)
    ensures
        r == parse_i64_spec(v@),
{
    let n = v.len();
    if n > 0 && v[0] == '-' {
        proof {
            assert(v@.subrange(1, n as int) =~= v@.drop_first());
        }
        match dec_digits_bounded(v, 1, n, 0x8000_0000_0000_0000u64) {
            Some(m) => {
                if m == 0x8000_0000_0000_0000u64 {
                    Some(i64::MIN)
                } else {
                    Some(-(m as i64))
                }
            },
            None => None,
        }
    } else if n > 0 && v[0] == '+' {
        proof {
            assert(v@.subrange(1, n as int) =~= v@.drop_first());
        }
        match dec_digits_bounded(v, 1, n, 0x7fff_ffff_ffff_ffffu64) {
            Some(m) => Some(m as i64),
            None => None,
        }
    } else {
        proof {
            assert(v@.subrange(0, n as int) =~= v@);
        }
        match dec_digits_bounded(v, 0, n, 0x7fff_ffff_ffff_ffffu64) {
            Some(m) => Some(m as i64),
            None => None,
        }
    }
}

fn atomic_integer_chars(v: &Vec<char>) -> (r: Option<i64>)
    ensures
        r == atomic_integer_spec(v@),
{
    let n = v.len();
    if n > 0 && v[0] == '\u{00af}' {
        let rest = sub_chars(v, 1, n);
        proof {
            assert(rest@ =~= v@.drop_first());
        }
        match atomic_signed_chars(&rest) {
            Some(x) => {
                if x == i64::MIN {
                    None
                } else {
                    Some(-x)
                }
            },
            None => None,
        }
    } else {
        atomic_signed_chars(v)
    }
}

fn atomic_float_chars(v: &Vec<char>) -> (r: Option<(bool, String)>)
    ensures
        match r {
            Some(p) => atomic_float_spec(v@) == Some((p.0, p.1@)),
            None => atomic_float_spec(v@) is None,
        },
{
    let n = v.len();
    if n > 0 && v[0] == '\u{00af}' {
        let rest = sub_chars(v, 1, n);
        proof {
            assert(rest@ =~= v@.drop_first());
        }
        if float_valid_chars(&rest) {
            Some((true, build_string(&rest, 0, rest.len())))
        } else {
            None
        }
    } else {
        if float_valid_chars(v) {
            Some((false, build_string(v, 0, n)))
        } else {
            None
        }
    }
}

// ---------------------------------------------------------------------------
// Exponentiated parsers: split on the first `E`, parse the base per the
// required kind and the exponent, and scale the base by the power of ten.
// ---------------------------------------------------------------------------

/// An unsigned base with an unsigned exponent: the value is
/// `base * 10^exponent`, defined exactly when the product fits in 64 bits.
pub open spec fn exp_unsigned_spec(s: Seq<char>) -> Option<u64> {
    let k = find_from(s, 0, 'E');
    if k == s.len() {
        atomic_unsigned_spec(s)
    } else {
        match atomic_unsigned_spec(s.subrange(0, k)) {
            Some(a) => match atomic_unsigned_spec(s.subrange(k + 1, s.len() as int)) {
                Some(b) => if a * pow10(b as nat) <= u64::MAX {
                    Some((a * pow10(b as nat)) as u64)
                } else {
                    None
                },
                None => None,
            },
            None => None,
        }
    }
}

/// A signed base with an unsigned exponent: the value is
/// `base * 10^exponent`, defined exactly when it fits in a signed 64-bit
/// value. The error names the segment that failed.
pub open spec fn exp_int_spec(s: Seq<char>) -> Result<i64, NumReason> {
    let k = find_from(s, 0, 'E');
    if k == s.len() {
        match atomic_integer_spec(s) {
            Some(a) => Ok(a),
            None => Err(NumReason::BadI64),
        }
    } else {
        match atomic_integer_spec(s.subrange(0, k)) {
            Some(a) => match atomic_unsigned_spec(s.subrange(k + 1, s.len() as int)) {
                Some(b) => if i64::MIN <= a * pow10(b as nat) <= i64::MAX {
                    Ok((a * pow10(b as nat)) as i64)
                } else {
                    Err(NumReason::BadI64)
                },
                None => Err(NumReason::BadU64),
            },
            None => Err(NumReason::BadI64),
        }
    }
}

/// A float base with a signed exponent: kept exactly as the sign, the
/// magnitude text and the exponent value. The error names the segment
/// that failed.
pub open spec fn exp_float_spec(s: Seq<char>) -> Result<FloatLitV, NumReason> {
    let k = find_from(s, 0, 'E');
    let base = if k == s.len() {
        s
    } else {
        s.subrange(0, k)
    };
    match atomic_float_spec(base) {
        Some(p) => {
            if k == s.len() {
                Ok(FloatLitV { negative: p.0, magnitude: p.1, exponent: 0 })
            } else {
                match atomic_integer_spec(s.subrange(k + 1, s.len() as int)) {
                    Some(e) => Ok(FloatLitV { negative: p.0, magnitude: p.1, exponent: e }),
                    None => Err(NumReason::BadI64),
                }
            }
        },
        None => if base.len() > 0 && base[0] == high_minus() {
            Err(NumReason::BadF64Neg)
        } else {
            Err(NumReason::BadF64)
        },
    }
}

fn exp_unsigned_chars(v: &Vec<char>) -> (r: Result<u64, BaseErr<'static>>)
    ensures
        match r {
            Ok(x) => exp_unsigned_spec(v@) == Some(x),
            Err(e) => exp_unsigned_spec(v@) is None && e@ == reason_text(NumReason::BadU64),
        },
{
    let n = v.len();
    let k = find_char(v, 'E');
    if k == n {
        match atomic_unsigned_chars(v) {
            Some(x) => Ok(x),
            None => Err(BaseErr::new("invalid u64 value")),
        }
    } else {
        let left = sub_chars(v, 0, k);
        let right = sub_chars(v, k + 1, n);
        let a = match atomic_unsigned_chars(&left) {
            Some(a) => a,
            None => {
                return Err(BaseErr::new("invalid u64 value"));
            },
        };
        let b = match atomic_unsigned_chars(&right) {
            Some(b) => b,
            None => {
                return Err(BaseErr::new("invalid u64 value"));
            },
        };
        match scale_pow10(a, b, u64::MAX) {
            Some(x) => Ok(x),
            None => Err(BaseErr::new("invalid u64 value")),
        }
    }
}

fn exp_int_chars(v: &Vec<char>) -> (r: Result<i64, BaseErr<'static>>)
    ensures
        match r {
            Ok(x) => exp_int_spec(v@) == Ok::<i64, NumReason>(x),
            Err(e) => exp_int_spec(v@) is Err && e@ == reason_text(exp_int_spec(v@)->Err_0),
        },
{
    let n = v.len();
    let k = find_char(v, 'E');
    if k == n {
        match atomic_integer_chars(v) {
            Some(x) => Ok(x),
            None => Err(BaseErr::new("invalid i64 value")),
        }
    } else {
        let left = sub_chars(v, 0, k);
        let right = sub_chars(v, k + 1, n);
        let a = match atomic_integer_chars(&left) {
            Some(a) => a,
            None => {
                return Err(BaseErr::new("invalid i64 value"));
            },
        };
        let b = match atomic_unsigned_chars(&right) {
            Some(b) => b,
            None => {
                return Err(BaseErr::new("invalid u64 value"));
            },
        };
        if a >= 0 {
            match scale_pow10(a as u64, b, 0x7fff_ffff_ffff_ffffu64) {
                Some(x) => Ok(x as i64),
                None => {
                    proof {
                        crate::digits::lemma_pow10_monotone(0, b as nat);
                        assert(a * pow10(b as nat) > i64::MAX) by (nonlinear_arith)
                            requires
                                (a as u64) * pow10(b as nat) > 0x7fff_ffff_ffff_ffff,
                                a >= 0,
                        ;
                    }
                    Err(BaseErr::new("invalid i64 value"))
                },
            }
        } else {
            let mag: u64 = if a == i64::MIN {
                0x8000_0000_0000_0000u64
            } else {
                (-a) as u64
            };
            proof {
                crate::digits::lemma_pow10_monotone(0, b as nat);
                assert(a * pow10(b as nat) == -((mag as int) * pow10(b as nat))) by (nonlinear_arith)
                    requires
                        a as int == -(mag as int),
                ;
            }
            match scale_pow10(mag, b, 0x8000_0000_0000_0000u64) {
                Some(x) => {
                    if x == 0x8000_0000_0000_0000u64 {
                        Ok(i64::MIN)
                    } else {
                        Ok(-(x as i64))
                    }
                },
                None => Err(BaseErr::new("invalid i64 value")),
            }
        }
    }
}

fn exp_float_chars(v: &Vec<char>) -> (r: Result<FloatLit, BaseErr<'static>>)
    ensures
        match r {
            Ok(f) => exp_float_spec(v@) == Ok::<FloatLitV, NumReason>(f@),
            Err(e) => exp_float_spec(v@) is Err && e@ == reason_text(exp_float_spec(v@)->Err_0),
        },
{
    let n = v.len();
    let k = find_char(v, 'E');
    if k == n {
        proof {
            assert(v@.subrange(0, n as int) =~= v@);
        }
        match atomic_float_chars(v) {
            Some(p) => Ok(FloatLit { negative: p.0, magnitude: p.1, exponent: 0 }),
            None => {
                if n > 0 && v[0] == '\u{00af}' {
                    Err(BaseErr::new("invalid f64 float value"))
                } else {
                    Err(BaseErr::new("invalid f64 value"))
                }
            },
        }
    } else {
        let left = sub_chars(v, 0, k);
        let right = sub_chars(v, k + 1, n);
        match atomic_float_chars(&left) {
            Some(p) => {
                match atomic_integer_chars(&right) {
                    Some(e) => Ok(FloatLit { negative: p.0, magnitude: p.1, exponent: e }),
                    None => Err(BaseErr::new("invalid i64 value")),
                }
            },
            None => {
                if k > 0 && v[0] == '\u{00af}' {
                    Err(BaseErr::new("invalid f64 float value"))
                } else {
                    Err(BaseErr::new("invalid f64 value"))
                }
            },
        }
    }
}

// ---------------------------------------------------------------------------
// Signature and volume extraction: the first signature letter ends the
// value text; what follows it is the volume, the declared bit width.
// ---------------------------------------------------------------------------

pub open spec fn is_signature_char(c: char) -> bool {
    c == 'b' || c == 'd' || c == 'h' || c == 'c' || c == 'f' || c == 'i' || c == 'u'
}

/// The index of the first signature letter at or after `i`, or the length
/// of the text when there is none.
pub open spec fn sig_find(s: Seq<char>, i: int) -> int
    decreases s.len() - i,
{
    if i < 0 || i >= s.len() {
        s.len() as int
    } else if is_signature_char(s[i]) {
        i
    } else {
        sig_find(s, i + 1)
    }
}

/// What the extraction found after the value text: no signature at all, a
/// bare signature letter, a signature with its volume, or volume digits
/// that failed to parse.
pub enum SigKind {
    Auto,
    Sig(char),
    SigVol(char, u8),
    BadVolume,
}

/// The value text of a literal and the signature and volume after it.
/// `b` ends the text at once with a bare boolean signature; `d`, `h` and
/// `c` carry fixed volumes; `f`, `i` and `u` take the whole remaining text
/// as volume digits, `f` defaulting to volume five when none follow.
pub open spec fn extract_spec(s: Seq<char>) -> (Seq<char>, SigKind) {
    let k = sig_find(s, 0);
    if k == s.len() {
        (s, SigKind::Auto)
    } else {
        let base = s.subrange(0, k);
        let c = s[k];
        if c == 'b' {
            (base, SigKind::Sig('b'))
        } else if c == 'd' {
            (base, SigKind::SigVol('f', 6))
        } else if c == 'h' {
            (base, SigKind::SigVol('f', 4))
        } else if c == 'c' {
            (base, SigKind::SigVol('c', 7))
        } else {
            if k + 1 == s.len() {
                if c == 'f' {
                    (base, SigKind::SigVol('f', 5))
                } else {
                    (base, SigKind::Sig(c))
                }
            } else {
                match parse_dec(s.subrange(k + 1, s.len() as int)) {
                    Some(n) => if n <= 255 {
                        (base, SigKind::SigVol(c, n as u8))
                    } else {
                        (base, SigKind::BadVolume)
                    },
                    None => (base, SigKind::BadVolume),
                }
            }
        }
    }
}

/// The extraction as the callers use it: the end of the value text in `v`,
/// and what was found after it.
#[verifier::loop_isolation(false)]
fn extract_chars(v: &Vec<char>) -> (r: (usize, SigKind))
    ensures
        extract_spec(v@) == (v@.subrange(0, r.0 as int), r.1),
        r.0 <= v@.len(),
{
    let n = v.len();
    let mut k: usize = 0;
    while k < n
        invariant
            k <= n,
            sig_find(v@, 0) == sig_find(v@, k as int),
        decreases n - k,
    {
        let c = v[k];
        let sig = match c {
            'b' | 'd' | 'h' | 'c' | 'f' | 'i' | 'u' => true,
            _ => false,
        };
        if sig {
            break;
        }
        k = k + 1;
    }
    if k == n {
        proof {
            assert(v@.subrange(0, n as int) =~= v@);
        }
        return (n, SigKind::Auto);
    }
    let c = v[k];
    if c == 'b' {
        (k, SigKind::Sig('b'))
    } else if c == 'd' {
        (k, SigKind::SigVol('f', 6))
    } else if c == 'h' {
        (k, SigKind::SigVol('f', 4))
    } else if c == 'c' {
        (k, SigKind::SigVol('c', 7))
    } else if k + 1 == n {
        if c == 'f' {
            (k, SigKind::SigVol('f', 5))
        } else {
            (k, SigKind::Sig(c))
        }
    } else {
        match parse_dec_bounded(v, k + 1, n, 255) {
            Some(x) => (k, SigKind::SigVol(c, x as u8)),
            None => (k, SigKind::BadVolume),
        }
    }
}

// ---------------------------------------------------------------------------
// The whole literal.
// ---------------------------------------------------------------------------

/// What a literal text denotes, or which of its segments fails. A `J`
/// splits a complex literal into two float halves; otherwise the signature
/// decides the kind, and no signature at all leaves an unannotated float.
pub open spec fn num_lit_spec(s: Seq<char>) -> Result<NumLitV, NumReason> {
    let j = find_from(s, 0, 'J');
    if j < s.len() {
        match exp_float_spec(s.subrange(0, j)) {
            Ok(re) => match exp_float_spec(s.subrange(j + 1, s.len() as int)) {
                Ok(im) => Ok(NumLitV::Complex(re, im)),
                Err(k) => Err(k),
            },
            Err(k) => Err(k),
        }
    } else {
        let base = extract_spec(s).0;
        match extract_spec(s).1 {
            SigKind::Auto => match exp_float_spec(base) {
                Ok(f) => Ok(NumLitV::Auto(f)),
                Err(k) => Err(k),
            },
            SigKind::Sig(c) => if c == 'u' {
                match exp_unsigned_spec(base) {
                    Some(x) => Ok(NumLitV::SysUint(x)),
                    None => Err(NumReason::BadU64),
                }
            } else if c == 'i' {
                match exp_int_spec(base) {
                    Ok(x) => Ok(NumLitV::SysInt(x)),
                    Err(k) => Err(k),
                }
            } else if c == 'b' {
                Ok(NumLitV::Boolean(!(base == seq!['0'])))
            } else {
                Err(NumReason::Unimplemented)
            },
            SigKind::SigVol(c, vol) => if c == 'u' {
                match exp_unsigned_spec(base) {
                    Some(x) => Ok(NumLitV::Uint(vol, x)),
                    None => Err(NumReason::BadU64),
                }
            } else if c == 'i' {
                match exp_int_spec(base) {
                    Ok(x) => Ok(NumLitV::Int(vol, x)),
                    Err(k) => Err(k),
                }
            } else if c == 'f' {
                match exp_float_spec(base) {
                    Ok(f) => Ok(NumLitV::Float(vol, f)),
                    Err(k) => Err(k),
                }
            } else {
                Err(NumReason::Unimplemented)
            },
            SigKind::BadVolume => Err(NumReason::BadVolume),
        }
    }
}

/// Parses the literal text in `v`: the worker behind `from_str` and the
/// tokenizer's numeral mode.
pub fn num_lit_from_chars(v: &Vec<char>) -> (r: Result<NumericLiteral, BaseErr<'static>>)
    ensures
        match r {
            Ok(lit) => num_lit_spec(v@) == Ok::<NumLitV, NumReason>(lit@),
            Err(e) => num_lit_spec(v@) is Err && e@ == reason_text(num_lit_spec(v@)->Err_0),
        },
{
    let n = v.len();
    let j = find_char(v, 'J');
    if j < n {
        let left = sub_chars(v, 0, j);
        let right = sub_chars(v, j + 1, n);
        let re = match exp_float_chars(&left) {
            Ok(f) => f,
            Err(e) => {
                return Err(e);
            },
        };
        match exp_float_chars(&right) {
            Ok(im) => Ok(NumericLiteral::Complex(re, im)),
            Err(e) => Err(e),
        }
    } else {
        let (bend, kind) = extract_chars(v);
        let base = sub_chars(v, 0, bend);
        match kind {
            SigKind::Auto => match exp_float_chars(&base) {
                Ok(f) => Ok(NumericLiteral::Auto(f)),
                Err(e) => Err(e),
            },
            SigKind::Sig(c) => {
                if c == 'u' {
                    match exp_unsigned_chars(&base) {
                        Ok(x) => Ok(NumericLiteral::SysUint(x)),
                        Err(e) => Err(e),
                    }
                } else if c == 'i' {
                    match exp_int_chars(&base) {
                        Ok(x) => Ok(NumericLiteral::SysInt(x)),
                        Err(e) => Err(e),
                    }
                } else if c == 'b' {
                    let truth = !(bend == 1 && v[0] == '0');
                    proof {
                        if bend == 1 && v@[0] == '0' {
                            assert(base@ =~= seq!['0']);
                        } else {
                            if base@ == seq!['0'] {
                                assert(base@.len() == 1);
                                assert(base@[0] == v@[0]);
                            }
                        }
                    }
                    Ok(NumericLiteral::Boolean(truth))
                } else {
                    Err(BaseErr::new("unimplemented literal kind"))
                }
            },
            SigKind::SigVol(c, vol) => {
                if c == 'u' {
                    match exp_unsigned_chars(&base) {
                        Ok(x) => Ok(NumericLiteral::Uint(vol, x)),
                        Err(e) => Err(e),
                    }
                } else if c == 'i' {
                    match exp_int_chars(&base) {
                        Ok(x) => Ok(NumericLiteral::Int(vol, x)),
                        Err(e) => Err(e),
                    }
                } else if c == 'f' {
                    match exp_float_chars(&base) {
                        Ok(f) => Ok(NumericLiteral::Float(vol, f)),
                        Err(e) => Err(e),
                    }
                } else {
                    Err(BaseErr::new("unimplemented literal kind"))
                }
            },
            SigKind::BadVolume => Err(BaseErr::new("Failed to parse volume")),
        }
    }
}

// ---------------------------------------------------------------------------
// The public face: string-based parsers mirroring the internal workers,
// and rendering back to numeral text.
// ---------------------------------------------------------------------------

/// What the extraction hands a caller: no signature, a bare signature, a
/// signature with its volume, or the failure to parse the volume digits.
pub enum ExtractSignatureAndVolumeResult {
    Auto,
    Signature(char),
    SignatureAndVolume(char, u8),
    Invalid(BaseErr<'static>),
}

/// Splits a literal text into its value text and its signature and volume.
pub fn extract_signature_and_volume_and_base(s: &str) -> (r: (
    String,
    ExtractSignatureAndVolumeResult,
))
    ensures
        r.0@ == extract_spec(s@).0,
        match r.1 {
            ExtractSignatureAndVolumeResult::Auto => extract_spec(s@).1 == SigKind::Auto,
            ExtractSignatureAndVolumeResult::Signature(c) => extract_spec(s@).1 == SigKind::Sig(c),
            ExtractSignatureAndVolumeResult::SignatureAndVolume(c, v) => extract_spec(s@).1
                == SigKind::SigVol(c, v),
            ExtractSignatureAndVolumeResult::Invalid(e) => extract_spec(s@).1 == SigKind::BadVolume
                && e@ == reason_text(NumReason::BadVolume),
        },
{
    let v = to_chars(s);
    let (bend, kind) = extract_chars(&v);
    let base = build_string(&v, 0, bend);
    let out = match kind {
        SigKind::Auto => ExtractSignatureAndVolumeResult::Auto,
        SigKind::Sig(c) => ExtractSignatureAndVolumeResult::Signature(c),
        SigKind::SigVol(c, vol) => ExtractSignatureAndVolumeResult::SignatureAndVolume(c, vol),
        SigKind::BadVolume => ExtractSignatureAndVolumeResult::Invalid(
            BaseErr::new("Failed to parse volume"),
        ),
    };
    (base, out)
}

/// Parses an unsigned magnitude, a leading plus sign allowed, as the
/// standard library's `u64` parser takes it.
pub fn parse_atomic_unsigned(s: &str) -> (r: Result<u64, BaseErr<'static>>)
    ensures
        match r {
            Ok(x) => atomic_unsigned_spec(s@) == Some(x),
            Err(e) => atomic_unsigned_spec(s@) is None && e@ == reason_text(NumReason::BadU64),
        },
{
    let v = to_chars(s);
    match atomic_unsigned_chars(&v) {
        Some(x) => Ok(x),
        None => Err(BaseErr::new("invalid u64 value")),
    }
}

/// Parses a signed magnitude: a leading high-minus negates the decimal
/// text after it; otherwise an ASCII sign is allowed.
pub fn parse_atomic_integer(s: &str) -> (r: Result<i64, BaseErr<'static>>)
    ensures
        match r {
            Ok(x) => atomic_integer_spec(s@) == Some(x),
            Err(e) => atomic_integer_spec(s@) is None && e@ == reason_text(NumReason::BadI64),
        },
{
    let v = to_chars(s);
    match atomic_integer_chars(&v) {
        Some(x) => Ok(x),
        None => Err(BaseErr::new("invalid i64 value")),
    }
}

/// Parses a float magnitude: a leading high-minus negates the float text
/// after it. The result is the sign and the magnitude text, exactly.
pub fn parse_atomic_floating_point(s: &str) -> (r: Result<(bool, String), BaseErr<'static>>)
    ensures
        match r {
            Ok(p) => atomic_float_spec(s@) == Some((p.0, p.1@)),
            Err(e) => atomic_float_spec(s@) is None && e@ == reason_text(
                if s@.len() > 0 && s@[0] == high_minus() {
                    NumReason::BadF64Neg
                } else {
                    NumReason::BadF64
                },
            ),
        },
{
    let v = to_chars(s);
    let neg = v.len() > 0 && v[0] == '\u{00af}';
    match atomic_float_chars(&v) {
        Some(p) => Ok(p),
        None => {
            if neg {
                Err(BaseErr::new("invalid f64 float value"))
            } else {
                Err(BaseErr::new("invalid f64 value"))
            }
        },
    }
}

/// Parses an unsigned base with an unsigned exponent: `base * 10^exponent`
/// exactly when the product fits in 64 bits.
pub fn parse_exponentiated_unsigned(s: &str) -> (r: Result<u64, BaseErr<'static>>)
    ensures
        match r {
            Ok(x) => exp_unsigned_spec(s@) == Some(x),
            Err(e) => exp_unsigned_spec(s@) is None && e@ == reason_text(NumReason::BadU64),
        },
{
    let v = to_chars(s);
    exp_unsigned_chars(&v)
}

/// Parses a signed base with an unsigned exponent: `base * 10^exponent`
/// exactly when it fits in a signed 64-bit value.
pub fn parse_exponentiated_int(s: &str) -> (r: Result<i64, BaseErr<'static>>)
    ensures
        match r {
            Ok(x) => exp_int_spec(s@) == Ok::<i64, NumReason>(x),
            Err(e) => exp_int_spec(s@) is Err && e@ == reason_text(exp_int_spec(s@)->Err_0),
        },
{
    let v = to_chars(s);
    exp_int_chars(&v)
}

/// Parses a float base with a signed exponent, kept exactly as sign,
/// magnitude text and exponent.
pub fn parse_exponentiated_float(s: &str) -> (r: Result<FloatLit, BaseErr<'static>>)
    ensures
        match r {
            Ok(f) => exp_float_spec(s@) == Ok::<FloatLitV, NumReason>(f@),
            Err(e) => exp_float_spec(s@) is Err && e@ == reason_text(exp_float_spec(s@)->Err_0),
        },
{
    let v = to_chars(s);
    exp_float_chars(&v)
}

impl NumericLiteral {
    /// Parses a whole literal text. The result is a function of the text
    /// alone: parsing is deterministic, and total over all inputs — every
    /// text yields either a literal or the failure naming the segment
    /// that broke.
    pub fn from_text(s: &str) -> (r: Result<NumericLiteral, BaseErr<'static>>)
        ensures
            match r {
                Ok(lit) => num_lit_spec(s@) == Ok::<NumLitV, NumReason>(lit@),
                Err(e) => num_lit_spec(s@) is Err && e@ == reason_text(num_lit_spec(s@)->Err_0),
            },
    {
        let v = to_chars(s);
        num_lit_from_chars(&v)
    }
}

impl core::str::FromStr for NumericLiteral {
    type Err = BaseErr<'static>;

    fn from_str(s: &str) -> Result<NumericLiteral, BaseErr<'static>> {
        NumericLiteral::from_text(s)
    }
}

/// The numeral text of a float literal: the sign, the magnitude, and the
/// exponent under its marker when one was declared.
pub open spec fn float_lit_text(f: FloatLitV) -> Seq<char> {
    let sign: Seq<char> = if f.negative {
        seq![high_minus()]
    } else {
        Seq::empty()
    };
    let exp: Seq<char> = if f.exponent != 0 {
        seq!['E'] + int_text(f.exponent as int)
    } else {
        Seq::empty()
    };
    sign + f.magnitude + exp
}

/// The numeral text of a literal: the value, then the signature letter,
/// then the volume digits of the sized kinds.
pub open spec fn num_text(n: NumLitV) -> Seq<char> {
    match n {
        NumLitV::Complex(a, b) => float_lit_text(a) + seq!['J'] + float_lit_text(b),
        NumLitV::Float(v, f) => float_lit_text(f) + seq!['f'] + dec_text(v as nat),
        NumLitV::SysUint(x) => dec_text(x as nat) + seq!['u'],
        NumLitV::Uint(v, x) => dec_text(x as nat) + seq!['u'] + dec_text(v as nat),
        NumLitV::SysInt(x) => int_text(x as int) + seq!['i'],
        NumLitV::Int(v, x) => int_text(x as int) + seq!['i'] + dec_text(v as nat),
        NumLitV::Auto(f) => float_lit_text(f),
        NumLitV::Boolean(b) => if b {
            seq!['1', 'b']
        } else {
            seq!['0', 'b']
        },
    }
}

fn push_float_text(f: &FloatLit, out: &mut Vec<char>)
    ensures
        final(out)@ == old(out)@ + float_lit_text(f@),
{
    if f.negative {
        out.push('\u{00af}');
    }
    let mut mag = to_chars(f.magnitude.as_str());
    out.append(&mut mag);
    if f.exponent != 0 {
        out.push('E');
        push_int_text(f.exponent, out);
    }
    assert(out@ =~= old(out)@ + float_lit_text(f@));
}

proof fn lemma_find_from_past(s: Seq<char>, c: char, i: int, k: int)
    requires
        0 <= i <= k <= s.len(),
        forall|x: int| i <= x < k ==> s[x] != c,
        k < s.len() ==> s[k] == c,
    ensures
        find_from(s, i, c) == if k < s.len() {
            k
        } else {
            s.len() as int
        },
    decreases k - i,
{
    if i < k {
        lemma_find_from_past(s, c, i + 1, k);
    }
}

proof fn lemma_sig_find_past(s: Seq<char>, i: int, k: int)
    requires
        0 <= i <= k <= s.len(),
        forall|x: int| i <= x < k ==> !is_signature_char(#[trigger] s[x]),
        k < s.len() ==> is_signature_char(s[k]),
    ensures
        sig_find(s, i) == if k < s.len() {
            k
        } else {
            s.len() as int
        },
    decreases k - i,
{
    if i < k {
        lemma_sig_find_past(s, i + 1, k);
    }
}

proof fn lemma_digit_not_special(c: char)
    requires
        is_dec_digit(c),
    ensures
        !is_signature_char(c),
        c != 'J' && c != 'E' && c != '+' && c != '-' && c != high_minus(),
{
}

proof fn lemma_parse_dec_text(x: nat)
    ensures
        parse_dec(dec_text(x)) == Some(x),
        dec_text(x).len() >= 1,
        all_digits(dec_text(x)),
{
    crate::digits::lemma_dec_text_digits(x);
    crate::digits::lemma_dec_val_dec_text(x);
    lemma_digit_not_special(dec_text(x)[0]);
}

proof fn lemma_exp_unsigned_dec_text(x: u64)
    ensures
        exp_unsigned_spec(dec_text(x as nat)) == Some(x),
{
    let s = dec_text(x as nat);
    lemma_parse_dec_text(x as nat);
    assert forall|i: int| 0 <= i < s.len() implies s[i] != 'E' by {
        lemma_digit_not_special(s[i]);
    }
    lemma_find_from_past(s, 'E', 0, s.len() as int);
}

proof fn lemma_exp_int_int_text(n: i64)
    requires
        n > i64::MIN,
    ensures
        exp_int_spec(int_text(n as int)) == Ok::<i64, NumReason>(n),
{
    let s = int_text(n as int);
    if n >= 0 {
        lemma_parse_dec_text(n as nat);
        assert forall|i: int| 0 <= i < s.len() implies s[i] != 'E' by {
            lemma_digit_not_special(s[i]);
        }
        lemma_find_from_past(s, 'E', 0, s.len() as int);
        lemma_digit_not_special(s[0]);
        assert(parse_i64_spec(s) == Some(n));
    } else {
        let mag = (-n) as nat;
        let dt = dec_text(mag);
        lemma_parse_dec_text(mag);
        assert forall|i: int| 0 <= i < s.len() implies s[i] != 'E' by {
            if i > 0 {
                assert(s[i] == dt[i - 1]);
                lemma_digit_not_special(s[i]);
            }
        }
        lemma_find_from_past(s, 'E', 0, s.len() as int);
        assert(s[0] == high_minus());
        assert(s.drop_first() =~= dt);
        lemma_digit_not_special(dt[0]);
        assert(parse_i64_spec(dt) == Some((-n) as i64));
        assert(atomic_integer_spec(s) == Some(n));
    }
}

proof fn lemma_round_trip_sysuint(x: u64)
    ensures
        num_lit_spec(num_text(NumLitV::SysUint(x))) == Ok::<NumLitV, NumReason>(
            NumLitV::SysUint(x),
        ),
{
    let v = NumLitV::SysUint(x);
    let s = num_text(v);
    let bt = dec_text(x as nat);
            lemma_parse_dec_text(x as nat);
            assert forall|i: int| 0 <= i < s.len() implies s[i] != 'J' by {
                if i < bt.len() {
                    assert(s[i] == bt[i]);
                    lemma_digit_not_special(s[i]);
                }
            }
            lemma_find_from_past(s, 'J', 0, s.len() as int);
            assert forall|i: int| 0 <= i < bt.len() implies !is_signature_char(#[trigger] s[i]) by {
                assert(s[i] == bt[i]);
                lemma_digit_not_special(s[i]);
            }
            assert(s[bt.len() as int] == 'u');
            lemma_sig_find_past(s, 0, bt.len() as int);
            assert(s.subrange(0, bt.len() as int) =~= bt);
            assert(bt.len() + 1 == s.len());
            lemma_exp_unsigned_dec_text(x);
}

proof fn lemma_round_trip_uint(vol: u8, x: u64)
    ensures
        num_lit_spec(num_text(NumLitV::Uint(vol, x))) == Ok::<NumLitV, NumReason>(
            NumLitV::Uint(vol, x),
        ),
{
    let v = NumLitV::Uint(vol, x);
    let s = num_text(v);
    let bt = dec_text(x as nat);
            let vt = dec_text(vol as nat);
            lemma_parse_dec_text(x as nat);
            lemma_parse_dec_text(vol as nat);
            assert forall|i: int| 0 <= i < s.len() implies s[i] != 'J' by {
                if i < bt.len() {
                    assert(s[i] == bt[i]);
                    lemma_digit_not_special(s[i]);
                } else if i > bt.len() {
                    assert(s[i] == vt[i - bt.len() - 1]);
                    lemma_digit_not_special(s[i]);
                }
            }
            lemma_find_from_past(s, 'J', 0, s.len() as int);
            assert forall|i: int| 0 <= i < bt.len() implies !is_signature_char(#[trigger] s[i]) by {
                assert(s[i] == bt[i]);
                lemma_digit_not_special(s[i]);
            }
            assert(s[bt.len() as int] == 'u');
            lemma_sig_find_past(s, 0, bt.len() as int);
            assert(s.subrange(0, bt.len() as int) =~= bt);
            assert(s.subrange(bt.len() as int + 1, s.len() as int) =~= vt);
            lemma_exp_unsigned_dec_text(x);
}

proof fn lemma_round_trip_sysint(n: i64)
    requires
        n > i64::MIN,
    ensures
        num_lit_spec(num_text(NumLitV::SysInt(n))) == Ok::<NumLitV, NumReason>(
            NumLitV::SysInt(n),
        ),
{
    let v = NumLitV::SysInt(n);
    let s = num_text(v);
    let bt = int_text(n as int);
            assert forall|i: int| 0 <= i < s.len() implies s[i] != 'J' && (i < bt.len()
                ==> !is_signature_char(#[trigger] s[i])) by {
                if i < bt.len() {
                    assert(s[i] == bt[i]);
                    if n >= 0 {
                        crate::digits::lemma_dec_text_digits(n as nat);
                        lemma_digit_not_special(bt[i]);
                    } else {
                        crate::digits::lemma_dec_text_digits((-n) as nat);
                        if i > 0 {
                            assert(bt[i] == dec_text((-n) as nat)[i - 1]);
                            lemma_digit_not_special(bt[i]);
                        }
                    }
                }
            }
            lemma_find_from_past(s, 'J', 0, s.len() as int);
            assert(s[bt.len() as int] == 'i');
            lemma_sig_find_past(s, 0, bt.len() as int);
            assert(s.subrange(0, bt.len() as int) =~= bt);
            assert(bt.len() + 1 == s.len());
            lemma_exp_int_int_text(n);
}

proof fn lemma_round_trip_int(vol: u8, n: i64)
    requires
        n > i64::MIN,
    ensures
        num_lit_spec(num_text(NumLitV::Int(vol, n))) == Ok::<NumLitV, NumReason>(
            NumLitV::Int(vol, n),
        ),
{
    let v = NumLitV::Int(vol, n);
    let s = num_text(v);
    let bt = int_text(n as int);
            let vt = dec_text(vol as nat);
            lemma_parse_dec_text(vol as nat);
            assert forall|i: int| 0 <= i < s.len() implies s[i] != 'J' && (i < bt.len()
                ==> !is_signature_char(#[trigger] s[i])) by {
                if i < bt.len() {
                    assert(s[i] == bt[i]);
                    if n >= 0 {
                        crate::digits::lemma_dec_text_digits(n as nat);
                        lemma_digit_not_special(bt[i]);
                    } else {
                        crate::digits::lemma_dec_text_digits((-n) as nat);
                        if i > 0 {
                            assert(bt[i] == dec_text((-n) as nat)[i - 1]);
                            lemma_digit_not_special(bt[i]);
                        }
                    }
                } else if i > bt.len() {
                    assert(s[i] == vt[i - bt.len() - 1]);
                    lemma_digit_not_special(s[i]);
                }
            }
            lemma_find_from_past(s, 'J', 0, s.len() as int);
            assert(s[bt.len() as int] == 'i');
            lemma_sig_find_past(s, 0, bt.len() as int);
            assert(s.subrange(0, bt.len() as int) =~= bt);
            assert(s.subrange(bt.len() as int + 1, s.len() as int) =~= vt);
            lemma_exp_int_int_text(n);
}

#[verifier::rlimit(100)]
#[verifier::spinoff_prover]
proof fn lemma_round_trip_boolean(b: bool)
    ensures
        num_lit_spec(num_text(NumLitV::Boolean(b))) == Ok::<NumLitV, NumReason>(
            NumLitV::Boolean(b),
        ),
{
    let v = NumLitV::Boolean(b);
    let s = num_text(v);
    assert(s.len() == 2);
            assert(s[1] == 'b');
            assert(s[0] != 'J' && s[1] != 'J');
            lemma_find_from_past(s, 'J', 0, 2);
            assert(!is_signature_char(s[0]));
            lemma_sig_find_past(s, 0, 1);
            if b {
                assert(s.subrange(0, 1) =~= seq!['1']);
                assert(s.subrange(0, 1) != seq!['0']) by {
                    assert(s.subrange(0, 1)[0] == '1');
                }
            } else {
                assert(s.subrange(0, 1) =~= seq!['0']);
            }
}

/// Law: rendering an integer-valued or boolean literal back to numeral
/// text and parsing that text again returns the very same literal: on
/// these kinds the rendering loses nothing. The one signed value whose
/// magnitude has no positive counterpart is excluded: its high-minus
/// rendering has no parseable magnitude.
pub proof fn lemma_integer_literal_round_trip(v: NumLitV)
    requires
        v is SysUint || v is Uint || v is SysInt || v is Int || v is Boolean,
        v is SysInt ==> v->SysInt_0 > i64::MIN,
        v is Int ==> v->Int_1 > i64::MIN,
    ensures
        num_lit_spec(num_text(v)) == Ok::<NumLitV, NumReason>(v),
{
    match v {
        NumLitV::SysUint(x) => lemma_round_trip_sysuint(x),
        NumLitV::Uint(vol, x) => lemma_round_trip_uint(vol, x),
        NumLitV::SysInt(n) => lemma_round_trip_sysint(n),
        NumLitV::Int(vol, n) => lemma_round_trip_int(vol, n),
        NumLitV::Boolean(b) => lemma_round_trip_boolean(b),
        _ => {},
    }
}

impl NumericLiteral {
    /// Appends this literal's numeral text.
    pub fn push_text(&self, out: &mut Vec<char>)
        ensures
            final(out)@ == old(out)@ + num_text(self@),
    {
        match self {
            NumericLiteral::Complex(a, b) => {
                push_float_text(a, out);
                out.push('J');
                push_float_text(b, out);
            },
            NumericLiteral::Float(v, f) => {
                push_float_text(f, out);
                out.push('f');
                push_dec_text(*v as u64, out);
            },
            NumericLiteral::SysUint(x) => {
                push_dec_text(*x, out);
                out.push('u');
            },
            NumericLiteral::Uint(v, x) => {
                push_dec_text(*x, out);
                out.push('u');
                push_dec_text(*v as u64, out);
            },
            NumericLiteral::SysInt(x) => {
                push_int_text(*x, out);
                out.push('i');
            },
            NumericLiteral::Int(v, x) => {
                push_int_text(*x, out);
                out.push('i');
                push_dec_text(*v as u64, out);
            },
            NumericLiteral::Auto(f) => {
                push_float_text(f, out);
            },
            NumericLiteral::Boolean(b) => {
                if *b {
                    out.push('1');
                } else {
                    out.push('0');
                }
                out.push('b');
            },
        }
        assert(out@ =~= old(out)@ + num_text(self@));
    }

    /// This literal's numeral text as a string.
    pub fn to_text(&self) -> (r: String)
        ensures
            r@ == num_text(self@),
    {
        let mut v: Vec<char> = Vec::new();
        self.push_text(&mut v);
        let n = v.len();
        proof {
            assert(v@.subrange(0, n as int) =~= v@);
        }
        build_string(&v, 0, n)
    }
}

} // verus!
