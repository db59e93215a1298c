//! Decimal numeral text: the value of a digit string, bounded parsing of
//! decimal text, powers of ten, and rendering of unsigned and signed values
//! back to numeral text.

use vstd::arithmetic::power::{lemma_pow0, lemma_pow1, lemma_pow_adds, lemma_pow_positive, lemma_pow_strictly_increases, pow};
use vstd::prelude::*;

verus! {

/// The high-minus glyph: the dedicated negation sign used only inside
/// numeral literals, distinct from the subtraction operator.
pub open spec fn high_minus() -> char {
    '\u{00af}'
}

pub open spec fn is_dec_digit(c: char) -> bool {
    c == '0' || c == '1' || c == '2' || c == '3' || c == '4' || c == '5' || c == '6' || c == '7'
        || c == '8' || c == '9'
}

pub open spec fn digit_val(c: char) -> nat {
    if c == '0' {
        0
    } else if c == '1' {
        1
    } else if c == '2' {
        2
    } else if c == '3' {
        3
    } else if c == '4' {
        4
    } else if c == '5' {
        5
    } else if c == '6' {
        6
    } else if c == '7' {
        7
    } else if c == '8' {
        8
    } else {
        9
    }
}

pub open spec fn digit_char(d: nat) -> char {
    if d == 0 {
        '0'
    } else if d == 1 {
        '1'
    } else if d == 2 {
        '2'
    } else if d == 3 {
        '3'
    } else if d == 4 {
        '4'
    } else if d == 5 {
        '5'
    } else if d == 6 {
        '6'
    } else if d == 7 {
        '7'
    } else if d == 8 {
        '8'
    } else {
        '9'
    }
}

pub open spec fn all_digits(s: Seq<char>) -> bool {
    forall|i: int| 0 <= i < s.len() ==> is_dec_digit(#[trigger] s[i])
}

/// The value of a digit string read left to right in base ten.
pub open spec fn dec_val(s: Seq<char>) -> nat
    decreases s.len(),
{
    if s.len() == 0 {
        0
    } else {
        dec_val(s.drop_last()) * 10 + digit_val(s.last())
    }
}

pub open spec fn pow10(e: nat) -> int {
    pow(10, e)
}

/// Decimal text as accepted by the standard library's unsigned parsers: an
/// optional leading plus sign, then at least one digit.
pub open spec fn parse_dec(s: Seq<char>) -> Option<nat> {
    let t = if s.len() > 0 && s[0] == '+' {
        s.drop_first()
    } else {
        s
    };
    if t.len() > 0 && all_digits(t) {
        Some(dec_val(t))
    } else {
        None
    }
}

/// The canonical digit text of an unsigned value, most significant digit
/// first, no sign and no leading zero.
pub open spec fn dec_text(n: nat) -> Seq<char>
    decreases n,
{
    if n < 10 {
        seq![digit_char(n)]
    } else {
        dec_text(n / 10).push(digit_char(n % 10))
    }
}

/// The numeral text of a signed value: a high-minus before the digit text
/// of the magnitude when the value is negative.
pub open spec fn int_text(n: int) -> Seq<char> {
    if n < 0 {
        seq![high_minus()] + dec_text((-n) as nat)
    } else {
        dec_text(n as nat)
    }
}

pub proof fn lemma_dec_val_take_succ(s: Seq<char>, i: int)
    requires
        0 <= i < s.len(),
    ensures
        dec_val(s.take(i + 1)) == dec_val(s.take(i)) * 10 + digit_val(s[i]),
{
    assert(s.take(i + 1).drop_last() =~= s.take(i));
    assert(s.take(i + 1).last() == s[i]);
}

pub proof fn lemma_dec_val_grows(s: Seq<char>, i: int)
    requires
        0 <= i < s.len(),
    ensures
        dec_val(s.take(i)) <= dec_val(s.take(i + 1)),
{
    lemma_dec_val_take_succ(s, i);
    let v = dec_val(s.take(i));
    assert(v <= v * 10) by (nonlinear_arith);
}

/// Once the value of a digit prefix exceeds a bound, the value of the whole
/// string exceeds it too.
pub proof fn lemma_dec_val_prefix_le(s: Seq<char>, i: int)
    requires
        0 <= i <= s.len(),
    ensures
        dec_val(s.take(i)) <= dec_val(s),
    decreases s.len() - i,
{
    if i == s.len() {
        assert(s.take(i) =~= s);
    } else {
        lemma_dec_val_grows(s, i);
        lemma_dec_val_prefix_le(s, i + 1);
    }
}

/// The canonical digit text of a value is non-empty and all digits.
pub proof fn lemma_dec_text_digits(n: nat)
    ensures
        dec_text(n).len() >= 1,
        all_digits(dec_text(n)),
    decreases n,
{
    if n < 10 {
        assert(is_dec_digit(dec_text(n)[0]));
    } else {
        assert(n / 10 < n) by (nonlinear_arith)
            requires
                n >= 10,
        ;
        lemma_dec_text_digits(n / 10);
        assert forall|i: int| 0 <= i < dec_text(n).len() implies is_dec_digit(
            #[trigger] dec_text(n)[i],
        ) by {
            if i < dec_text(n).len() - 1 {
                assert(dec_text(n)[i] == dec_text(n / 10)[i]);
            } else {
                assert(dec_text(n)[i] == digit_char(n % 10));
            }
        }
    }
}

proof fn lemma_digit_roundtrip(d: nat)
    requires
        d < 10,
    ensures
        digit_val(digit_char(d)) == d,
{
}

/// Reading the canonical digit text of a value back gives the value.
pub proof fn lemma_dec_val_dec_text(n: nat)
    ensures
        dec_val(dec_text(n)) == n,
    decreases n,
{
    if n < 10 {
        lemma_digit_roundtrip(n);
        assert(dec_val(Seq::<char>::empty()) == 0);
        assert(dec_text(n).drop_last() =~= Seq::<char>::empty());
        assert(dec_text(n).last() == digit_char(n));
    } else {
        assert(n / 10 < n && n % 10 < 10) by (nonlinear_arith)
            requires
                n >= 10,
        ;
        lemma_digit_roundtrip(n % 10);
        lemma_dec_val_dec_text(n / 10);
        assert(dec_text(n).drop_last() =~= dec_text(n / 10));
        assert(dec_text(n).last() == digit_char(n % 10));
        vstd::arithmetic::div_mod::lemma_fundamental_div_mod(n as int, 10);
        assert(dec_val(dec_text(n)) == (n / 10) * 10 + n % 10);
    }
}

/// The value of a digit, as an executable step: `None` for a non-digit.
pub fn digit_value(c: char) -> (r: Option<u64>)
    ensures
        r is Some <==> is_dec_digit(c),
        r is Some ==> r->0 == digit_val(c),
{
    match c {
        '0' => Some(0),
        '1' => Some(1),
        '2' => Some(2),
        '3' => Some(3),
        '4' => Some(4),
        '5' => Some(5),
        '6' => Some(6),
        '7' => Some(7),
        '8' => Some(8),
        '9' => Some(9),
        _ => None,
    }
}

/// Parses the pure digit text in `v[lo..hi]` against an inclusive bound:
/// `Some` exactly when the span is one or more digits whose value fits.
#[verifier::loop_isolation(false)]
pub fn dec_digits_bounded(v: &Vec<char>, lo: usize, hi: usize, limit: u64) -> (r: Option<u64>)
    requires
        lo <= hi <= v@.len(),
    ensures
        ({
            let t = v@.subrange(lo as int, hi as int);
            match r {
                Some(x) => t.len() > 0 && all_digits(t) && dec_val(t) == x && x <= limit,
                None => !(t.len() > 0 && all_digits(t) && dec_val(t) <= limit),
            }
        }),
{
    let ghost t = v@.subrange(lo as int, hi as int);
    if lo == hi {
        return None;
    }
    let mut acc: u64 = 0;
    let mut i: usize = lo;
    while i < hi
        invariant
            lo <= i <= hi,
            all_digits(t.take(i - lo)),
            acc == dec_val(t.take(i - lo)),
            acc <= limit,
        decreases hi - i,
    {
        assert(t[i - lo] == v@[i as int]);
        let d = match digit_value(v[i]) {
            Some(d) => d,
            None => {
                assert(!is_dec_digit(t[i - lo]));
                return None;
            },
        };
        proof {
            lemma_dec_val_take_succ(t, i - lo);
        }
        let next = match acc.checked_mul(10) {
            Some(m) => m.checked_add(d),
            None => None,
        };
        match next {
            Some(n) => {
                if n <= limit {
                    acc = n;
                } else {
                    proof {
                        lemma_dec_val_prefix_le(t, i - lo + 1);
                    }
                    return None;
                }
            },
            None => {
                proof {
                    lemma_dec_val_prefix_le(t, i - lo + 1);
                }
                return None;
            },
        }
        i = i + 1;
    }
    proof {
        assert(t.take(hi - lo) =~= t);
    }
    Some(acc)
}

/// Parses the decimal text in `v[lo..hi]`, an optional leading plus sign
/// included, against an inclusive bound: `Some` exactly when the text is
/// well formed and its value fits.
pub fn parse_dec_bounded(v: &Vec<char>, lo: usize, hi: usize, limit: u64) -> (r: Option<u64>)
    requires
        lo <= hi <= v@.len(),
    ensures
        ({
            let p = parse_dec(v@.subrange(lo as int, hi as int));
            match r {
                Some(x) => p == Some(x as nat) && x <= limit,
                None => p is None || p->0 > limit,
            }
        }),
{
    let ghost s = v@.subrange(lo as int, hi as int);
    let start: usize = if lo < hi && v[lo] == '+' {
        lo + 1
    } else {
        lo
    };
    proof {
        if s.len() > 0 && s[0] == '+' {
            assert(v@.subrange(start as int, hi as int) =~= s.drop_first());
        } else {
            assert(v@.subrange(start as int, hi as int) =~= s);
        }
    }
    dec_digits_bounded(v, start, hi, limit)
}

pub proof fn lemma_pow10_monotone(a: nat, b: nat)
    requires
        a <= b,
    ensures
        0 < pow10(a) <= pow10(b),
{
    lemma_pow_positive(10, a);
    if a < b {
        lemma_pow_strictly_increases(10, a, b);
    }
}

/// Scales `a` by the `b`-th power of ten under an inclusive bound:
/// `Some` exactly when the mathematical product fits.
pub fn scale_pow10(a: u64, b: u64, limit: u64) -> (r: Option<u64>)
    ensures
        ({
            let full = a * pow10(b as nat);
            match r {
                Some(x) => x == full && full <= limit,
                None => full > limit,
            }
        }),
{
    if a == 0 {
        assert(0 * pow10(b as nat) == 0) by (nonlinear_arith);
        return Some(0);
    }
    proof {
        lemma_pow0(10);
    }
    let mut cur: u64 = a;
    let mut k: u64 = 0;
    while k < b
        invariant
            0 <= k <= b,
            a >= 1,
            cur == a * pow10(k as nat),
            cur >= 1,
        decreases b - k,
    {
        proof {
            lemma_pow10_monotone(0, k as nat);
            assert(a * pow10(k as nat) >= 1 * 1) by (nonlinear_arith)
                requires
                    a >= 1,
                    pow10(k as nat) >= 1,
            ;
        }
        let next = match cur.checked_mul(10) {
            Some(m) => m,
            None => {
                proof {
                    lemma_step(a as nat, k as nat, b as nat, cur as nat, limit);
                }
                return None;
            },
        };
        proof {
            lemma_pow_adds(10, k as nat, 1);
            lemma_pow1(10);
            assert(a * pow10((k + 1) as nat) == (a * pow10(k as nat)) * 10) by (nonlinear_arith)
                requires
                    pow10((k + 1) as nat) == pow10(k as nat) * 10,
            ;
        }
        cur = next;
        k = k + 1;
    }
    if cur <= limit {
        Some(cur)
    } else {
        None
    }
}

proof fn lemma_step(a: nat, k: nat, b: nat, cur: nat, limit: u64)
    requires
        a >= 1,
        k < b,
        cur == a * pow10(k),
        cur * 10 > u64::MAX,
    ensures
        a * pow10(b) > limit,
{
    lemma_pow_adds(10, k, 1);
    lemma_pow_adds(10, k + 1, (b - k - 1) as nat);
    lemma_pow10_monotone(0, (b - k - 1) as nat);
    lemma_pow10_monotone(0, k);
    lemma_pow1(10);
    assert(a * pow10(b) >= cur * 10) by (nonlinear_arith)
        requires
            pow10(b) == (pow10(k) * 10) * pow10((b - k - 1) as nat),
            cur == a * pow10(k),
            pow10((b - k - 1) as nat) >= 1,
            a >= 1,
            pow10(k) >= 1,
    ;
}

/// Appends the digit of a value below ten.
fn push_digit(d: u64, out: &mut Vec<char>)
    requires
        d < 10,
    ensures
        final(out)@ == old(out)@.push(digit_char(d as nat)),
{
    let c = match d {
        0 => '0',
        1 => '1',
        2 => '2',
        3 => '3',
        4 => '4',
        5 => '5',
        6 => '6',
        7 => '7',
        8 => '8',
        _ => '9',
    };
    out.push(c);
}

/// Appends the canonical decimal text of an unsigned value.
pub fn push_dec_text(n: u64, out: &mut Vec<char>)
    ensures
        final(out)@ == old(out)@ + dec_text(n as nat),
    decreases n,
{
    if n < 10 {
        push_digit(n, out);
        assert(old(out)@ + dec_text(n as nat) =~= old(out)@.push(digit_char(n as nat)));
    } else {
        assert(n / 10 < n && n / 10 >= 1 && n % 10 < 10) by (nonlinear_arith)
            requires
                n >= 10,
        ;
        push_dec_text(n / 10, out);
        push_digit(n % 10, out);
        assert(out@ =~= old(out)@ + dec_text(n as nat));
    }
}

/// Appends the numeral text of a signed value, negatives under a high-minus.
pub fn push_int_text(n: i64, out: &mut Vec<char>)
    ensures
        final(out)@ == old(out)@ + int_text(n as int),
{
    if n < 0 {
        out.push('\u{00af}');
        let mag: u64 = if n == i64::MIN {
            9223372036854775808u64
        } else {
            (-n) as u64
        };
        push_dec_text(mag, out);
        assert(out@ =~= old(out)@ + int_text(n as int));
    } else {
        push_dec_text(n as u64, out);
    }
}

} // verus!
