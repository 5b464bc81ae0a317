use vstd::prelude::*;
use crate::price::Decimal;

verus! {

/// Largest count of fraction digits, and largest written exponent, that a
/// parsed number may carry.
pub const EXPONENT_LIMIT: u64 = 1000000000;

pub open spec fn is_digit(c: char) -> bool {
    '0' <= c && c <= '9'
}

pub open spec fn digit_value(c: char) -> int {
    c as int - '0' as int
}

/// The number written by the decimal digits `s`, read after the value `a`.
pub open spec fn digits_value(a: int, s: Seq<char>) -> int
    decreases s.len(),
{
    if s.len() == 0 {
        a
    } else {
        digits_value(a, s.drop_last()) * 10 + digit_value(s.last())
    }
}

/// How many decimal digits follow one another in `s` from position `i` on.
pub open spec fn digit_run(s: Seq<char>, i: int) -> int
    decreases s.len() - i,
{
    if 0 <= i < s.len() && is_digit(s[i]) {
        1 + digit_run(s, i + 1)
    } else {
        0
    }
}

pub open spec fn sign_len(s: Seq<char>) -> int {
    if s.len() > 0 && s[0] == '-' {
        1
    } else {
        0
    }
}

pub open spec fn int_end(s: Seq<char>) -> int {
    sign_len(s) + digit_run(s, sign_len(s))
}

pub open spec fn has_fraction(s: Seq<char>) -> bool {
    int_end(s) < s.len() && s[int_end(s)] == '.'
}

pub open spec fn fraction_len(s: Seq<char>) -> int {
    if has_fraction(s) {
        digit_run(s, int_end(s) + 1)
    } else {
        0
    }
}

pub open spec fn fraction_end(s: Seq<char>) -> int {
    if has_fraction(s) {
        int_end(s) + 1 + fraction_len(s)
    } else {
        int_end(s)
    }
}

pub open spec fn has_exponent(s: Seq<char>) -> bool {
    fraction_end(s) < s.len() && (s[fraction_end(s)] == 'e' || s[fraction_end(s)] == 'E')
}

pub open spec fn exponent_sign_len(s: Seq<char>) -> int {
    if has_exponent(s) && fraction_end(s) + 1 < s.len() && (s[fraction_end(s) + 1] == '-'
        || s[fraction_end(s) + 1] == '+') {
        1
    } else {
        0
    }
}

pub open spec fn exponent_negative(s: Seq<char>) -> bool {
    exponent_sign_len(s) == 1 && s[fraction_end(s) + 1] == '-'
}

pub open spec fn exponent_start(s: Seq<char>) -> int {
    fraction_end(s) + 1 + exponent_sign_len(s)
}

pub open spec fn exponent_len(s: Seq<char>) -> int {
    if has_exponent(s) {
        digit_run(s, exponent_start(s))
    } else {
        0
    }
}

pub open spec fn number_end(s: Seq<char>) -> int {
    if has_exponent(s) {
        exponent_start(s) + exponent_len(s)
    } else {
        fraction_end(s)
    }
}

/// `s` is a decimal number: an optional `-`, one or more digits, optionally
/// `.` and one or more digits, optionally `e` or `E`, an optional sign and one
/// or more digits, and nothing else.
pub open spec fn is_number_text(s: Seq<char>) -> bool {
    &&& digit_run(s, sign_len(s)) >= 1
    &&& has_fraction(s) ==> fraction_len(s) >= 1
    &&& has_exponent(s) ==> exponent_len(s) >= 1
    &&& number_end(s) == s.len()
}

/// All digits of the integer part and the fraction, read as one integer.
pub open spec fn mantissa_of(s: Seq<char>) -> int {
    let i = digits_value(0, s.subrange(sign_len(s), int_end(s)));
    if has_fraction(s) {
        digits_value(i, s.subrange(int_end(s) + 1, fraction_end(s)))
    } else {
        i
    }
}

pub open spec fn written_exponent(s: Seq<char>) -> int {
    if has_exponent(s) {
        digits_value(0, s.subrange(exponent_start(s), number_end(s)))
    } else {
        0
    }
}

pub open spec fn exponent_of(s: Seq<char>) -> int {
    (if exponent_negative(s) {
        -written_exponent(s)
    } else {
        written_exponent(s)
    }) - fraction_len(s)
}

/// The parts of a number text fit a `Decimal`.
pub open spec fn number_fits(s: Seq<char>) -> bool {
    &&& mantissa_of(s) <= u64::MAX
    &&& written_exponent(s) <= EXPONENT_LIMIT
    &&& fraction_len(s) <= EXPONENT_LIMIT
}

pub open spec fn decimal_of(s: Seq<char>) -> Decimal {
    Decimal {
        negative: sign_len(s) == 1,
        mantissa: mantissa_of(s) as u64,
        exponent: exponent_of(s) as i64,
    }
}

pub proof fn lemma_digits_value_grows(a: int, s: Seq<char>)
    requires
        a >= 0,
        forall|i: int| 0 <= i < s.len() ==> is_digit(#[trigger] s[i]),
    ensures
        digits_value(a, s) >= a,
    decreases s.len(),
{
    if s.len() > 0 {
        lemma_digits_value_grows(a, s.drop_last());
    }
}

proof fn lemma_run_value_grows(a: int, s: Seq<char>, start: int, end: int)
    requires
        a >= 0,
        0 <= start <= end <= s.len(),
        forall|i: int| start <= i < end ==> is_digit(#[trigger] s[i]),
    ensures
        digits_value(a, s.subrange(start, end)) >= a,
{
    let w = s.subrange(start, end);
    assert forall|j: int| 0 <= j < w.len() implies is_digit(#[trigger] w[j]) by {
        assert(w[j] == s[start + j]);
    }
    lemma_digits_value_grows(a, w);
}

fn char_at_is(s: &str, n: usize, i: usize, c: char) -> (r: bool)
    requires
        n == s@.len(),
    ensures
        r == (i < n && s@[i as int] == c),
{
    i < n && s.get_char(i) == c
}

/// Reads the run of digits of `s` that starts at `start`, after the value
/// `acc` (`None`: already past `u64::MAX`).
fn scan_digits(s: &str, n: usize, start: usize, acc: Option<u64>) -> (r: (usize, Option<u64>))
    requires
        n == s@.len(),
        start <= n,
    ensures
        r.0 == start + digit_run(s@, start as int),
        start <= r.0 <= n,
        forall|i: int| start <= i < r.0 ==> is_digit(#[trigger] s@[i]),
        match acc {
            Some(a) => {
                let v = digits_value(a as int, s@.subrange(start as int, r.0 as int));
                r.1 == if v <= u64::MAX {
                    Some(v as u64)
                } else {
                    None::<u64>
                }
            },
            None => r.1 is None,
        },
{
    let mut i = start;
    let mut cur = acc;
    while i < n && is_ascii_digit(s.get_char(i))
        invariant
            start <= i <= n,
            n == s@.len(),
            digit_run(s@, start as int) == (i - start) + digit_run(s@, i as int),
            forall|j: int| start <= j < i ==> is_digit(#[trigger] s@[j]),
            match acc {
                Some(a) => {
                    let v = digits_value(a as int, s@.subrange(start as int, i as int));
                    cur == if v <= u64::MAX {
                        Some(v as u64)
                    } else {
                        None::<u64>
                    }
                },
                None => cur is None,
            },
        decreases n - i,
    {
        let c = s.get_char(i);
        let d = (c as u32 - '0' as u32) as u64;
        proof {
            let sub = s@.subrange(start as int, i as int);
            let sub1 = s@.subrange(start as int, i + 1);
            assert(sub1.drop_last() =~= sub);
            if let Some(a) = acc {
                lemma_digits_value_grows(a as int, sub);
            }
        }
        cur = match cur {
            Some(v) => {
                if v <= (u64::MAX - d) / 10 {
                    Some(v * 10 + d)
                } else {
                    None
                }
            },
            None => None,
        };
        i = i + 1;
    }
    (i, cur)
}

fn is_ascii_digit(c: char) -> (r: bool)
    ensures
        r == is_digit(c),
{
    '0' <= c && c <= '9'
}

/// Why a text is not parsed into a `Decimal`.
#[derive(Clone, Copy, Debug, PartialEq, Eq)]
pub enum NumberError {
    /// The text is not a decimal number.
    NotANumber,
    /// The digits exceed `u64::MAX`, or the exponent parts `EXPONENT_LIMIT`.
    OutOfRange,
}

/// Parses the decimal text of a number (`51234.5`, `-3`, `1.5e-7`) into an
/// exact `Decimal`.
pub fn parse_number(text: &str) -> (r: Result<Decimal, NumberError>)
    ensures
        r == (if !is_number_text(text@) {
            Err(NumberError::NotANumber)
        } else if !number_fits(text@) {
            Err(NumberError::OutOfRange)
        } else {
            Ok(decimal_of(text@))
        }),
{
    let ghost s = text@;
    let n = text.unicode_len();
    let neg = char_at_is(text, n, 0, '-');
    let sign: usize = if neg { 1 } else { 0 };
    let scanned_int = scan_digits(text, n, sign, Some(0));
    let ie = scanned_int.0;
    let iv = scanned_int.1;
    assert(iv == if digits_value(0, s.subrange(sign as int, ie as int)) <= u64::MAX {
        Some(digits_value(0, s.subrange(sign as int, ie as int)) as u64)
    } else {
        None::<u64>
    });
    if ie == sign {
        return Err(NumberError::NotANumber);
    }
    let frac = char_at_is(text, n, ie, '.');
    let mut fe = ie;
    let mut mv = iv;
    if frac {
        let scanned = scan_digits(text, n, ie + 1, iv);
        fe = scanned.0;
        mv = scanned.1;
    }
    if frac && fe == ie + 1 {
        return Err(NumberError::NotANumber);
    }
    proof {
        assert(sign == sign_len(s));
        assert(ie == int_end(s));
        assert(frac == has_fraction(s));
        assert(fe == fraction_end(s));
        let i = digits_value(0, s.subrange(sign as int, ie as int));
        lemma_run_value_grows(0, s, sign as int, ie as int);
        if frac {
            lemma_run_value_grows(i, s, ie + 1, fe as int);
        }
        assert(mv == if mantissa_of(s) <= u64::MAX {
            Some(mantissa_of(s) as u64)
        } else {
            None::<u64>
        });
    }
    let frac_len = fe - ie - if frac { 1usize } else { 0usize };
    let exp = char_at_is(text, n, fe, 'e') || char_at_is(text, n, fe, 'E');
    assert(frac_len == fraction_len(s));
    assert(exp == has_exponent(s));
    if !exp {
        if fe != n {
            return Err(NumberError::NotANumber);
        }
        match mv {
            None => {
                return Err(NumberError::OutOfRange);
            },
            Some(m) => {
                if frac_len as u64 > EXPONENT_LIMIT {
                    return Err(NumberError::OutOfRange);
                }
                return Ok(Decimal { negative: neg, mantissa: m, exponent: 0 - frac_len as i64 });
            },
        }
    }
    let eneg = char_at_is(text, n, fe + 1, '-');
    let epos = char_at_is(text, n, fe + 1, '+');
    let es = if eneg || epos { fe + 2 } else { fe + 1 };
    let scanned_exp = scan_digits(text, n, es, Some(0));
    let ee = scanned_exp.0;
    let ev = scanned_exp.1;
    proof {
        lemma_run_value_grows(0, s, es as int, ee as int);
    }
    assert(es == exponent_start(s));
    assert(eneg == exponent_negative(s));
    assert(ee == number_end(s));
    assert(ev == if written_exponent(s) <= u64::MAX {
        Some(written_exponent(s) as u64)
    } else {
        None::<u64>
    });
    if ee == es || ee != n {
        return Err(NumberError::NotANumber);
    }
    match (mv, ev) {
        (Some(m), Some(e)) => {
            if frac_len as u64 > EXPONENT_LIMIT || e > EXPONENT_LIMIT {
                return Err(NumberError::OutOfRange);
            }
            let written = if eneg { 0 - e as i64 } else { e as i64 };
            Ok(Decimal { negative: neg, mantissa: m, exponent: written - frac_len as i64 })
        },
        _ => Err(NumberError::OutOfRange),
    }
}

} // verus!
