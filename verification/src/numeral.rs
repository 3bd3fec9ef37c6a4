//! Devanagari numerals (०, १, २, ३, ४, ५, ६, ७, ८, ९): digit conversion,
//! parsing of signed integers and formatting of integers.
use vstd::prelude::*;
use crate::text::{chars_of, push_char};

verus! {

/// Code point of DEVANAGARI DIGIT ZERO.
pub open spec fn zero_code() -> int {
    0x0966
}

/// `c` is one of the ten Devanagari digits.
pub open spec fn is_digit_spec(c: char) -> bool {
    '\u{0966}' <= c && c <= '\u{096F}'
}

/// The value (0-9) of a Devanagari digit.
pub open spec fn digit_value(c: char) -> nat {
    (c as int - zero_code()) as nat
}

/// The Devanagari digit whose value is `d` (for `d < 10`).
pub open spec fn digit_char(d: nat) -> char {
    (zero_code() + d) as char
}

/// The Devanagari digits of `m`, most significant first, without leading zeros
/// (`०` for zero).
pub open spec fn dev_digits(m: nat) -> Seq<char>
    decreases m,
{
    if m < 10 {
        seq![digit_char(m)]
    } else {
        dev_digits(m / 10).push(digit_char(m % 10))
    }
}

/// The text that `format_i64_devanagari` produces for `n`.
pub open spec fn format_spec(n: int) -> Seq<char> {
    if n < 0 {
        seq!['-'] + dev_digits((-n) as nat)
    } else {
        dev_digits(n as nat)
    }
}

/// Every character of `cs` is a Devanagari digit.
pub open spec fn all_digits(cs: Seq<char>) -> bool {
    forall|i: int| 0 <= i < cs.len() ==> is_digit_spec(#[trigger] cs[i])
}

/// The value of a run of Devanagari digits read in base ten.
pub open spec fn digits_value(cs: Seq<char>) -> nat
    decreases cs.len(),
{
    if cs.len() == 0 {
        0
    } else {
        digits_value(cs.drop_last()) * 10 + digit_value(cs.last())
    }
}

/// Why a numeral was rejected.
#[derive(Debug, Clone, Copy, PartialEq, Eq)]
pub enum NumeralFault {
    /// The accumulated value went past `i64::MAX`.
    Overflow,
    /// A character that is not a Devanagari digit.
    InvalidDigit(char),
    /// No digit at all.
    Empty,
}

/// Reading the digits of `cs` from the left: the value so far, or the first
/// fault met (a non-digit, or a value past `i64::MAX`).
pub open spec fn scan_digits(cs: Seq<char>) -> Result<int, NumeralFault>
    decreases cs.len(),
{
    if cs.len() == 0 {
        Ok(0)
    } else {
        match scan_digits(cs.drop_last()) {
            Err(e) => Err(e),
            Ok(v) => {
                let c = cs.last();
                if !is_digit_spec(c) {
                    Err(NumeralFault::InvalidDigit(c))
                } else if v * 10 + digit_value(c) > i64::MAX {
                    Err(NumeralFault::Overflow)
                } else {
                    Ok(v * 10 + digit_value(c))
                }
            }
        }
    }
}

/// The digits of a numeral: everything after a leading `-`, if there is one.
pub open spec fn numeral_body(s: Seq<char>) -> Seq<char> {
    if s.len() > 0 && s[0] == '-' {
        s.drop_first()
    } else {
        s
    }
}

/// `s` starts with a minus sign.
pub open spec fn numeral_negative(s: Seq<char>) -> bool {
    s.len() > 0 && s[0] == '-'
}

/// What `parse_devanagari_i64` decides for the text `s`.
pub open spec fn parse_spec(s: Seq<char>) -> Result<int, NumeralFault> {
    let body = numeral_body(s);
    if body.len() == 0 {
        Err(NumeralFault::Empty)
    } else {
        match scan_digits(body) {
            Ok(v) => Ok(if numeral_negative(s) { -v } else { v }),
            Err(e) => Err(e),
        }
    }
}

/// The message that accompanies each fault of `parse_devanagari_i64` on `s`.
pub open spec fn fault_message(f: NumeralFault, s: Seq<char>) -> Seq<char> {
    match f {
        NumeralFault::Overflow => "संख्या अतिविशाला अस्ति (Integer overflow): "@ + s,
        NumeralFault::InvalidDigit(c) => "अमान्यः देवनागरी-अङ्कः (Invalid Devanagari digit): '"@
            + seq![c] + "'"@,
        NumeralFault::Empty => "रिक्ता संख्या (Empty number)"@,
    }
}

/// Checks if a character is a Devanagari digit.
pub fn is_devanagari_digit(c: char) -> (r: bool)
    ensures
        r == is_digit_spec(c),
{
    '\u{0966}' <= c && c <= '\u{096F}'
}

/// Converts a Devanagari digit character to its integer value (0-9).
pub fn devanagari_digit_to_u32(c: char) -> (r: Option<u32>)
    ensures
        r == (if is_digit_spec(c) { Some(digit_value(c) as u32) } else { None::<u32> }),
        r matches Some(d) ==> d < 10,
{
    if is_devanagari_digit(c) {
        Some((c as u32) - 0x0966)
    } else {
        None
    }
}

/// Converts an integer (0-9) to a Devanagari digit character.
pub fn u32_to_devanagari_digit(d: u32) -> (r: Option<char>)
    ensures
        r == (if d < 10 { Some(digit_char(d as nat)) } else { None::<char> }),
{
    match d {
        0 => Some('\u{0966}'),
        1 => Some('\u{0967}'),
        2 => Some('\u{0968}'),
        3 => Some('\u{0969}'),
        4 => Some('\u{096A}'),
        5 => Some('\u{096B}'),
        6 => Some('\u{096C}'),
        7 => Some('\u{096D}'),
        8 => Some('\u{096E}'),
        9 => Some('\u{096F}'),
        _ => None,
    }
}

/// Builds the error message for `fault` on input `s`.
fn fault_text(fault: NumeralFault, s: &str) -> (m: String)
    ensures
        m@ == fault_message(fault, s@),
{
    match fault {
        NumeralFault::Overflow => {
            let mut m = String::from_str("संख्या अतिविशाला अस्ति (Integer overflow): ");
            m.append(s);
            m
        },
        NumeralFault::InvalidDigit(c) => {
            let mut m = String::from_str("अमान्यः देवनागरी-अङ्कः (Invalid Devanagari digit): '");
            push_char(&mut m, c);
            m.append("'");
            m
        },
        NumeralFault::Empty => String::from_str("रिक्ता संख्या (Empty number)"),
    }
}

/// Reads a numeral into a value, or names the fault (checked arithmetic on the
/// running value, as `parse_devanagari_i64` does).
pub fn scan_numeral(s: &str) -> (r: Result<i64, NumeralFault>)
    ensures
        r matches Ok(v) ==> parse_spec(s@) == Ok::<int, NumeralFault>(v as int),
        r matches Err(f) ==> parse_spec(s@) == Err::<int, NumeralFault>(f),
{
    let cs = chars_of(s);
    let negative = cs.len() > 0 && cs[0] == '-';
    let start: usize = if negative { 1 } else { 0 };
    let ghost body = numeral_body(s@);
    proof {
        assert(body =~= cs@.subrange(start as int, cs@.len() as int));
    }
    let mut result: i64 = 0;
    let mut i: usize = start;
    while i < cs.len()
        invariant
            start <= i <= cs.len(),
            body == numeral_body(s@),
            body =~= cs@.subrange(start as int, cs@.len() as int),
            scan_digits(body.take(i - start)) == Ok::<int, NumeralFault>(result as int),
            result >= 0,
        decreases cs.len() - i,
    {
        let c = cs[i];
        proof {
            assert(body.take(i - start + 1).drop_last() =~= body.take(i - start));
            assert(body.take(i - start + 1).last() == c);
        }
        match devanagari_digit_to_u32(c) {
            Some(d) => {
                if result > (i64::MAX - d as i64) / 10 {
                    proof {
                        assert(result * 10 + d > i64::MAX) by (nonlinear_arith)
                            requires
                                result > (i64::MAX - d as i64) / 10,
                                d < 10,
                        ;
                        assert(scan_digits(body.take(i - start + 1)) == Err::<int, NumeralFault>(NumeralFault::Overflow));
                        lemma_scan_fault_persists(body, (i - start + 1) as nat);
                    }
                    return Err(NumeralFault::Overflow);
                }
                proof {
                    assert(result * 10 + d <= i64::MAX) by (nonlinear_arith)
                        requires
                            result <= (i64::MAX - d as i64) / 10,
                            d < 10,
                            result >= 0,
                    ;
                }
                result = result * 10 + d as i64;
            },
            None => {
                proof {
                    assert(scan_digits(body.take(i - start + 1)) == Err::<int, NumeralFault>(NumeralFault::InvalidDigit(c)));
                    lemma_scan_fault_persists(body, (i - start + 1) as nat);
                }
                return Err(NumeralFault::InvalidDigit(c));
            },
        }
        i = i + 1;
    }
    proof {
        assert(body.take(i - start) =~= body);
    }
    if i == start {
        return Err(NumeralFault::Empty);
    }
    if negative {
        Ok(-result)
    } else {
        Ok(result)
    }
}

/// Once the scan of a prefix has failed, the scan of the whole fails the same way.
proof fn lemma_scan_fault_persists(cs: Seq<char>, k: nat)
    requires
        k <= cs.len(),
        scan_digits(cs.take(k as int)) is Err,
    ensures
        scan_digits(cs) == scan_digits(cs.take(k as int)),
    decreases cs.len() - k,
{
    if k < cs.len() {
        assert(cs.take(k as int + 1).drop_last() =~= cs.take(k as int));
        lemma_scan_fault_persists(cs, k + 1);
    } else {
        assert(cs.take(k as int) =~= cs);
    }
}

/// Parses a string of Devanagari digits, with an optional leading `-`, into an
/// `i64`. Fails on an empty body, on a character that is not a Devanagari
/// digit, and when the magnitude passes `i64::MAX`.
pub fn parse_devanagari_i64(s: &str) -> (r: Result<i64, String>)
    ensures
        parse_spec(s@) is Ok <==> r is Ok,
        r matches Ok(v) ==> parse_spec(s@) == Ok::<int, NumeralFault>(v as int),
        r matches Err(m) ==> (parse_spec(s@) matches Err(f) && m@ == fault_message(f, s@)),
{
    match scan_numeral(s) {
        Ok(v) => Ok(v),
        Err(f) => Err(fault_text(f, s)),
    }
}

/// Formats an `i64` as a Devanagari numeral (`-` for negatives, no leading zeros).
pub fn format_i64_devanagari(n: i64) -> (r: String)
    ensures
        r@ == format_spec(n as int),
{
    let negative = n < 0;
    let magnitude: u64 = if negative {
        ((-(n + 1)) as u64) + 1
    } else {
        n as u64
    };
    let ghost m = magnitude as nat;
    let mut val: u64 = magnitude;
    let mut digits: Vec<char> = Vec::new();
    let ghost mut suffix: Seq<char> = Seq::empty();
    loop
        invariant_except_break
            dev_digits(m) =~= dev_digits(val as nat) + suffix,
            val == 0 ==> m == 0 && suffix.len() == 0,
        invariant
            suffix.len() == digits@.len(),
            forall|j: int| 0 <= j < suffix.len() ==> suffix[j] == #[trigger] digits@[digits@.len() - 1 - j],
        ensures
            dev_digits(m) =~= suffix,
        decreases val,
    {
        let d = (val % 10) as u32;
        let ch = match u32_to_devanagari_digit(d) {
            Some(ch) => ch,
            None => '\u{0966}',
        };
        let ghost old_suffix = suffix;
        let ghost old_val = val;
        let ghost old_digits = digits@;
        digits.push(ch);
        proof {
            suffix = seq![ch] + old_suffix;
            assert forall|j: int| 0 <= j < suffix.len() implies suffix[j] == #[trigger] digits@[digits@.len() - 1 - j] by {
                if j > 0 {
                    assert(old_suffix[j - 1] == old_digits[old_digits.len() - 1 - (j - 1)]);
                    assert(digits@[digits@.len() - 1 - j] == old_digits[old_digits.len() - 1 - (j - 1)]);
                }
            }
        }
        val = val / 10;
        if val == 0 {
            proof {
                assert(dev_digits(old_val as nat) =~= seq![ch]);
            }
            break;
        }
        proof {
            assert(dev_digits(old_val as nat) =~= dev_digits(val as nat).push(ch));
        }
    }
    let mut out = String::new();
    if negative {
        push_char(&mut out, '-');
    }
    let ghost prefix = out@;
    let mut k = digits.len();
    while k > 0
        invariant
            k <= digits@.len(),
            suffix.len() == digits@.len(),
            forall|j: int| 0 <= j < suffix.len() ==> suffix[j] == #[trigger] digits@[digits@.len() - 1 - j],
            out@ =~= prefix + suffix.take(digits@.len() - k),
        decreases k,
    {
        k = k - 1;
        proof {
            assert(suffix[digits@.len() - 1 - k] == digits@[digits@.len() - 1 - (digits@.len() - 1 - k)]);
            assert(suffix.take(digits@.len() - k) =~= suffix.take(digits@.len() - k - 1).push(suffix[digits@.len() - k - 1]));
        }
        push_char(&mut out, digits[k]);
    }
    proof {
        assert(suffix.take(digits@.len() as int) =~= suffix);
    }
    out
}


/// Every character of `dev_digits(m)` is a Devanagari digit, and there is at
/// least one.
pub proof fn lemma_dev_digits_all_digits(m: nat)
    ensures
        dev_digits(m).len() > 0,
        all_digits(dev_digits(m)),
    decreases m,
{
    if m >= 10 {
        lemma_dev_digits_all_digits(m / 10);
        let d = dev_digits(m);
        assert forall|i: int| 0 <= i < d.len() implies is_digit_spec(#[trigger] d[i]) by {
            if i < d.len() - 1 {
                assert(d[i] == dev_digits(m / 10)[i]);
            }
        }
    }
}

/// Scanning the digits that `dev_digits` writes gives the number back.
pub proof fn lemma_scan_dev_digits(m: nat)
    requires
        m <= i64::MAX,
    ensures
        scan_digits(dev_digits(m)) == Ok::<int, NumeralFault>(m as int),
    decreases m,
{
    if m < 10 {
        assert(dev_digits(m).drop_last() =~= Seq::<char>::empty());
        assert(digit_value(digit_char(m)) == m);
        assert(scan_digits(dev_digits(m).drop_last()) == Ok::<int, NumeralFault>(0));
        assert(is_digit_spec(dev_digits(m).last()));
    } else {
        lemma_scan_dev_digits(m / 10);
        assert(dev_digits(m).drop_last() =~= dev_digits(m / 10));
        assert(dev_digits(m).last() == digit_char(m % 10));
        assert(digit_value(digit_char(m % 10)) == m % 10);
        assert(is_digit_spec(digit_char(m % 10)));
        assert((m / 10) * 10 + m % 10 == m);
    }
}

/// Law: parsing what `format_i64_devanagari` writes gives the number back, for
/// every `i64` except `i64::MIN` (whose magnitude is past `i64::MAX`, which the
/// parser rejects as an overflow).
pub proof fn law_parse_of_format(n: i64)
    requires
        n != i64::MIN,
    ensures
        parse_spec(format_spec(n as int)) == Ok::<int, NumeralFault>(n as int),
{
    if n < 0 {
        let m = (-n) as nat;
        lemma_scan_dev_digits(m);
        lemma_dev_digits_all_digits(m);
        assert((seq!['-'] + dev_digits(m)).drop_first() =~= dev_digits(m));
    } else {
        lemma_scan_dev_digits(n as nat);
        lemma_dev_digits_all_digits(n as nat);
        assert(is_digit_spec(dev_digits(n as nat)[0]));
    }
}

/// Law: a digit value turned into a Devanagari digit and back is unchanged, and
/// a Devanagari digit turned into its value and back is unchanged.
pub proof fn law_digit_conversions_inverse(d: nat, c: char)
    ensures
        d < 10 ==> is_digit_spec(digit_char(d)) && digit_value(digit_char(d)) == d,
        is_digit_spec(c) ==> digit_value(c) < 10 && digit_char(digit_value(c)) == c,
{
}

/// Law: what `format_i64_devanagari` writes is a run of Devanagari digits,
/// preceded by `-` exactly when the number is negative.
pub proof fn law_format_shape(n: i64)
    ensures
        all_digits(numeral_body(format_spec(n as int))),
        numeral_body(format_spec(n as int)).len() > 0,
        numeral_negative(format_spec(n as int)) <==> n < 0,
{
    if n < 0 {
        let m = (-(n as int)) as nat;
        lemma_dev_digits_all_digits(m);
        assert((seq!['-'] + dev_digits(m)).drop_first() =~= dev_digits(m));
    } else {
        lemma_dev_digits_all_digits(n as nat);
        assert(is_digit_spec(dev_digits(n as nat)[0]));
    }
}

} // verus!
