//! Typed attribute values and the parsers that coerce raw markup strings
//! into them: decimal numbers, booleans, verbatim text, and the row/column
//! sizing policies.

use vstd::prelude::*;
use crate::text::{digit_val, is_digit, lemma_scan_digits, scan_digits, scan_digits_x, str_eq};

verus! {

/// An exact decimal number: `(-1 if neg) * mantissa / 10^scale`.
///
/// Dimensions and opacity are written in markup as plain decimal literals
/// (an optional minus sign, digits, an optional fraction). The value is kept
/// exactly; the host runtime converts it to its own floating-point bounds
/// when a plan is replayed.
#[derive(Clone, Copy, PartialEq, Eq, Structural, Debug)]
pub struct Decimal {
    pub neg: bool,
    pub mantissa: u64,
    pub scale: u32,
}

/// Sizing policy for a row height or a column width: fixed, automatic, or
/// proportional ("star") sizing.
#[derive(Clone, Copy, PartialEq, Eq, Structural, Debug)]
pub enum SizePolicy {
    Auto,
    Star,
    Fixed(Decimal),
}

/// The closed set of semantic target types an attribute can be coerced to.
#[derive(Clone, Copy, PartialEq, Eq, Structural, Debug)]
pub enum AttrTy {
    Dec,
    Flag,
    Text,
    Policy,
}

/// A coerced attribute value.
#[derive(Debug, PartialEq)]
pub enum AttrValue {
    Dec(Decimal),
    Flag(bool),
    Text(String),
    Policy(SizePolicy),
}

impl Clone for AttrValue {
    fn clone(&self) -> (r: Self)
        ensures
            r == *self,
    {
        match self {
            AttrValue::Dec(d) => AttrValue::Dec(*d),
            AttrValue::Flag(b) => AttrValue::Flag(*b),
            AttrValue::Text(s) => AttrValue::Text(s.clone()),
            AttrValue::Policy(p) => AttrValue::Policy(*p),
        }
    }
}

/// Mathematical image of an `AttrValue`.
pub enum ValueV {
    Dec(Decimal),
    Flag(bool),
    Text(Seq<char>),
    Policy(SizePolicy),
}

impl View for AttrValue {
    type V = ValueV;

    open spec fn view(&self) -> ValueV {
        match self {
            AttrValue::Dec(d) => ValueV::Dec(*d),
            AttrValue::Flag(b) => ValueV::Flag(*b),
            AttrValue::Text(s) => ValueV::Text(s@),
            AttrValue::Policy(p) => ValueV::Policy(*p),
        }
    }
}

/// 10 to the power `e` (1 for non-positive `e`).
pub open spec fn pow10(e: int) -> int
    decreases e,
{
    if e <= 0 {
        1
    } else {
        10 * pow10(e - 1)
    }
}

pub proof fn lemma_pow10_pos(e: int)
    ensures
        pow10(e) >= 1,
    decreases e,
{
    if e > 0 {
        lemma_pow10_pos(e - 1);
    }
}

pub proof fn lemma_pow10_mono(a: int, b: int)
    requires
        a <= b,
    ensures
        pow10(a) <= pow10(b),
    decreases b - a,
{
    if a < b {
        lemma_pow10_mono(a, b - 1);
        lemma_pow10_pos(b - 1);
    }
}

pub proof fn lemma_pow10_add(a: int, b: int)
    requires
        a >= 0,
        b >= 0,
    ensures
        pow10(a + b) == pow10(a) * pow10(b),
    decreases b,
{
    if b == 0 {
        assert(pow10(a) * 1 == pow10(a)) by (nonlinear_arith);
    } else {
        lemma_pow10_add(a, b - 1);
        assert(10 * (pow10(a) * pow10(b - 1)) == pow10(a) * (10 * pow10(b - 1)))
            by (nonlinear_arith);
    }
}

pub proof fn lemma_pow10_18()
    ensures
        pow10(18) == 1000000000000000000,
{
    reveal_with_fuel(pow10, 20);
}

/// Value of the digit run `s[i..j]`, read left to right.
pub open spec fn dec_val(s: Seq<char>, i: int, j: int) -> int
    decreases j - i,
{
    if j <= i {
        0
    } else {
        dec_val(s, i, j - 1) * 10 + digit_val(s[j - 1])
    }
}

pub proof fn lemma_dec_val_bound(s: Seq<char>, i: int, j: int)
    requires
        0 <= i <= j <= s.len(),
        forall|k: int| i <= k < j ==> is_digit(s[k]),
    ensures
        0 <= dec_val(s, i, j) < pow10(j - i),
    decreases j - i,
{
    if j > i {
        lemma_dec_val_bound(s, i, j - 1);
    }
}

/// Executable mirror of `dec_val`, bounded so the accumulator fits.
pub fn dec_val_x(s: &str, n: usize, i: usize, j: usize) -> (r: u64)
    requires
        n == s@.len(),
        i <= j <= n,
        j - i <= 18,
        forall|k: int| i <= k < j ==> is_digit(s@[k]),
    ensures
        r as int == dec_val(s@, i as int, j as int),
    decreases j - i,
{
    proof {
        lemma_dec_val_bound(s@, i as int, j as int);
        lemma_pow10_mono((j - i) as int, 18);
        lemma_pow10_18();
    }
    if j <= i {
        0
    } else {
        let prefix = dec_val_x(s, n, i, j - 1);
        proof {
            lemma_dec_val_bound(s@, i as int, j as int - 1);
            lemma_pow10_mono((j - i - 1) as int, 17);
            lemma_pow10_18();
            assert(pow10(17) == 100000000000000000) by {
                reveal_with_fuel(pow10, 20);
            }
        }
        let d = (s.get_char(j - 1) as u32 - 48) as u64;
        prefix * 10 + d
    }
}

/// Executable power of ten.
pub fn pow10_x(e: u32) -> (r: u64)
    requires
        e <= 18,
    ensures
        r as int == pow10(e as int),
    decreases e,
{
    if e == 0 {
        1
    } else {
        let p = pow10_x(e - 1);
        proof {
            lemma_pow10_pos(e as int - 1);
            lemma_pow10_mono(e as int - 1, 17);
            assert(pow10(17) == 100000000000000000) by {
                reveal_with_fuel(pow10, 20);
            }
        }
        10 * p
    }
}

/// The decimal grammar: an optional `-`, one or more digits, then optionally
/// `.` and one or more digits; at most 18 digits in all, so every accepted
/// literal has an exact `Decimal` image. Anything else is rejected.
pub open spec fn spec_parse_decimal(s: Seq<char>) -> Option<Decimal> {
    let neg = s.len() > 0 && s[0] == '-';
    let st: int = if neg {
        1
    } else {
        0
    };
    let j1 = scan_digits(s, st);
    if j1 <= st {
        None
    } else if j1 == s.len() {
        if j1 - st <= 18 {
            Some(Decimal { neg, mantissa: dec_val(s, st, j1) as u64, scale: 0 })
        } else {
            None
        }
    } else if s[j1] == '.' {
        let j2 = scan_digits(s, j1 + 1);
        if j2 == s.len() && j2 > j1 + 1 && (j1 - st) + (j2 - j1 - 1) <= 18 {
            Some(
                Decimal {
                    neg,
                    mantissa: (dec_val(s, st, j1) * pow10(j2 - j1 - 1) + dec_val(
                        s,
                        j1 + 1,
                        j2,
                    )) as u64,
                    scale: (j2 - j1 - 1) as u32,
                },
            )
        } else {
            None
        }
    } else {
        None
    }
}

/// Parse a decimal literal; `None` exactly on inputs outside the grammar.
pub fn parse_decimal(s: &str) -> (r: Option<Decimal>)
    ensures
        r == spec_parse_decimal(s@),
{
    let n = s.unicode_len();
    let neg = n > 0 && s.get_char(0) == '-';
    let st: usize = if neg {
        1
    } else {
        0
    };
    let j1 = scan_digits_x(s, n, st);
    proof {
        lemma_scan_digits(s@, st as int);
    }
    if j1 <= st {
        None
    } else if j1 == n {
        if j1 - st <= 18 {
            let m = dec_val_x(s, n, st, j1);
            Some(Decimal { neg, mantissa: m, scale: 0 })
        } else {
            None
        }
    } else if s.get_char(j1) == '.' {
        let j2 = scan_digits_x(s, n, j1 + 1);
        proof {
            lemma_scan_digits(s@, j1 as int + 1);
        }
        if j2 == n && j2 > j1 + 1 && (j1 - st) + (j2 - j1 - 1) <= 18 {
            let il: usize = j1 - st;
            let fl: usize = j2 - j1 - 1;
            let int_part = dec_val_x(s, n, st, j1);
            let frac_part = dec_val_x(s, n, j1 + 1, j2);
            let p = pow10_x(fl as u32);
            proof {
                lemma_dec_val_bound(s@, st as int, j1 as int);
                lemma_dec_val_bound(s@, j1 as int + 1, j2 as int);
                lemma_pow10_pos(fl as int);
                lemma_pow10_add(il as int, fl as int);
                lemma_pow10_mono((il + fl) as int, 18);
                lemma_pow10_18();
                assert(((int_part as int) * pow10(fl as int) + (frac_part as int)) < (pow10(
                    il as int,
                ) * pow10(fl as int))) by (nonlinear_arith)
                    requires
                        (int_part as int) < pow10(il as int),
                        (frac_part as int) < pow10(fl as int),
                        pow10(fl as int) >= 1,
                ;
            }
            let m = int_part * p + frac_part;
            Some(Decimal { neg, mantissa: m, scale: fl as u32 })
        } else {
            None
        }
    } else {
        None
    }
}

/// The boolean grammar: the literals `true` and `false` only.
pub open spec fn spec_parse_bool(s: Seq<char>) -> Option<bool> {
    if s == "true"@ {
        Some(true)
    } else if s == "false"@ {
        Some(false)
    } else {
        None
    }
}

/// Parse a boolean literal; `None` exactly on anything else.
pub fn parse_bool(s: &str) -> (r: Option<bool>)
    ensures
        r == spec_parse_bool(s@),
{
    if str_eq(s, "true") {
        Some(true)
    } else if str_eq(s, "false") {
        Some(false)
    } else {
        None
    }
}

/// The sizing-policy grammar: `auto`, `star`, or a decimal fixed size.
pub open spec fn spec_parse_policy(s: Seq<char>) -> Option<SizePolicy> {
    if s == "auto"@ {
        Some(SizePolicy::Auto)
    } else if s == "star"@ {
        Some(SizePolicy::Star)
    } else {
        match spec_parse_decimal(s) {
            Some(d) => Some(SizePolicy::Fixed(d)),
            None => None,
        }
    }
}

/// Parse a sizing policy; `None` exactly on anything outside the grammar.
pub fn parse_policy(s: &str) -> (r: Option<SizePolicy>)
    ensures
        r == spec_parse_policy(s@),
{
    if str_eq(s, "auto") {
        Some(SizePolicy::Auto)
    } else if str_eq(s, "star") {
        Some(SizePolicy::Star)
    } else {
        match parse_decimal(s) {
            Some(d) => Some(SizePolicy::Fixed(d)),
            None => None,
        }
    }
}

/// What coercing a raw string to a target type yields; `None` exactly on the
/// raw values the target's grammar rejects. Text never fails: it is passed
/// through verbatim.
pub open spec fn spec_coerce(ty: AttrTy, raw: Seq<char>) -> Option<ValueV> {
    match ty {
        AttrTy::Dec => match spec_parse_decimal(raw) {
            Some(d) => Some(ValueV::Dec(d)),
            None => None,
        },
        AttrTy::Flag => match spec_parse_bool(raw) {
            Some(b) => Some(ValueV::Flag(b)),
            None => None,
        },
        AttrTy::Text => Some(ValueV::Text(raw)),
        AttrTy::Policy => match spec_parse_policy(raw) {
            Some(p) => Some(ValueV::Policy(p)),
            None => None,
        },
    }
}

/// A single raw value paired with the semantic type it is to be read as.
pub struct TypeConverter {
    pub data: String,
    pub target: AttrTy,
}

impl TypeConverter {
    /// Record a raw attribute value and its target type.
    pub fn new(data: &str, target: AttrTy) -> (r: Self)
        ensures
            r.data@ == data@,
            r.target == target,
    {
        TypeConverter { data: data.to_owned(), target }
    }

    /// Coerce the recorded value; `None` exactly on raw values the target
    /// type's grammar rejects.
    pub fn get_output(&self) -> (r: Option<AttrValue>)
        ensures
            match r {
                Some(v) => spec_coerce(self.target, self.data@) == Some(v@),
                None => spec_coerce(self.target, self.data@) is None,
            },
    {
        match self.target {
            AttrTy::Dec => match parse_decimal(self.data.as_str()) {
                Some(d) => Some(AttrValue::Dec(d)),
                None => None,
            },
            AttrTy::Flag => match parse_bool(self.data.as_str()) {
                Some(b) => Some(AttrValue::Flag(b)),
                None => None,
            },
            AttrTy::Text => Some(AttrValue::Text(self.data.clone())),
            AttrTy::Policy => match parse_policy(self.data.as_str()) {
                Some(p) => Some(AttrValue::Policy(p)),
                None => None,
            },
        }
    }
}

} // verus!
