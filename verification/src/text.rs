//! Character classes and scanning primitives shared by the tokenizer and the
//! attribute value parsers.

use vstd::prelude::*;

verus! {

/// Whitespace accepted between tokens inside a tag.
pub open spec fn is_ws(c: char) -> bool {
    c == ' ' || c == '\t' || c == '\n' || c == '\r'
}

/// Decimal digit.
pub open spec fn is_digit(c: char) -> bool {
    48 <= c as u32 && c as u32 <= 57
}

/// Characters allowed in tag and attribute names.
pub open spec fn is_name_char(c: char) -> bool {
    (65 <= c as u32 && c as u32 <= 90) || (97 <= c as u32 && c as u32 <= 122) || is_digit(c)
        || c == '_' || c == '-'
}

/// Numeric value of a digit character.
pub open spec fn digit_val(c: char) -> int {
    c as u32 - 48
}

/// First position at or after `i` holding `'<'`, or the end of the text.
pub open spec fn scan_text(s: Seq<char>, i: int) -> int
    decreases s.len() - i,
{
    if i < 0 {
        0
    } else if i >= s.len() {
        s.len() as int
    } else if s[i] == '<' {
        i
    } else {
        scan_text(s, i + 1)
    }
}

/// First position at or after `i` holding `'"'`, or the end of the text.
pub open spec fn scan_quote(s: Seq<char>, i: int) -> int
    decreases s.len() - i,
{
    if i < 0 {
        0
    } else if i >= s.len() {
        s.len() as int
    } else if s[i] == '"' {
        i
    } else {
        scan_quote(s, i + 1)
    }
}

/// First position at or after `i` holding a character that is not a name
/// character, or the end of the text.
pub open spec fn scan_name(s: Seq<char>, i: int) -> int
    decreases s.len() - i,
{
    if i < 0 {
        0
    } else if i >= s.len() {
        s.len() as int
    } else if !is_name_char(s[i]) {
        i
    } else {
        scan_name(s, i + 1)
    }
}

/// First position at or after `i` holding a non-whitespace character, or the
/// end of the text.
pub open spec fn skip_ws(s: Seq<char>, i: int) -> int
    decreases s.len() - i,
{
    if i < 0 {
        0
    } else if i >= s.len() {
        s.len() as int
    } else if !is_ws(s[i]) {
        i
    } else {
        skip_ws(s, i + 1)
    }
}

/// First position at or after `i` holding a character that is not a digit,
/// or the end of the text.
pub open spec fn scan_digits(s: Seq<char>, i: int) -> int
    decreases s.len() - i,
{
    if i < 0 {
        0
    } else if i >= s.len() {
        s.len() as int
    } else if !is_digit(s[i]) {
        i
    } else {
        scan_digits(s, i + 1)
    }
}

pub proof fn lemma_scan_text(s: Seq<char>, i: int)
    requires
        0 <= i <= s.len(),
    ensures
        i <= scan_text(s, i) <= s.len(),
        scan_text(s, i) < s.len() ==> s[scan_text(s, i)] == '<',
        forall|j: int| i <= j < scan_text(s, i) ==> s[j] != '<',
    decreases s.len() - i,
{
    if i < s.len() && s[i] != '<' {
        lemma_scan_text(s, i + 1);
    }
}

pub proof fn lemma_skip_ws(s: Seq<char>, i: int)
    requires
        0 <= i <= s.len(),
    ensures
        i <= skip_ws(s, i) <= s.len(),
        skip_ws(s, i) < s.len() ==> !is_ws(s[skip_ws(s, i)]),
        forall|j: int| i <= j < skip_ws(s, i) ==> is_ws(s[j]),
    decreases s.len() - i,
{
    if i < s.len() && is_ws(s[i]) {
        lemma_skip_ws(s, i + 1);
    }
}

pub proof fn lemma_scan_digits(s: Seq<char>, i: int)
    requires
        0 <= i <= s.len(),
    ensures
        i <= scan_digits(s, i) <= s.len(),
        scan_digits(s, i) < s.len() ==> !is_digit(s[scan_digits(s, i)]),
        forall|j: int| i <= j < scan_digits(s, i) ==> is_digit(s[j]),
    decreases s.len() - i,
{
    if i < s.len() && is_digit(s[i]) {
        lemma_scan_digits(s, i + 1);
    }
}

/// Executable mirror of `scan_text`.
pub fn scan_text_x(s: &str, n: usize, i: usize) -> (r: usize)
    requires
        n == s@.len(),
        i <= n,
    ensures
        r == scan_text(s@, i as int),
        i <= r <= n,
    decreases n - i,
{
    if i >= n {
        n
    } else if s.get_char(i) == '<' {
        i
    } else {
        scan_text_x(s, n, i + 1)
    }
}

/// Executable mirror of `scan_quote`.
pub fn scan_quote_x(s: &str, n: usize, i: usize) -> (r: usize)
    requires
        n == s@.len(),
        i <= n,
    ensures
        r == scan_quote(s@, i as int),
        i <= r <= n,
    decreases n - i,
{
    if i >= n {
        n
    } else if s.get_char(i) == '"' {
        i
    } else {
        scan_quote_x(s, n, i + 1)
    }
}

/// Executable decision procedure for `is_name_char`.
pub fn is_name_char_x(c: char) -> (r: bool)
    ensures
        r == is_name_char(c),
{
    let u = c as u32;
    (65 <= u && u <= 90) || (97 <= u && u <= 122) || (48 <= u && u <= 57) || c == '_' || c == '-'
}

/// Executable decision procedure for `is_ws`.
pub fn is_ws_x(c: char) -> (r: bool)
    ensures
        r == is_ws(c),
{
    c == ' ' || c == '\t' || c == '\n' || c == '\r'
}

/// Executable decision procedure for `is_digit`.
pub fn is_digit_x(c: char) -> (r: bool)
    ensures
        r == is_digit(c),
{
    let u = c as u32;
    48 <= u && u <= 57
}

/// Executable mirror of `scan_name`.
pub fn scan_name_x(s: &str, n: usize, i: usize) -> (r: usize)
    requires
        n == s@.len(),
        i <= n,
    ensures
        r == scan_name(s@, i as int),
        i <= r <= n,
    decreases n - i,
{
    if i >= n {
        n
    } else if !is_name_char_x(s.get_char(i)) {
        i
    } else {
        scan_name_x(s, n, i + 1)
    }
}

/// Executable mirror of `skip_ws`.
pub fn skip_ws_x(s: &str, n: usize, i: usize) -> (r: usize)
    requires
        n == s@.len(),
        i <= n,
    ensures
        r == skip_ws(s@, i as int),
        i <= r <= n,
    decreases n - i,
{
    if i >= n {
        n
    } else if !is_ws_x(s.get_char(i)) {
        i
    } else {
        skip_ws_x(s, n, i + 1)
    }
}

/// Executable mirror of `scan_digits`.
pub fn scan_digits_x(s: &str, n: usize, i: usize) -> (r: usize)
    requires
        n == s@.len(),
        i <= n,
    ensures
        r == scan_digits(s@, i as int),
        i <= r <= n,
    decreases n - i,
{
    if i >= n {
        n
    } else if !is_digit_x(s.get_char(i)) {
        i
    } else {
        scan_digits_x(s, n, i + 1)
    }
}

/// Character-by-character string equality, decided without trusting any
/// unspecified library comparison.
pub fn str_eq(a: &str, b: &str) -> (r: bool)
    ensures
        r == (a@ == b@),
{
    let n = a.unicode_len();
    let m = b.unicode_len();
    if n != m {
        proof {
            if a@ == b@ {
                assert(a@.len() == b@.len());
            }
        }
        false
    } else {
        str_eq_from(a, b, 0, n)
    }
}

fn str_eq_from(a: &str, b: &str, i: usize, n: usize) -> (r: bool)
    requires
        n == a@.len(),
        n == b@.len(),
        i <= n,
        forall|j: int| 0 <= j < i ==> a@[j] == b@[j],
    ensures
        r == (a@ == b@),
    decreases n - i,
{
    if i == n {
        proof {
            assert(a@ =~= b@);
        }
        true
    } else if a.get_char(i) == b.get_char(i) {
        str_eq_from(a, b, i + 1, n)
    } else {
        proof {
            assert(a@[i as int] != b@[i as int]);
        }
        false
    }
}

} // verus!
