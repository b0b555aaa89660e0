//! Character classes, run scanning, literal matching, decimal rendering and
//! decimal parsing: the text groundwork for the URL and markup grammars.

use vstd::prelude::*;

verus! {

/// The character classes the grammars scan runs of.
#[derive(Clone, Copy, PartialEq, Eq, Structural)]
pub enum CharClass {
    Digit,
    /// Characters allowed in a host name: letters, digits, `-` and `.`.
    Host,
    /// Characters allowed in a path segment: letters, digits, `-` and `_`.
    Word,
    /// Unicode white space, the set `char::is_whitespace` accepts.
    Space,
    /// Any character but a line feed.
    NotNl,
    /// Any character but a dollar sign, the template variable delimiter.
    NotDollar,
}

pub open spec fn spec_is_digit(c: char) -> bool {
    48 <= c as u32 && c as u32 <= 57
}

pub open spec fn spec_is_alpha(c: char) -> bool {
    (97 <= c as u32 && c as u32 <= 122) || (65 <= c as u32 && c as u32 <= 90)
}

/// The Unicode `White_Space` set, the one `char::is_whitespace` tests.
pub open spec fn spec_is_space(c: char) -> bool {
    let u = c as u32;
    u == 32 || (9 <= u && u <= 13) || u == 0x85 || u == 0xa0 || u == 0x1680 || (0x2000 <= u
        && u <= 0x200a) || u == 0x2028 || u == 0x2029 || u == 0x202f || u == 0x205f || u == 0x3000
}

pub open spec fn in_class(c: char, cls: CharClass) -> bool {
    match cls {
        CharClass::Digit => spec_is_digit(c),
        CharClass::Host => spec_is_alpha(c) || spec_is_digit(c) || c == '-' || c == '.',
        CharClass::Word => spec_is_alpha(c) || spec_is_digit(c) || c == '-' || c == '_',
        CharClass::Space => spec_is_space(c),
        CharClass::NotNl => c != '\n',
        CharClass::NotDollar => c != '$',
    }
}

/// Whether `c` falls in the class `cls`.
pub fn is_in_class(c: char, cls: CharClass) -> (r: bool)
    ensures
        r == in_class(c, cls),
{
    let u = c as u32;
    match cls {
        CharClass::Digit => 48 <= u && u <= 57,
        CharClass::Host => (97 <= u && u <= 122) || (65 <= u && u <= 90) || (48 <= u && u <= 57)
            || c == '-' || c == '.',
        CharClass::Word => (97 <= u && u <= 122) || (65 <= u && u <= 90) || (48 <= u && u <= 57)
            || c == '-' || c == '_',
        CharClass::Space => u == 32 || (9 <= u && u <= 13) || u == 0x85 || u == 0xa0 || u == 0x1680
            || (0x2000 <= u && u <= 0x200a) || u == 0x2028 || u == 0x2029 || u == 0x202f
            || u == 0x205f || u == 0x3000,
        CharClass::NotNl => c != '\n',
        CharClass::NotDollar => c != '$',
    }
}

/// The end of the run of `cls` characters that starts at `i`: the first
/// position at or after `i` holding a character outside the class, or the
/// end of the text.
pub open spec fn run_end(s: Seq<char>, i: int, cls: CharClass) -> int
    decreases s.len() - i,
{
    if i < 0 {
        0
    } else if i >= s.len() {
        s.len() as int
    } else if in_class(s[i], cls) {
        run_end(s, i + 1, cls)
    } else {
        i
    }
}

pub proof fn lemma_run_end_bounds(s: Seq<char>, i: int, cls: CharClass)
    requires
        0 <= i <= s.len(),
    ensures
        i <= run_end(s, i, cls) <= s.len(),
        forall|k: int| i <= k < run_end(s, i, cls) ==> in_class(s[k], cls),
        run_end(s, i, cls) < s.len() ==> !in_class(s[run_end(s, i, cls)], cls),
    decreases s.len() - i,
{
    if i < s.len() && in_class(s[i], cls) {
        lemma_run_end_bounds(s, i + 1, cls);
    }
}

/// Scans the run of `cls` characters starting at `i`.
pub fn scan_run(s: &str, i: usize, cls: CharClass) -> (r: usize)
    requires
        i <= s@.len(),
    ensures
        r == run_end(s@, i as int, cls),
        i <= r <= s@.len(),
{
    let n = s.unicode_len();
    let mut j = i;
    while j < n && is_in_class(s.get_char(j), cls)
        invariant
            i <= j <= n == s@.len(),
            run_end(s@, i as int, cls) == run_end(s@, j as int, cls),
        decreases n - j,
    {
        j = j + 1;
    }
    j
}

/// Whether the text `lit` stands in `s` starting at position `i`.
pub open spec fn starts_with_at(s: Seq<char>, lit: Seq<char>, i: int) -> bool {
    0 <= i && i + lit.len() <= s.len() && s.subrange(i, i + lit.len()) == lit
}

/// Compares the characters of `s` from position `i` with the text `lit`.
pub fn starts_lit(s: &str, lit: &str, i: usize) -> (r: bool)
    requires
        i <= s@.len(),
    ensures
        r == starts_with_at(s@, lit@, i as int),
{
    let n = s.unicode_len();
    let m = lit.unicode_len();
    if m > n - i {
        assert(!starts_with_at(s@, lit@, i as int));
        return false;
    }
    let mut k: usize = 0;
    while k < m
        invariant
            0 <= k <= m == lit@.len(),
            i + m <= n == s@.len(),
            forall|t: int| 0 <= t < k ==> s@[i + t] == lit@[t],
        decreases m - k,
    {
        if s.get_char(i + k) != lit.get_char(k) {
            assert(s@.subrange(i as int, i + lit@.len()) != lit@) by {
                assert(s@.subrange(i as int, i + lit@.len())[k as int] != lit@[k as int]);
            }
            return false;
        }
        k = k + 1;
    }
    assert(s@.subrange(i as int, i + lit@.len()) =~= lit@);
    true
}

/// Whether two texts hold the same characters.
pub fn str_eq(a: &str, b: &str) -> (r: bool)
    ensures
        r == (a@ == b@),
{
    let n = a.unicode_len();
    if n != b.unicode_len() {
        return false;
    }
    let mut k: usize = 0;
    while k < n
        invariant
            0 <= k <= n == a@.len(),
            a@.len() == b@.len(),
            forall|t: int| 0 <= t < k ==> a@[t] == b@[t],
        decreases n - k,
    {
        if a.get_char(k) != b.get_char(k) {
            assert(a@ != b@);
            return false;
        }
        k = k + 1;
    }
    assert(a@ =~= b@);
    true
}

/// The decimal digit character for a value below ten.
pub open spec fn digit_char(d: nat) -> char {
    if d == 0 {
        '0'
    } else if d == 1 {
        '1'
    } else if d == 2 {
        '2'
    } else if d == 3 {
        '3'
    } else if d == 4 {
        '4'
    } else if d == 5 {
        '5'
    } else if d == 6 {
        '6'
    } else if d == 7 {
        '7'
    } else if d == 8 {
        '8'
    } else {
        '9'
    }
}

/// The decimal rendering of `n`, most significant digit first, with no
/// leading zero except for zero itself.
pub open spec fn dec_digits(n: nat) -> Seq<char>
    decreases n,
{
    if n < 10 {
        seq![digit_char(n)]
    } else {
        dec_digits(n / 10) + seq![digit_char(n % 10)]
    }
}

fn digit_str(d: u64) -> (r: &'static str)
    requires
        d < 10,
    ensures
        r@ =~= seq![digit_char(d as nat)],
{
    proof {
        reveal_strlit("0");
        reveal_strlit("1");
        reveal_strlit("2");
        reveal_strlit("3");
        reveal_strlit("4");
        reveal_strlit("5");
        reveal_strlit("6");
        reveal_strlit("7");
        reveal_strlit("8");
        reveal_strlit("9");
    }
    if d == 0 {
        "0"
    } else if d == 1 {
        "1"
    } else if d == 2 {
        "2"
    } else if d == 3 {
        "3"
    } else if d == 4 {
        "4"
    } else if d == 5 {
        "5"
    } else if d == 6 {
        "6"
    } else if d == 7 {
        "7"
    } else if d == 8 {
        "8"
    } else {
        "9"
    }
}

/// Renders `n` in decimal.
pub fn u64_to_string(n: u64) -> (r: String)
    ensures
        r@ == dec_digits(n as nat),
    decreases n,
{
    if n < 10 {
        String::from_str(digit_str(n))
    } else {
        let mut s = u64_to_string(n / 10);
        s.append(digit_str(n % 10));
        s
    }
}

/// The numeric value of a digit character.
pub open spec fn digit_val(c: char) -> nat {
    (c as u32 - 48) as nat
}

/// The value of a digit sequence read most significant digit first.
pub open spec fn digits_val(s: Seq<char>) -> nat
    decreases s.len(),
{
    if s.len() == 0 {
        0
    } else {
        digits_val(s.drop_last()) * 10 + digit_val(s.last())
    }
}

proof fn lemma_digits_val_step(s: Seq<char>, k: int)
    requires
        0 <= k < s.len(),
    ensures
        digits_val(s.subrange(0, k + 1)) == digits_val(s.subrange(0, k)) * 10 + digit_val(s[k]),
{
    let t = s.subrange(0, k + 1);
    assert(t.drop_last() =~= s.subrange(0, k));
}

proof fn lemma_digits_val_mono(s: Seq<char>, k: int)
    requires
        0 <= k <= s.len(),
    ensures
        digits_val(s.subrange(0, k)) <= digits_val(s),
    decreases s.len() - k,
{
    if k == s.len() {
        assert(s.subrange(0, k) =~= s);
    } else {
        lemma_digits_val_step(s, k);
        lemma_digits_val_mono(s, k + 1);
    }
}

/// The digits of a decimal literal: the text after an optional leading `+`.
pub open spec fn digits_body(s: Seq<char>) -> Seq<char> {
    if s.len() > 0 && s[0] == '+' {
        s.subrange(1, s.len() as int)
    } else {
        s
    }
}

pub open spec fn all_digits(s: Seq<char>) -> bool {
    forall|i: int| 0 <= i < s.len() ==> spec_is_digit(s[i])
}

/// What `str::parse` yields for an unsigned 64-bit integer: an optional
/// leading `+`, then only digits, and a value that fits.
pub open spec fn spec_parse_u64(s: Seq<char>) -> Option<u64> {
    if digits_body(s).len() == 0 || !all_digits(digits_body(s)) {
        None
    } else if digits_val(digits_body(s)) > u64::MAX {
        None
    } else {
        Some(digits_val(digits_body(s)) as u64)
    }
}

/// What `str::parse` yields for an unsigned 32-bit integer.
pub open spec fn spec_parse_u32(s: Seq<char>) -> Option<u32> {
    match spec_parse_u64(s) {
        Some(v) => if v <= u32::MAX {
            Some(v as u32)
        } else {
            None
        },
        None => None,
    }
}

/// Reads an unsigned 64-bit decimal integer, as `str::parse` does.
pub fn parse_u64(s: &str) -> (r: Option<u64>)
    ensures
        r == spec_parse_u64(s@),
{
    let n = s.unicode_len();
    let start: usize = if n > 0 && s.get_char(0) == '+' {
        1
    } else {
        0
    };
    let ghost body = digits_body(s@);
    assert(body.len() == n - start);
    assert(forall|t: int| 0 <= t < body.len() ==> body[t] == s@[start + t]);
    if start == n {
        return None;
    }
    let mut acc: u64 = 0;
    let mut k: usize = start;
    while k < n
        invariant
            start <= k <= n == s@.len(),
            body == digits_body(s@),
            body.len() == n - start,
            body.len() > 0,
            forall|t: int| 0 <= t < body.len() ==> body[t] == s@[start + t],
            forall|t: int| 0 <= t < k - start ==> spec_is_digit(body[t]),
            acc == digits_val(body.subrange(0, k - start)),
        decreases n - k,
    {
        let c = s.get_char(k);
        if !is_in_class(c, CharClass::Digit) {
            proof {
                let w = k - start;
                assert(!all_digits(body)) by {
                    assert(0 <= w < body.len() && !spec_is_digit(body[w]));
                }
            }
            return None;
        }
        let d: u64 = (c as u32 - 48) as u64;
        assert(d == digit_val(body[k - start]) && d < 10);
        proof {
            lemma_digits_val_step(body, k - start);
        }
        let bound = (u64::MAX - d) / 10;
        if acc > bound {
            proof {
                assert(acc * 10 + d > u64::MAX) by {
                    let m = u64::MAX as int;
                    assert((m - d) == ((m - d) / 10) * 10 + (m - d) % 10);
                    assert(acc * 10 >= (bound + 1) * 10) by (nonlinear_arith)
                        requires
                            acc >= bound + 1,
                    ;
                }
                assert(digits_val(body.subrange(0, k + 1 - start)) == acc * 10 + d);
                lemma_digits_val_mono(body, k + 1 - start);
                assert(digits_val(body) >= digits_val(body.subrange(0, k + 1 - start)));
                assert(digits_val(body) > u64::MAX);
            }
            return None;
        }
        proof {
            assert(acc * 10 + d <= u64::MAX) by {
                let m = u64::MAX as int;
                assert((m - d) == ((m - d) / 10) * 10 + (m - d) % 10);
                assert(acc * 10 <= bound * 10) by (nonlinear_arith)
                    requires
                        acc <= bound,
                ;
            }
        }
        acc = acc * 10 + d;
        k = k + 1;
    }
    assert(body.subrange(0, (n - start) as int) =~= body);
    Some(acc)
}

/// Reads an unsigned 32-bit decimal integer, as `str::parse` does.
pub fn parse_u32(s: &str) -> (r: Option<u32>)
    ensures
        r == spec_parse_u32(s@),
{
    match parse_u64(s) {
        Some(v) => if v <= u32::MAX as u64 {
            Some(v as u32)
        } else {
            None
        },
        None => None,
    }
}

/// Relies on `String::push`: appends the one character to the end.
#[verifier::external_body]
pub fn push_char(s: &mut String, c: char)
    ensures
        final(s)@ == old(s)@.push(c),
{
    s.push(c);
}

} // verus!
