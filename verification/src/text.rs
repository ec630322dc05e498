//! Small verified text utilities: decimal rendering of sequence numbers and
//! ASCII-aware comparison helpers used by the configuration logic.
use vstd::prelude::*;
use vstd::string::StringExecFns;

verus! {

/// Equality of string slices, specified over their character views.
pub assume_specification[ <str as PartialEq<str>>::eq ](a: &str, b: &str) -> (r: bool)
    ensures
        r == (a@ == b@),
;

/// Compares two string slices by their characters.
pub fn str_eq(a: &str, b: &str) -> (r: bool)
    ensures
        r == (a@ == b@),
{
    <str as PartialEq<str>>::eq(a, b)
}

/// Compares two owned strings by their characters.
pub fn string_eq(a: &String, b: &String) -> (r: bool)
    ensures
        r == (a@ == b@),
{
    <String as PartialEq<String>>::eq(a, b)
}

/// The character for a single decimal digit.
pub open spec fn digit_char(d: int) -> char {
    if d == 0 {
        '0'
    } else if d == 1 {
        '1'
    } else if d == 2 {
        '2'
    } else if d == 3 {
        '3'
    } else if d == 4 {
        '4'
    } else if d == 5 {
        '5'
    } else if d == 6 {
        '6'
    } else if d == 7 {
        '7'
    } else if d == 8 {
        '8'
    } else {
        '9'
    }
}

/// The decimal rendering of a non-negative integer, most significant digit first.
pub open spec fn dec_digits(n: int) -> Seq<char>
    decreases n,
{
    if n < 10 {
        seq![digit_char(n)]
    } else {
        dec_digits(n / 10).push(digit_char(n % 10))
    }
}

fn digit_str(d: u32) -> (s: &'static str)
    requires
        d < 10,
    ensures
        s@ == seq![digit_char(d as int)],
{
    let s: &'static str = if d == 0 {
        "0"
    } else if d == 1 {
        "1"
    } else if d == 2 {
        "2"
    } else if d == 3 {
        "3"
    } else if d == 4 {
        "4"
    } else if d == 5 {
        "5"
    } else if d == 6 {
        "6"
    } else if d == 7 {
        "7"
    } else if d == 8 {
        "8"
    } else {
        "9"
    };
    proof {
        reveal_strlit("0");
        reveal_strlit("1");
        reveal_strlit("2");
        reveal_strlit("3");
        reveal_strlit("4");
        reveal_strlit("5");
        reveal_strlit("6");
        reveal_strlit("7");
        reveal_strlit("8");
        reveal_strlit("9");
        assert(s@ =~= seq![digit_char(d as int)]);
    }
    s
}

/// Renders `n` in decimal, exactly as `dec_digits` describes.
pub fn decimal_string(n: u32) -> (s: String)
    ensures
        s@ == dec_digits(n as int),
{
    let mut digits: Vec<u32> = Vec::new();
    let mut m: u32 = n;
    digits.push(m % 10);
    m = m / 10;
    while m > 0
        invariant
            forall|j: int| 0 <= j < digits@.len() ==> digits@[j] < 10,
            digits@.len() >= 1,
            dec_digits(n as int) == if m > 0 {
                dec_digits(m as int) + rev_chars(digits@)
            } else {
                rev_chars(digits@)
            },
        decreases m,
    {
        proof {
            lemma_rev_chars_push(digits@, m % 10);
        }
        digits.push(m % 10);
        m = m / 10;
    }
    let mut s = String::new();
    let mut i: usize = digits.len();
    while i > 0
        invariant
            i <= digits@.len(),
            forall|j: int| 0 <= j < digits@.len() ==> digits@[j] < 10,
            dec_digits(n as int) == rev_chars(digits@),
            s@ == rev_chars(digits@).take(digits@.len() - i),
        decreases i,
    {
        i = i - 1;
        let d = digits[i];
        s.append(digit_str(d));
        proof {
            assert(s@ =~= rev_chars(digits@).take(digits@.len() - i));
        }
    }
    proof {
        assert(s@ =~= dec_digits(n as int));
    }
    s
}

/// The digits of a sequence, reversed and turned into characters.
pub open spec fn rev_chars(digits: Seq<u32>) -> Seq<char> {
    Seq::new(digits.len(), |i: int| digit_char(digits[digits.len() - 1 - i] as int))
}

proof fn lemma_rev_chars_push(digits: Seq<u32>, d: u32)
    ensures
        rev_chars(digits.push(d)) =~= seq![digit_char(d as int)] + rev_chars(digits),
{
}

/// Lowercases one byte if it is an ASCII capital letter.
pub open spec fn ascii_lower(b: u8) -> u8 {
    if 65 <= b <= 90 {
        (b + 32) as u8
    } else {
        b
    }
}

/// Byte sequences that agree up to ASCII case.
pub open spec fn eq_ignore_ascii_case_bytes(a: Seq<u8>, b: Seq<u8>) -> bool {
    a.len() == b.len() && (forall|i: int| 0 <= i < a.len() ==> ascii_lower(a[i]) == ascii_lower(b[i]))
}

/// Compares two byte slices ignoring ASCII case, as `str::eq_ignore_ascii_case` does.
pub fn bytes_eq_ignore_ascii_case(a: &[u8], b: &[u8]) -> (r: bool)
    ensures
        r == eq_ignore_ascii_case_bytes(a@, b@),
{
    if a.len() != b.len() {
        return false;
    }
    let mut i: usize = 0;
    while i < a.len()
        invariant
            a@.len() == b@.len(),
            i <= a@.len(),
            forall|j: int| 0 <= j < i ==> ascii_lower(a@[j]) == ascii_lower(b@[j]),
        decreases a@.len() - i,
    {
        let x = lower_byte(a[i]);
        let y = lower_byte(b[i]);
        if x != y {
            return false;
        }
        i += 1;
    }
    true
}

fn lower_byte(b: u8) -> (r: u8)
    ensures
        r == ascii_lower(b),
{
    if 65 <= b && b <= 90 {
        b + 32
    } else {
        b
    }
}

/// The Unicode White_Space property, the characters a `trim` removes.
pub open spec fn is_unicode_space(c: char) -> bool {
    ||| 0x9 <= c as u32 <= 0xD
    ||| c as u32 == 0x20
    ||| c as u32 == 0x85
    ||| c as u32 == 0xA0
    ||| c as u32 == 0x1680
    ||| 0x2000 <= c as u32 <= 0x200A
    ||| c as u32 == 0x2028
    ||| c as u32 == 0x2029
    ||| c as u32 == 0x202F
    ||| c as u32 == 0x205F
    ||| c as u32 == 0x3000
}

/// The text with leading and trailing Unicode whitespace removed.
pub open spec fn trim_unicode_spaces(s: Seq<char>) -> Seq<char>
    decreases s.len(),
{
    if s.len() > 0 && is_unicode_space(s[0]) {
        trim_unicode_spaces(s.drop_first())
    } else if s.len() > 0 && is_unicode_space(s[s.len() - 1]) {
        trim_unicode_spaces(s.drop_last())
    } else {
        s
    }
}

/// Relies on str::trim: removes leading and trailing Unicode whitespace,
/// exactly the characters of `is_unicode_space`.
#[verifier::external_body]
pub(crate) fn trim_text(s: &str) -> (r: String)
    ensures
        r@ == trim_unicode_spaces(s@),
{
    s.trim().to_string()
}

} // verus!
