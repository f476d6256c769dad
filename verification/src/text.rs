//! Text forms of numbers and identifiers.

use vstd::prelude::*;
use vstd::string::StringExecFns;

verus! {

/// The hyphenated lower-case hexadecimal form of a 128-bit identifier.
pub uninterp spec fn uuid_text(id: u128) -> Seq<char>;

/// Formats an identifier with the `Display` of `uuid::Uuid`, made of the
/// number with `uuid::Uuid::from_u128`.
///
/// Trusted: the text depends on the number alone.
#[verifier::external_body]
pub(crate) fn format_uuid(id: u128) -> (res: String)
    ensures
        res@ == uuid_text(id),
{
    uuid::Uuid::from_u128(id).to_string()
}

/// The 128-bit identifier that a text stands for, if it is the text of one.
pub uninterp spec fn uuid_value(text: Seq<char>) -> Option<u128>;

/// Parses an identifier with `uuid::Uuid::parse_str` and reads its number
/// with `uuid::Uuid::as_u128`.
///
/// Trusted: the outcome depends on the text alone.
#[verifier::external_body]
pub(crate) fn parse_uuid(text: &str) -> (res: Option<u128>)
    ensures
        res == uuid_value(text@),
{
    uuid::Uuid::parse_str(text).ok().map(|id| id.as_u128())
}

/// The decimal digits of a natural number, most significant first.
pub open spec fn decimal_text(n: int) -> Seq<char>
    decreases n,
{
    if n < 10 {
        seq![digit_char(n)]
    } else {
        decimal_text(n / 10).push(digit_char(n % 10))
    }
}

/// The character of a decimal digit.
pub open spec fn digit_char(d: int) -> char {
    if d == 0 {
        '0'
    } else if d == 1 {
        '1'
    } else if d == 2 {
        '2'
    } else if d == 3 {
        '3'
    } else if d == 4 {
        '4'
    } else if d == 5 {
        '5'
    } else if d == 6 {
        '6'
    } else if d == 7 {
        '7'
    } else if d == 8 {
        '8'
    } else {
        '9'
    }
}

/// The characters of a list of digits that is given least significant
/// digit first, most significant digit first.
pub open spec fn reversed_digits(digits: Seq<u8>) -> Seq<char> {
    Seq::new(digits.len(), |i: int| digit_char(digits[digits.len() - 1 - i] as int))
}

/// The text of one decimal digit.
fn digit_str(d: u8) -> (res: &'static str)
    requires
        d < 10,
    ensures
        res@ == seq![digit_char(d as int)],
{
    proof {
        reveal_strlit("0");
        reveal_strlit("1");
        reveal_strlit("2");
        reveal_strlit("3");
        reveal_strlit("4");
        reveal_strlit("5");
        reveal_strlit("6");
        reveal_strlit("7");
        reveal_strlit("8");
        reveal_strlit("9");
    }
    let text = if d == 0 {
        "0"
    } else if d == 1 {
        "1"
    } else if d == 2 {
        "2"
    } else if d == 3 {
        "3"
    } else if d == 4 {
        "4"
    } else if d == 5 {
        "5"
    } else if d == 6 {
        "6"
    } else if d == 7 {
        "7"
    } else if d == 8 {
        "8"
    } else {
        "9"
    };
    assert(text@ =~= seq![digit_char(d as int)]);
    text
}

/// Writes a number in decimal digits, without a sign or leading zeros.
pub fn format_decimal(n: u64) -> (res: String)
    ensures
        res@ == decimal_text(n as int),
{
    // The digits, least significant first.
    let mut digits: Vec<u8> = Vec::new();
    digits.push((n % 10) as u8);
    let mut rest: u64 = n / 10;
    assert(reversed_digits(digits@) =~= seq![digit_char((n % 10) as int)]);
    assert(decimal_text(n as int) =~= (if rest > 0 {
        decimal_text(rest as int)
    } else {
        Seq::empty()
    }) + reversed_digits(digits@));
    while rest > 0
        invariant
            digits@.len() > 0,
            forall|i: int| 0 <= i < digits@.len() ==> digits@[i] < 10,
            decimal_text(n as int) == (if rest > 0 {
                decimal_text(rest as int)
            } else {
                Seq::empty()
            }) + reversed_digits(digits@),
        decreases rest,
    {
        let ghost before = digits@;
        let d: u8 = (rest % 10) as u8;
        digits.push(d);
        proof {
            assert(reversed_digits(digits@) =~= seq![digit_char(d as int)] + reversed_digits(
                before,
            ));
            let next = rest / 10;
            assert(decimal_text(rest as int) =~= (if next > 0 {
                decimal_text(next as int)
            } else {
                Seq::empty()
            }) + seq![digit_char(d as int)]);
        }
        rest = rest / 10;
    }
    let mut out = String::new();
    let mut k: usize = digits.len();
    while k > 0
        invariant
            k <= digits@.len(),
            forall|i: int| 0 <= i < digits@.len() ==> digits@[i] < 10,
            out@ == reversed_digits(digits@).take(digits@.len() - k),
        decreases k,
    {
        let ghost before = out@;
        k = k - 1;
        out.append(digit_str(digits[k]));
        assert(out@ =~= reversed_digits(digits@).take(digits@.len() - k));
    }
    assert(reversed_digits(digits@).take(digits@.len() as int) =~= reversed_digits(digits@));
    out
}

} // verus!
