//! Numbers as text, and text as numbers.
use vstd::prelude::*;
use vstd::string::{StringExecFns, StringSliceAdditionalSpecFns};

verus! {

/// The character of a decimal digit.
pub open spec fn digit(d: nat) -> char {
    (48 + d) as char
}

/// A number in decimal notation, without leading zeros.
pub open spec fn decimal(n: nat) -> Seq<char>
    decreases n,
{
    if n < 10 {
        seq![digit(n)]
    } else {
        decimal(n / 10).push(digit(n % 10))
    }
}

/// A number in decimal notation, with a minus sign where it is negative.
pub open spec fn signed_decimal(n: int) -> Seq<char> {
    if n < 0 {
        seq!['-'] + decimal((-n) as nat)
    } else {
        decimal(n as nat)
    }
}

/// A decimal digit as text.
fn digit_str(d: u64) -> (s: &'static str)
    requires
        d < 10,
    ensures
        s@ == seq![digit(d as nat)],
{
    proof {
        reveal_strlit("0");
        reveal_strlit("1");
        reveal_strlit("2");
        reveal_strlit("3");
        reveal_strlit("4");
        reveal_strlit("5");
        reveal_strlit("6");
        reveal_strlit("7");
        reveal_strlit("8");
        reveal_strlit("9");
    }
    let s = match d {
        0 => "0",
        1 => "1",
        2 => "2",
        3 => "3",
        4 => "4",
        5 => "5",
        6 => "6",
        7 => "7",
        8 => "8",
        _ => "9",
    };
    assert(s@ =~= seq![digit(d as nat)]);
    s
}

/// A number in decimal notation.
pub fn decimal_string(n: u64) -> (s: String)
    ensures
        s@ == decimal(n as nat),
    decreases n,
{
    if n < 10 {
        digit_str(n).to_owned()
    } else {
        let mut s = decimal_string(n / 10);
        s.append(digit_str(n % 10));
        assert(s@ =~= decimal(n as nat));
        s
    }
}

/// A signed number in decimal notation.
pub fn signed_decimal_string(n: i64) -> (s: String)
    ensures
        s@ == signed_decimal(n as int),
{
    if n < 0 {
        let mut s = "-".to_owned();
        proof {
            reveal_strlit("-");
        }
        let magnitude: u64 = (-(n as i128)) as u64;
        let digits = decimal_string(magnitude);
        s.append(digits.as_str());
        assert(s@ =~= seq!['-'] + decimal(magnitude as nat));
        s
    } else {
        decimal_string(n as u64)
    }
}

/// The byte is a decimal digit.
pub open spec fn is_digit(b: u8) -> bool {
    48 <= b <= 57
}

/// Every byte is a decimal digit, and there is one.
pub open spec fn is_number(bytes: Seq<u8>) -> bool {
    bytes.len() > 0 && forall|i: int| 0 <= i < bytes.len() ==> is_digit(#[trigger] bytes[i])
}

/// The number that decimal digits stand for.
pub open spec fn number_value(bytes: Seq<u8>) -> nat
    decreases bytes.len(),
{
    if bytes.len() == 0 {
        0
    } else {
        number_value(bytes.drop_last()) * 10 + (bytes.last() - 48) as nat
    }
}

/// What follows a sign, where there is one.
pub open spec fn after_sign(bytes: Seq<u8>, sign: u8) -> Seq<u8> {
    if bytes.len() > 0 && bytes[0] == sign {
        bytes.drop_first()
    } else {
        bytes
    }
}

/// The number that text stands for: decimal digits, possibly after a plus
/// sign.
pub open spec fn unsigned_value(bytes: Seq<u8>) -> Option<nat> {
    let digits = after_sign(bytes, 43);
    if is_number(digits) {
        Some(number_value(digits))
    } else {
        None
    }
}

/// The number that text stands for: decimal digits, possibly after a sign.
pub open spec fn signed_value(bytes: Seq<u8>) -> Option<int> {
    if bytes.len() > 0 && bytes[0] == 45 {
        if is_number(bytes.drop_first()) {
            Some(-(number_value(bytes.drop_first()) as int))
        } else {
            None
        }
    } else {
        match unsigned_value(bytes) {
            Some(n) => Some(n as int),
            None => None,
        }
    }
}

/// The number that the decimal digits from `from` on stand for, unless it is
/// larger than `max`.
fn parse_digits(bytes: &[u8], from: usize, max: u64) -> (r: Option<u64>)
    requires
        from <= bytes@.len(),
        max <= 0xffff_ffff,
    ensures
        r == (if is_number(bytes@.skip(from as int)) && number_value(bytes@.skip(from as int))
            <= max {
            Some(number_value(bytes@.skip(from as int)) as u64)
        } else {
            None
        }),
{
    let ghost digits = bytes@.skip(from as int);
    if from == bytes.len() {
        return None;
    }
    let mut value: u64 = 0;
    let mut small: bool = true;
    let mut i: usize = from;
    assert(digits.take(0) =~= Seq::<u8>::empty());
    while i < bytes.len()
        invariant
            from <= i <= bytes@.len(),
            max <= 0xffff_ffff,
            digits == bytes@.skip(from as int),
            forall|j: int| 0 <= j < i - from ==> is_digit(#[trigger] digits[j]),
            small ==> value == number_value(digits.take(i - from)) && value <= max,
            !small ==> number_value(digits.take(i - from)) > max,
        decreases bytes@.len() - i,
    {
        let b: u8 = bytes[i];
        assert(digits[i - from] == b);
        if b < 48 || b > 57 {
            assert(!is_digit(digits[i - from]));
            return None;
        }
        assert(digits.take(i - from + 1).drop_last() =~= digits.take(i - from));
        if small {
            value = value * 10 + (b - 48) as u64;
            if value > max {
                small = false;
            }
        }
        i += 1;
    }
    assert(digits.take(digits.len() as int) =~= digits);
    if small {
        Some(value)
    } else {
        None
    }
}

/// Reads an unsigned number.
pub fn parse_u32(text: &str) -> (r: Option<u32>)
    ensures
        r is Some <==> (unsigned_value(text.spec_bytes()) matches Some(n) && n <= u32::MAX),
        r matches Some(n) ==> unsigned_value(text.spec_bytes()) == Some(n as nat),
{
    let bytes = text.as_bytes();
    let from: usize = if bytes.len() > 0 && bytes[0] == 43 {
        1
    } else {
        0
    };
    proof {
        assert(bytes@.skip(from as int) =~= after_sign(bytes@, 43));
    }
    match parse_digits(bytes, from, 0xffff_ffff) {
        Some(n) => Some(n as u32),
        None => None,
    }
}

/// Reads a signed number.
pub fn parse_i32(text: &str) -> (r: Option<i32>)
    ensures
        r is Some <==> (signed_value(text.spec_bytes()) matches Some(n) && i32::MIN <= n
            <= i32::MAX),
        r matches Some(n) ==> signed_value(text.spec_bytes()) == Some(n as int),
{
    let bytes = text.as_bytes();
    if bytes.len() > 0 && bytes[0] == 45 {
        proof {
            assert(bytes@.skip(1) =~= bytes@.drop_first());
        }
        match parse_digits(bytes, 1, 0x8000_0000) {
            Some(n) => Some((-(n as i64)) as i32),
            None => None,
        }
    } else {
        let from: usize = if bytes.len() > 0 && bytes[0] == 43 {
            1
        } else {
            0
        };
        proof {
            assert(bytes@.skip(from as int) =~= after_sign(bytes@, 43));
        }
        match parse_digits(bytes, from, 0x7fff_ffff) {
            Some(n) => Some(n as i32),
            None => None,
        }
    }
}

/// Whether two texts are the same.
pub fn same_text(a: &str, b: &str) -> (r: bool)
    ensures
        r == (a@ == b@),
{
    let x = a.as_bytes();
    let y = b.as_bytes();
    proof {
        vstd::utf8::encode_utf8_decode_utf8(a@);
        vstd::utf8::encode_utf8_decode_utf8(b@);
    }
    if x.len() != y.len() {
        return false;
    }
    let mut i: usize = 0;
    while i < x.len()
        invariant
            i <= x@.len(),
            x@.len() == y@.len(),
            x@ == a.spec_bytes(),
            y@ == b.spec_bytes(),
            forall|j: int| 0 <= j < i ==> x@[j] == y@[j],
        decreases x@.len() - i,
    {
        if x[i] != y[i] {
            return false;
        }
        i += 1;
    }
    assert(x@ =~= y@);
    true
}

/// Every character of a number in decimal notation is a digit.
proof fn lemma_decimal_digits(n: nat)
    ensures
        decimal(n).len() > 0,
        forall|i: int| 0 <= i < decimal(n).len() ==> 48 <= (#[trigger] decimal(n)[i]) as int <= 57,
        vstd::utf8::is_ascii_chars(decimal(n)),
    decreases n,
{
    if n >= 10 {
        lemma_decimal_digits(n / 10);
    }
}

/// The bytes of a number in decimal notation.
pub open spec fn decimal_bytes(n: nat) -> Seq<u8> {
    Seq::new(decimal(n).len(), |i: int| decimal(n)[i] as u8)
}

/// A number in decimal notation, character by character, stands for itself.
proof fn lemma_decimal_value(n: nat)
    ensures
        is_number(decimal_bytes(n)),
        number_value(decimal_bytes(n)) == n,
    decreases n,
{
    lemma_decimal_digits(n);
    let bytes = decimal_bytes(n);
    if n < 10 {
        assert(bytes.drop_last() =~= Seq::<u8>::empty());
        assert(number_value(bytes.drop_last()) == 0);
        assert(bytes.last() == 48 + n);
    } else {
        lemma_decimal_value(n / 10);
        assert(bytes.last() == 48 + n % 10);
        assert(bytes.drop_last() =~= decimal_bytes(n / 10));
    }
}

/// A number that was written in decimal notation reads back as the same
/// number.
pub proof fn law_decimal_reads_back(n: nat)
    ensures
        unsigned_value(vstd::utf8::encode_utf8(decimal(n))) == Some(n),
        signed_value(vstd::utf8::encode_utf8(decimal(n))) == Some(n as int),
{
    lemma_decimal_digits(n);
    lemma_decimal_value(n);
    vstd::utf8::is_ascii_chars_encode_utf8(decimal(n));
    assert(vstd::utf8::encode_utf8(decimal(n)) =~= decimal_bytes(n));
    let bytes = decimal_bytes(n);
    assert(is_digit(bytes[0]));
}

} // verus!
