//! What holds of numbers as text.
use crate::text::{
    decimal, decimal_string, is_digit, is_number, number_value, parse_i32, parse_u32,
    same_text, signed_decimal_string, signed_value, unsigned_value,
};
use vstd::prelude::*;
use vstd::string::StringSliceAdditionalSpecFns;
use vstd::utf8::is_ascii_chars;

verus! {

/// The number that digits stand for, one after the other.
pub open spec fn stands_for(digits: Seq<char>) -> int
    decreases digits.len(),
{
    if digits.len() == 0 {
        0
    } else {
        stands_for(digits.drop_last()) * 10 + (digits.last() as int - '0' as int)
    }
}

/// There are only digits, and at least one.
pub open spec fn only_digits(text: Seq<char>) -> bool {
    &&& text.len() > 0
    &&& forall|i: int| 0 <= i < text.len() ==> '0' as int <= (#[trigger] text[i]) as int <= '9' as int
}

/// The text is the number `n` as it is commonly written: digits, with no
/// needless zero before them.
pub open spec fn reads_as(text: Seq<char>, n: int) -> bool {
    &&& only_digits(text)
    &&& text.len() > 1 ==> text[0] != '0'
    &&& stands_for(text) == n
}

/// The text is the number `n` as it is commonly written, with a minus sign
/// before it where it is negative.
pub open spec fn reads_as_signed(text: Seq<char>, n: int) -> bool {
    if n < 0 {
        text.len() > 0 && text[0] == '-' && reads_as(text.drop_first(), -n)
    } else {
        reads_as(text, n)
    }
}

/// A number in decimal notation is written as is common.
pub proof fn lemma_decimal_reads(n: nat)
    ensures
        reads_as(decimal(n), n as int),
        n > 0 ==> decimal(n)[0] != '0',
    decreases n,
{
    if n < 10 {
        assert(decimal(n).drop_last() =~= Seq::<char>::empty());
        assert(stands_for(decimal(n).drop_last()) == 0);
    } else {
        lemma_decimal_reads(n / 10);
        assert(decimal(n).drop_last() =~= decimal(n / 10));
    }
}

/// A number that is written can be read as the number it is.
pub proof fn law_number_is_written(n: u64, s: String)
    requires
        call_ensures(decimal_string, (n,), s),
    ensures
        reads_as(s@, n as int),
{
    lemma_decimal_reads(n as nat);
}

/// A signed number that is written can be read as the number it is.
pub proof fn law_signed_number_is_written(n: i64, s: String)
    requires
        call_ensures(signed_decimal_string, (n,), s),
    ensures
        reads_as_signed(s@, n as int),
{
    if n < 0 {
        lemma_decimal_reads((-n) as nat);
        assert(s@.drop_first() =~= decimal((-n) as nat));
    } else {
        lemma_decimal_reads(n as nat);
    }
}

/// The number that text gives: digits, after a plus sign or none.
pub open spec fn unsigned_reading(text: Seq<char>) -> Option<int> {
    if only_digits(text) {
        Some(stands_for(text))
    } else if text.len() > 0 && text[0] == '+' && only_digits(text.drop_first()) {
        Some(stands_for(text.drop_first()))
    } else {
        None
    }
}

/// The number that text gives: digits, after a sign or none.
pub open spec fn signed_reading(text: Seq<char>) -> Option<int> {
    if text.len() > 0 && text[0] == '-' && only_digits(text.drop_first()) {
        Some(-stands_for(text.drop_first()))
    } else {
        unsigned_reading(text)
    }
}

/// ASCII text as bytes.
spec fn bytes_of(text: Seq<char>) -> Seq<u8> {
    Seq::new(text.len(), |i: int| text[i] as u8)
}

/// Digits stand for the same number as characters and as bytes.
proof fn lemma_number_of_bytes(text: Seq<char>)
    requires
        is_ascii_chars(text),
    ensures
        is_number(bytes_of(text)) <==> only_digits(text),
        only_digits(text) ==> number_value(bytes_of(text)) == stands_for(text),
    decreases text.len(),
{
    let bytes = bytes_of(text);
    if is_number(bytes) {
        assert forall|i: int| 0 <= i < text.len() implies '0' as int <= (#[trigger] text[i]) as int
            <= '9' as int by {
            assert(is_digit(bytes[i]));
        }
    }
    if only_digits(text) {
        assert forall|i: int| 0 <= i < bytes.len() implies is_digit(#[trigger] bytes[i]) by {
            assert('0' as int <= text[i] as int <= '9' as int);
        }
        if text.len() > 1 {
            let rest = text.drop_last();
            lemma_number_of_bytes(rest);
            assert(only_digits(rest));
            assert(bytes.drop_last() =~= bytes_of(rest));
        } else {
            assert(bytes.drop_last() =~= Seq::<u8>::empty());
            assert(text.drop_last() =~= Seq::<char>::empty());
            assert(number_value(bytes.drop_last()) == 0);
            assert(stands_for(text.drop_last()) == 0);
        }
        assert('0' as int <= text.last() as int <= '9' as int);
        assert(bytes.last() == text.last() as u8);
    }
}

/// Text gives the same number as characters and as bytes.
proof fn lemma_readings(text: &str)
    requires
        is_ascii_chars(text@),
    ensures
        unsigned_value(text.spec_bytes()) is Some <==> unsigned_reading(text@) is Some,
        unsigned_value(text.spec_bytes()) matches Some(n) ==> unsigned_reading(text@) == Some(
            n as int,
        ),
        signed_value(text.spec_bytes()) == signed_reading(text@),
{
    let t = text@;
    vstd::utf8::is_ascii_chars_encode_utf8(t);
    let bytes = bytes_of(t);
    assert(text.spec_bytes() =~= bytes);
    lemma_number_of_bytes(t);
    if t.len() > 0 {
        let rest = t.drop_first();
        assert(is_ascii_chars(rest));
        lemma_number_of_bytes(rest);
        assert(bytes.drop_first() =~= bytes_of(rest));
        assert(bytes[0] == t[0] as u8);
        if only_digits(t) {
            assert('0' as int <= t[0] as int <= '9' as int);
        }
    }
}

/// An unsigned number is read from digits, after a plus sign or none, where it
/// is no larger than 32 bits hold, and from no other ASCII text.
pub proof fn law_unsigned_number_is_read(text: &str, r: Option<u32>)
    requires
        is_ascii_chars(text@),
        call_ensures(parse_u32, (text,), r),
    ensures
        r is Some <==> unsigned_reading(text@) is Some && unsigned_reading(text@)->0 <= 0xffff_ffff,
        r matches Some(n) ==> unsigned_reading(text@) == Some(n as int),
{
    lemma_readings(text);
}

/// A signed number is read from digits, after a sign or none, where 32 bits
/// hold it, and from no other ASCII text.
pub proof fn law_signed_number_is_read(text: &str, r: Option<i32>)
    requires
        is_ascii_chars(text@),
        call_ensures(parse_i32, (text,), r),
    ensures
        r is Some <==> signed_reading(text@) is Some && -0x8000_0000 <= signed_reading(text@)->0
            <= 0x7fff_ffff,
        r matches Some(n) ==> signed_reading(text@) == Some(n as int),
{
    lemma_readings(text);
}

/// A number that was written is read as the same number.
pub proof fn law_written_number_is_read(n: u32, s: String, text: &str, r: Option<u32>)
    requires
        call_ensures(decimal_string, (n as u64,), s),
        text@ == s@,
        call_ensures(parse_u32, (text,), r),
    ensures
        r == Some(n),
{
    lemma_decimal_reads(n as nat);
    assert(is_ascii_chars(text@));
    lemma_readings(text);
}

/// Texts are the same where they have the same characters.
pub proof fn law_same_text_compares_characters(a: &str, b: &str, r: bool)
    requires
        call_ensures(same_text, (a, b), r),
    ensures
        r <==> a@.len() == b@.len() && forall|i: int| 0 <= i < a@.len() ==> a@[i] == b@[i],
{
    if a@.len() == b@.len() && forall|i: int| 0 <= i < a@.len() ==> a@[i] == b@[i] {
        assert(a@ =~= b@);
    }
}

/// The number that digits stand for grows with the digits before the last.
proof fn lemma_stands_for_bounds(text: Seq<char>)
    requires
        only_digits(text),
        text.len() > 1 ==> text[0] != '0',
    ensures
        stands_for(text) >= 0,
        text.len() > 1 ==> stands_for(text) >= 10,
        text.len() == 1 ==> stands_for(text) < 10,
        text.len() > 0 && text[0] != '0' ==> stands_for(text) >= 1,
        stands_for(text) == stands_for(text.drop_last()) * 10 + (text.last() as int - '0' as int),
    decreases text.len(),
{
    let rest = text.drop_last();
    assert('0' as int <= text.last() as int <= '9' as int);
    if text.len() > 1 {
        assert(rest[0] == text[0]);
        assert(only_digits(rest));
        lemma_stands_for_bounds(rest);
    } else {
        assert(rest =~= Seq::<char>::empty());
        assert(stands_for(rest) == 0);
        assert(text[0] == text.last());
    }
}

/// There is one way to write a number.
pub proof fn lemma_same_number(a: Seq<char>, b: Seq<char>, n: int)
    requires
        reads_as(a, n),
        reads_as(b, n),
    ensures
        a == b,
    decreases a.len(),
{
    lemma_stands_for_bounds(a);
    lemma_stands_for_bounds(b);
    let x = a.drop_last();
    let y = b.drop_last();
    let p = a.last() as int - '0' as int;
    let q = b.last() as int - '0' as int;
    assert('0' as int <= a[a.len() - 1] as int <= '9' as int);
    assert('0' as int <= b[b.len() - 1] as int <= '9' as int);
    assert(stands_for(x) * 10 + p == stands_for(y) * 10 + q);
    assert(p == q && stands_for(x) == stands_for(y));
    assert(a.last() == b.last());
    if a.len() > 1 {
        assert(x[0] == a[0] && y[0] == b[0]);
        assert(only_digits(x) && only_digits(y));
        lemma_same_number(x, y, stands_for(x));
    }
    assert(a =~= x.push(a.last()));
    assert(b =~= y.push(b.last()));
    assert(x =~= y);
}

} // verus!
