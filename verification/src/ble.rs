//! The objects of a low-energy connection, as plain values.
//!
//! The driver that talks to the radio keeps the live objects; here a device, a service or a
//! characteristic is the handle by which the driver finds it again, with what decisions read
//! of it.
use vstd::prelude::*;

#[allow(unused_imports)]
use crate::text::{contains_text, law_contains_text, lower, lower_char, reads, same_letter};
use crate::text::{chars_of, contains_chars, lowercase};

verus! {

/// The radio of this machine. There is at most one, so nothing tells two of them apart.
#[derive(Debug, Clone, Copy, PartialEq, Eq, Structural)]
pub struct Adapter;

/// A peripheral that the driver has found.
#[derive(Debug, Clone, Copy, PartialEq, Eq, Structural)]
pub struct BluestDevice {
    pub handle: u64,
}

/// A GATT service of a connected peripheral.
#[derive(Debug, Clone, Copy, PartialEq, Eq, Structural)]
pub struct BluestService {
    pub uuid: Uuid,
    pub handle: u64,
}

/// A GATT characteristic of a connected peripheral.
#[derive(Debug, Clone, Copy, PartialEq, Eq, Structural)]
pub struct Characteristic {
    pub uuid: Uuid,
    pub handle: u64,
}

/// A universally unique identifier: a number of 128 bits.
#[derive(Debug, Clone, Copy, PartialEq, Eq, Hash, Structural)]
pub struct Uuid(pub u128);

impl Uuid {
    pub fn from_u128(value: u128) -> (r: Uuid)
        ensures
            r.0 == value,
    {
        Uuid(value)
    }

    pub fn as_u128(&self) -> (r: u128)
        ensures
            r == self.0,
    {
        self.0
    }
}

/// The lowercase hexadecimal digit of a value below sixteen.
pub open spec fn hex_char(value: int) -> char {
    if value < 10 {
        (0x30 + value) as char
    } else {
        (0x61 + value - 10) as char
    }
}

/// The thirty-two lowercase hexadecimal digits of a 128-bit number, the highest first.
pub open spec fn uuid_digits(value: u128) -> Seq<char> {
    Seq::new(
        32,
        |i: int|
            hex_char(value as int / vstd::arithmetic::power::pow(16, (31 - i) as nat) % 16),
    )
}

/// The same digits in groups of 8, 4, 4, 4 and 12 with a hyphen between neighbouring groups.
pub open spec fn hyphenated(value: u128) -> Seq<char> {
    let d = uuid_digits(value);
    d.subrange(0, 8) + seq!['-'] + d.subrange(8, 12) + seq!['-'] + d.subrange(12, 16) + seq!['-']
        + d.subrange(16, 20) + seq!['-'] + d.subrange(20, 32)
}

/// `uuid::Uuid::from_u128` reads the number as sixteen bytes, the highest first, and the type's
/// `Display`, through `to_string`, writes them as lowercase hexadecimal digits in the hyphenated
/// form.
#[verifier::external_body]
fn uuid_to_string(value: u128) -> (r: String)
    ensures
        r@ == hyphenated(value),
{
    uuid::Uuid::from_u128(value).to_string()
}

/// The identifier's digits contain the given text, in whatever case that text is written.
pub open spec fn uuid_has(uuid: Uuid, needle: Seq<char>) -> bool {
    contains_text(uuid_digits(uuid.0), lower(needle))
}

/// Whether the identifier's digits contain the given text, in whatever case it is written.
pub fn uuid_contains(uuid: &Uuid, needle: &str) -> (r: bool)
    ensures
        r == uuid_has(*uuid, needle@),
{
    let lowered_needle = lowercase(&chars_of(needle));
    let text = chars_of(uuid_to_string(uuid.0).as_str());
    let mut kept: Vec<char> = Vec::new();
    let ghost keep = |c: char| c != '-';
    proof {
        reveal(Seq::filter);
        assert(text@.take(0).filter(keep) == Seq::<char>::empty());
    }
    for i in 0..text.len()
        invariant
            keep == (|c: char| c != '-'),
            kept@ == text@.take(i as int).filter(keep),
    {
        proof {
            text@.take(i as int).lemma_filter_push(text@[i as int], keep);
            assert(text@.take(i + 1) == text@.take(i as int).push(text@[i as int]));
        }
        if text[i] != '-' {
            kept.push(text[i]);
        }
    }
    assert(text@.take(text@.len() as int) == text@);
    let haystack = lowercase(&kept);
    proof {
        lemma_digits_without_hyphens(uuid.0);
        lemma_digits_are_lowercase(uuid.0);
        assert(haystack@ =~= uuid_digits(uuid.0));
    }
    contains_chars(&haystack, &lowered_needle)
}

proof fn lemma_digits_are_lowercase(value: u128)
    ensures
        forall|i: int|
            0 <= i < 32 ==> {
                let c = #[trigger] uuid_digits(value)[i];
                c != '-' && lower_char(c) == c
            },
{
    assert forall|i: int| 0 <= i < 32 implies {
        let c = #[trigger] uuid_digits(value)[i];
        c != '-' && lower_char(c) == c
    } by {
        let n = value as int / vstd::arithmetic::power::pow(16, (31 - i) as nat) % 16;
        assert(0 <= n < 16);
        assert(uuid_digits(value)[i] == hex_char(n));
    }
}

proof fn lemma_nothing_to_drop(s: Seq<char>)
    requires
        forall|i: int| 0 <= i < s.len() ==> #[trigger] s[i] != '-',
    ensures
        s.filter(|c: char| c != '-') == s,
    decreases s.len(),
{
    reveal(Seq::filter);
    if s.len() > 0 {
        lemma_nothing_to_drop(s.drop_last());
        assert(s.drop_last().push(s.last()) =~= s);
    }
}

proof fn lemma_digits_without_hyphens(value: u128)
    ensures
        hyphenated(value).filter(|c: char| c != '-') == uuid_digits(value),
{
    broadcast use Seq::filter_distributes_over_add;

    let keep = |c: char| c != '-';
    let d = uuid_digits(value);
    lemma_digits_are_lowercase(value);
    lemma_nothing_to_drop(d.subrange(0, 8));
    lemma_nothing_to_drop(d.subrange(8, 12));
    lemma_nothing_to_drop(d.subrange(12, 16));
    lemma_nothing_to_drop(d.subrange(16, 20));
    lemma_nothing_to_drop(d.subrange(20, 32));
    assert(seq!['-'].filter(keep) =~= Seq::<char>::empty()) by {
        reveal_with_fuel(Seq::filter, 2);
    }
    assert(hyphenated(value).filter(keep) =~= d);
}

/// How the text that is looked for is written makes no difference: in upper case, in lower case
/// or mixed.
pub proof fn law_uuid_search_ignores_case(uuid: Uuid, a: Seq<char>, b: Seq<char>)
    requires
        crate::text::equal_ignoring_case(a, b),
    ensures
        uuid_has(uuid, a) == uuid_has(uuid, b),
{
}

/// From position `at` on, the digits of an identifier are the characters of a text, in whatever
/// case those are written.
pub open spec fn digits_read(uuid: Uuid, needle: Seq<char>, at: int) -> bool {
    &&& 0 <= at <= 32 - needle.len()
    &&& forall|k: int|
        0 <= k < needle.len() ==> same_letter(uuid_digits(uuid.0)[at + k], #[trigger] needle[k])
}

/// An identifier has a text exactly where its digits, from some place on, are the characters of
/// that text, in whatever case those are written.
pub proof fn law_uuid_has(uuid: Uuid, needle: Seq<char>)
    ensures
        uuid_has(uuid, needle) <==> exists|at: int| #[trigger] digits_read(uuid, needle, at),
{
    let digits = uuid_digits(uuid.0);
    let small = lower(needle);
    law_contains_text(digits, small);
    assert forall|at: int|
        0 <= at <= 32 - needle.len() implies #[trigger] reads(digits, small, at) == digits_read(
        uuid,
        needle,
        at,
    ) by {
        assert forall|k: int| 0 <= k < needle.len() implies (digits[at + k] == #[trigger] small[k])
            == same_letter(digits[at + k], needle[k]) by {
            let n = uuid.0 as int / vstd::arithmetic::power::pow(16, (31 - (at + k)) as nat) % 16;
            assert(0 <= n < 16);
            assert(digits[at + k] == hex_char(n));
        }
        if reads(digits, small, at) {
            assert forall|k: int| 0 <= k < needle.len() implies same_letter(
                digits[at + k],
                #[trigger] needle[k],
            ) by {
                assert(digits[at + k] == small[k]);
            }
        }
        if digits_read(uuid, needle, at) {
            assert forall|k: int| 0 <= k < small.len() implies digits[at + k] == #[trigger] small[k] by {
                assert(same_letter(digits[at + k], needle[k]));
            }
        }
    }
    if uuid_has(uuid, needle) {
        let at = choose|at: int| #[trigger] reads(digits, small, at);
        assert(digits_read(uuid, needle, at));
    }
    if exists|at: int| #[trigger] digits_read(uuid, needle, at) {
        let at = choose|at: int| #[trigger] digits_read(uuid, needle, at);
        assert(reads(digits, small, at));
    }
}

/// The value of a lowercase hexadecimal digit.
pub open spec fn digit_value(c: char) -> int {
    if '0' <= c <= '9' {
        c as int - 0x30
    } else {
        c as int - 0x61 + 10
    }
}

/// The number that a text of hexadecimal digits writes, the highest digit first.
pub open spec fn number_written(digits: Seq<char>) -> int
    decreases digits.len(),
{
    if digits.len() == 0 {
        0
    } else {
        16 * number_written(digits.drop_last()) + digit_value(digits.last())
    }
}

/// The digits of an identifier are thirty-two lowercase hexadecimal digits that write its number.
pub proof fn law_digits_write_the_number(value: u128)
    ensures
        uuid_digits(value).len() == 32,
        forall|i: int|
            0 <= i < 32 ==> {
                let c = #[trigger] uuid_digits(value)[i];
                '0' <= c <= '9' || 'a' <= c <= 'f'
            },
        number_written(uuid_digits(value)) == value,
{
    assert forall|i: int| 0 <= i < 32 implies {
        let c = #[trigger] uuid_digits(value)[i];
        '0' <= c <= '9' || 'a' <= c <= 'f'
    } by {
        let n = value as int / vstd::arithmetic::power::pow(16, (31 - i) as nat) % 16;
        assert(0 <= n < 16);
        assert(uuid_digits(value)[i] == hex_char(n));
    }
    lemma_number_written(value, 32);
    assert(uuid_digits(value).take(32) =~= uuid_digits(value));
    assert(vstd::arithmetic::power::pow(16, 0) == 1) by {
        reveal(vstd::arithmetic::power::pow);
    }
    assert(value as int / 1 == value);
}

proof fn lemma_number_written(value: u128, n: int)
    requires
        0 <= n <= 32,
    ensures
        number_written(uuid_digits(value).take(n)) == value as int / vstd::arithmetic::power::pow(
            16,
            (32 - n) as nat,
        ),
    decreases n,
{
    let digits = uuid_digits(value);
    let v = value as int;
    if n == 0 {
        assert(vstd::arithmetic::power::pow(16, 32) == 0x1_0000_0000_0000_0000_0000_0000_0000_0000int) by {
            reveal_with_fuel(vstd::arithmetic::power::pow, 33);
        }
        assert(v / 0x1_0000_0000_0000_0000_0000_0000_0000_0000int == 0);
    } else {
        lemma_number_written(value, n - 1);
        let part = digits.take(n);
        assert(part.drop_last() =~= digits.take(n - 1));
        let low = vstd::arithmetic::power::pow(16, (32 - n) as nat);
        let high = vstd::arithmetic::power::pow(16, (33 - n) as nat);
        assert(high == 16 * low && low > 0) by {
            reveal(vstd::arithmetic::power::pow);
            vstd::arithmetic::power::lemma_pow_positive(16, (32 - n) as nat);
        }
        let digit = v / low % 16;
        assert(part.last() == hex_char(digit));
        assert(digit_value(hex_char(digit)) == digit);
        vstd::arithmetic::div_mod::lemma_div_denominator(v, low, 16);
        vstd::arithmetic::mul::lemma_mul_is_commutative(low, 16);
        vstd::arithmetic::div_mod::lemma_fundamental_div_mod(v / low, 16);
    }
}

} // verus!
