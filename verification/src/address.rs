//! Device addresses and the key by which two of them name the same device.
use vstd::prelude::*;

use crate::text::{chars_of, digits_of, string_of, to_upper, trimmed, uppercase};
#[allow(unused_imports)]
use crate::text::{
    differ_only_in_case, equal_ignoring_case, hex_digits, is_hex, is_white_space, law_upper, lower, lower_char,
    same_letter, trim, trim_end, trim_start, upper, upper_char,
};

verus! {

/// How many hexadecimal digits a hardware address has.
pub const ADDRESS_DIGITS: usize = 12;

/// Twelve hexadecimal digits as a hardware address: six pairs in upper case, with a colon
/// between neighbouring pairs.
pub open spec fn colon_pairs(digits: Seq<char>) -> Seq<char> {
    Seq::new(
        17,
        |i: int|
            if i % 3 == 2 {
                ':'
            } else {
                upper_char(digits[i / 3 * 2 + i % 3])
            },
    )
}

/// The key of an address: the last twelve hexadecimal digits of the trimmed text as a hardware
/// address, or the trimmed text in upper case where it has fewer than twelve.
pub open spec fn dedup_key(raw: Seq<char>) -> Seq<char> {
    let s = trim(raw);
    let hex = hex_digits(s);
    if hex.len() >= ADDRESS_DIGITS {
        colon_pairs(hex.skip(hex.len() - ADDRESS_DIGITS))
    } else {
        upper(s)
    }
}

/// The key under which an address is compared with others.
pub fn normalize_addr_for_dedup(raw: &str) -> (key: String)
    ensures
        key@ == dedup_key(raw@),
{
    let s = trimmed(&chars_of(raw));
    let hex = digits_of(&s);
    if hex.len() >= ADDRESS_DIGITS {
        let count: usize = hex.len();
        let from: usize = count - ADDRESS_DIGITS;
        let ghost digits = hex@.skip(from as int);
        let mut out: Vec<char> = Vec::new();
        for i in 0usize..17usize
            invariant
                count == hex@.len(),
                from + ADDRESS_DIGITS == count,
                digits == hex@.skip(from as int),
                out@ == colon_pairs(digits).take(i as int),
        {
            if i % 3 == 2 {
                out.push(':');
            } else {
                out.push(to_upper(hex[from + (i / 3 * 2 + i % 3)]));
            }
            assert(out@ == colon_pairs(digits).take(i + 1));
        }
        assert(colon_pairs(digits).take(17) == colon_pairs(digits));
        return string_of(&out);
    }
    string_of(&uppercase(&s))
}

/// Putting a text in upper case and trimming it can be done in either order.
proof fn lemma_trim_start_upper(s: Seq<char>)
    ensures
        trim_start(upper(s)) == upper(trim_start(s)),
    decreases s.len(),
{
    if s.len() > 0 && is_white_space(s.first()) {
        lemma_trim_start_upper(s.drop_first());
        assert(upper(s).drop_first() == upper(s.drop_first()));
        assert(upper(s).first() == upper_char(s.first()));
    } else if s.len() > 0 {
        assert(upper(s).first() == upper_char(s.first()));
    }
}

proof fn lemma_trim_end_upper(s: Seq<char>)
    ensures
        trim_end(upper(s)) == upper(trim_end(s)),
    decreases s.len(),
{
    if s.len() > 0 && is_white_space(s.last()) {
        lemma_trim_end_upper(s.drop_last());
        assert(upper(s).drop_last() == upper(s.drop_last()));
        assert(upper(s).last() == upper_char(s.last()));
    } else if s.len() > 0 {
        assert(upper(s).last() == upper_char(s.last()));
    }
}

proof fn lemma_hex_digits_upper(s: Seq<char>)
    ensures
        hex_digits(upper(s)) == upper(hex_digits(s)),
    decreases s.len(),
{
    reveal(Seq::filter);
    if s.len() > 0 {
        lemma_hex_digits_upper(s.drop_last());
        assert(upper(s).drop_last() == upper(s.drop_last()));
        assert(upper(s).last() == upper_char(s.last()));
        assert(hex_digits(upper(s)) =~= upper(hex_digits(s)));
    } else {
        assert(hex_digits(upper(s)) =~= upper(hex_digits(s)));
    }
}

/// Putting a text in upper case leaves its key as it is.
proof fn lemma_key_of_upper(s: Seq<char>)
    ensures
        dedup_key(upper(s)) == dedup_key(s),
{
    lemma_trim_start_upper(s);
    lemma_trim_end_upper(trim_start(s));
    let t = trim(s);
    assert(trim(upper(s)) == upper(t));
    lemma_hex_digits_upper(t);
    let hex = hex_digits(t);
    assert(hex_digits(upper(t)).len() == hex.len());
    if hex.len() >= ADDRESS_DIGITS {
        let n = hex.len() - ADDRESS_DIGITS;
        assert(colon_pairs(upper(hex).skip(n)) =~= colon_pairs(hex.skip(n)));
    } else {
        assert(upper(upper(t)) =~= upper(t));
    }
}

proof fn lemma_trim_start_result(s: Seq<char>)
    ensures
        trim_start(s).len() > 0 ==> !is_white_space(trim_start(s).first()),
        trim_start(s).len() > 0 ==> s.len() > 0 && trim_start(s).last() == s.last(),
        trim_start(s).len() == 0 <==> forall|i: int| 0 <= i < s.len() ==> is_white_space(#[trigger] s[i]),
    decreases s.len(),
{
    if s.len() > 0 && is_white_space(s.first()) {
        let rest = s.drop_first();
        lemma_trim_start_result(rest);
        if forall|i: int| 0 <= i < s.len() ==> is_white_space(#[trigger] s[i]) {
            assert forall|i: int| 0 <= i < rest.len() implies is_white_space(#[trigger] rest[i]) by {
                assert(rest[i] == s[i + 1]);
            }
        }
        if trim_start(s).len() == 0 {
            assert forall|i: int| 0 <= i < s.len() implies is_white_space(#[trigger] s[i]) by {
                if i > 0 {
                    assert(s[i] == rest[i - 1]);
                }
            }
        }
    }
}

proof fn lemma_trim_end_result(s: Seq<char>)
    ensures
        trim_end(s).len() > 0 ==> !is_white_space(trim_end(s).last()),
        trim_end(s).len() > 0 ==> s.len() > 0 && trim_end(s).first() == s.first(),
        s.len() > 0 && !is_white_space(s.first()) ==> trim_end(s).len() > 0,
    decreases s.len(),
{
    if s.len() > 0 && is_white_space(s.last()) {
        lemma_trim_end_result(s.drop_last());
    }
}

/// Trimming a trimmed text changes nothing.
proof fn lemma_trim_twice(s: Seq<char>)
    ensures
        trim(trim(s)) == trim(s),
{
    lemma_trim_start_result(s);
    lemma_trim_end_result(trim_start(s));
}

/// The key of an address names that address: taking the key twice is taking it once.
pub proof fn law_key_is_its_own_key(raw: Seq<char>)
    ensures
        dedup_key(dedup_key(raw)) == dedup_key(raw),
{
    let t = trim(raw);
    let hex = hex_digits(t);
    if hex.len() >= ADDRESS_DIGITS {
        let digits = hex.skip(hex.len() - ADDRESS_DIGITS);
        let key = colon_pairs(digits);
        assert forall|i: int| 0 <= i < hex.len() implies is_hex(#[trigger] hex[i]) by {
            t.lemma_filter_pred(|c: char| is_hex(c), i);
        }
        assert(is_hex(hex[hex.len() - ADDRESS_DIGITS]));
        assert(key.first() == upper_char(digits[0]));
        assert(key.last() == upper_char(digits[11]));
        assert(is_hex(hex[hex.len() - 1]));
        assert(trim(key) == key);
        lemma_digits_of_colon_pairs(digits);
        let again = hex_digits(key);
        assert(again == upper(digits));
        assert(again.skip(0) == again);
        assert(colon_pairs(upper(digits)) =~= key);
    } else {
        lemma_trim_twice(raw);
        assert(dedup_key(t) == dedup_key(raw));
        lemma_key_of_upper(t);
    }
}

/// The digits of a hardware address are the digits it was made of, in upper case.
proof fn lemma_digits_of_colon_pairs(digits: Seq<char>)
    requires
        digits.len() == ADDRESS_DIGITS,
        forall|i: int| 0 <= i < digits.len() ==> is_hex(#[trigger] digits[i]),
    ensures
        hex_digits(colon_pairs(digits)) == upper(digits),
{
    lemma_digits_of_prefix(digits, 17);
    assert(colon_pairs(digits).take(17) == colon_pairs(digits));
    assert(upper(digits).take(12) == upper(digits));
}

proof fn lemma_digits_of_prefix(digits: Seq<char>, n: int)
    requires
        digits.len() == ADDRESS_DIGITS,
        forall|i: int| 0 <= i < digits.len() ==> is_hex(#[trigger] digits[i]),
        0 <= n <= 17,
    ensures
        hex_digits(colon_pairs(digits).take(n)) == upper(digits).take(n - n / 3),
    decreases n,
{
    reveal(Seq::filter);
    let key = colon_pairs(digits);
    if n > 0 {
        lemma_digits_of_prefix(digits, n - 1);
        let i = n - 1;
        assert(key.take(n).drop_last() == key.take(i));
        assert(key.take(n).last() == key[i]);
        if i % 3 == 2 {
            assert(n - n / 3 == i - i / 3);
        } else {
            let k = i / 3 * 2 + i % 3;
            assert(k == i - i / 3);
            assert(n - n / 3 == k + 1);
            assert(is_hex(digits[k]));
            assert(upper(digits)[k] == key[i]);
            assert(upper(digits).take(k + 1) =~= upper(digits).take(k).push(key[i]));
        }
    } else {
        assert(hex_digits(key.take(0)) =~= upper(digits).take(0));
    }
}

/// An address has the empty key exactly where it is blank: nothing but white space.
pub proof fn law_empty_key_means_blank(raw: Seq<char>)
    ensures
        dedup_key(raw).len() == 0 <==> forall|i: int|
            0 <= i < raw.len() ==> is_white_space(#[trigger] raw[i]),
{
    lemma_trim_start_result(raw);
    lemma_trim_end_result(trim_start(raw));
}

/// Two addresses that differ only in the case of letters have the same key.
pub proof fn law_key_ignores_case(a: Seq<char>, b: Seq<char>)
    requires
        equal_ignoring_case(a, b),
    ensures
        dedup_key(a) == dedup_key(b),
{
    assert(lower(a).len() == lower(b).len());
    assert forall|i: int| 0 <= i < a.len() implies upper_char(#[trigger] a[i]) == upper_char(b[i]) by {
        assert(lower(a)[i] == lower(b)[i]);
    }
    assert(upper(a) =~= upper(b));
    lemma_key_of_upper(a);
    lemma_key_of_upper(b);
}

proof fn lemma_hex_digits_trim_start(s: Seq<char>)
    ensures
        hex_digits(trim_start(s)) == hex_digits(s),
    decreases s.len(),
{
    if s.len() > 0 && is_white_space(s.first()) {
        lemma_hex_digits_trim_start(s.drop_first());
        assert(s =~= seq![s.first()] + s.drop_first());
        Seq::filter_distributes_over_add(seq![s.first()], s.drop_first(), |c: char| is_hex(c));
        reveal_with_fuel(Seq::filter, 2);
        assert(hex_digits(seq![s.first()]) =~= Seq::<char>::empty());
    }
}

proof fn lemma_hex_digits_trim_end(s: Seq<char>)
    ensures
        hex_digits(trim_end(s)) == hex_digits(s),
    decreases s.len(),
{
    reveal(Seq::filter);
    if s.len() > 0 && is_white_space(s.last()) {
        lemma_hex_digits_trim_end(s.drop_last());
    }
}

/// The key of an address with at least twelve hexadecimal digits depends on the last twelve of
/// them alone, in whatever case: separators and white space do not count.
pub proof fn law_key_reads_last_digits(a: Seq<char>, b: Seq<char>)
    requires
        hex_digits(a).len() >= ADDRESS_DIGITS,
        hex_digits(b).len() >= ADDRESS_DIGITS,
        equal_ignoring_case(
            hex_digits(a).skip(hex_digits(a).len() - ADDRESS_DIGITS),
            hex_digits(b).skip(hex_digits(b).len() - ADDRESS_DIGITS),
        ),
    ensures
        dedup_key(a) == dedup_key(b),
        dedup_key(a) == colon_pairs(hex_digits(a).skip(hex_digits(a).len() - ADDRESS_DIGITS)),
{
    lemma_hex_digits_trim_start(a);
    lemma_hex_digits_trim_end(trim_start(a));
    lemma_hex_digits_trim_start(b);
    lemma_hex_digits_trim_end(trim_start(b));
    let x = hex_digits(a).skip(hex_digits(a).len() - ADDRESS_DIGITS);
    let y = hex_digits(b).skip(hex_digits(b).len() - ADDRESS_DIGITS);
    assert forall|i: int| 0 <= i < 12 implies upper_char(#[trigger] x[i]) == upper_char(y[i]) by {
        assert(lower(x)[i] == lower(y)[i]);
    }
    assert(colon_pairs(x) =~= colon_pairs(y));
}

/// Two texts that agree in upper case differ at most in the case of letters, and the other way
/// round.
proof fn lemma_upper_and_lower(a: Seq<char>, b: Seq<char>)
    ensures
        upper(a) == upper(b) <==> equal_ignoring_case(a, b),
{
    if upper(a) == upper(b) {
        assert(upper(a).len() == upper(b).len());
        assert forall|i: int| 0 <= i < a.len() implies lower(a)[i] == lower(b)[i] by {
            assert(upper(a)[i] == upper(b)[i]);
            assert(lower_char(a[i]) == lower_char(b[i]));
        }
        assert(lower(a) =~= lower(b));
    }
    if equal_ignoring_case(a, b) {
        assert(lower(a).len() == lower(b).len());
        assert forall|i: int| 0 <= i < a.len() implies upper(a)[i] == upper(b)[i] by {
            assert(lower(a)[i] == lower(b)[i]);
            assert(upper_char(a[i]) == upper_char(b[i]));
        }
        assert(upper(a) =~= upper(b));
    }
}

/// The last twelve hexadecimal digits of a text that has so many.
pub open spec fn last_digits(raw: Seq<char>) -> Seq<char> {
    hex_digits(raw).skip(hex_digits(raw).len() - ADDRESS_DIGITS)
}

proof fn lemma_key_by_digits(raw: Seq<char>)
    ensures
        hex_digits(trim(raw)) == hex_digits(raw),
        hex_digits(raw).len() >= ADDRESS_DIGITS ==> {
            &&& dedup_key(raw) == colon_pairs(last_digits(raw))
            &&& last_digits(raw).len() == ADDRESS_DIGITS
            &&& hex_digits(dedup_key(raw)) == upper(last_digits(raw))
        },
        hex_digits(raw).len() < ADDRESS_DIGITS ==> {
            &&& dedup_key(raw) == upper(trim(raw))
            &&& hex_digits(dedup_key(raw)).len() == hex_digits(raw).len()
        },
{
    lemma_hex_digits_trim_start(raw);
    lemma_hex_digits_trim_end(trim_start(raw));
    let hex = hex_digits(raw);
    if hex.len() >= ADDRESS_DIGITS {
        assert forall|i: int| 0 <= i < hex.len() implies is_hex(#[trigger] hex[i]) by {
            raw.lemma_filter_pred(|c: char| is_hex(c), i);
        }
        lemma_digits_of_colon_pairs(last_digits(raw));
    } else {
        lemma_hex_digits_upper(trim(raw));
    }
}

/// Two addresses have the same key exactly where both have twelve hexadecimal digits and the
/// last twelve agree but for case, or neither has and the trimmed texts agree but for case.
pub proof fn law_same_key(a: Seq<char>, b: Seq<char>)
    ensures
        dedup_key(a) == dedup_key(b) <==> {
            ||| {
                &&& hex_digits(a).len() >= ADDRESS_DIGITS
                &&& hex_digits(b).len() >= ADDRESS_DIGITS
                &&& equal_ignoring_case(last_digits(a), last_digits(b))
            }
            ||| {
                &&& hex_digits(a).len() < ADDRESS_DIGITS
                &&& hex_digits(b).len() < ADDRESS_DIGITS
                &&& equal_ignoring_case(trim(a), trim(b))
            }
        },
{
    lemma_key_by_digits(a);
    lemma_key_by_digits(b);
    lemma_upper_and_lower(last_digits(a), last_digits(b));
    lemma_upper_and_lower(trim(a), trim(b));
    if hex_digits(a).len() >= ADDRESS_DIGITS && hex_digits(b).len() >= ADDRESS_DIGITS
        && equal_ignoring_case(last_digits(a), last_digits(b)) {
        law_key_reads_last_digits(a, b);
    }
}

/// A text that is nothing but white space.
pub open spec fn is_blank(s: Seq<char>) -> bool {
    forall|i: int| 0 <= i < s.len() ==> is_white_space(#[trigger] s[i])
}

proof fn lemma_blank_before(pad: Seq<char>, s: Seq<char>)
    requires
        is_blank(pad),
    ensures
        trim_start(pad + s) == trim_start(s),
    decreases pad.len(),
{
    if pad.len() == 0 {
        assert(pad + s =~= s);
    } else {
        let rest = pad.drop_first();
        assert forall|i: int| 0 <= i < rest.len() implies is_white_space(#[trigger] rest[i]) by {
            assert(rest[i] == pad[i + 1]);
        }
        lemma_blank_before(rest, s);
        assert((pad + s).first() == pad[0]);
        assert((pad + s).drop_first() =~= rest + s);
    }
}

proof fn lemma_blank_behind(s: Seq<char>, pad: Seq<char>)
    requires
        is_blank(pad),
    ensures
        trim_end(s + pad) == trim_end(s),
        trim_start(s).len() > 0 ==> trim_start(s + pad) == trim_start(s) + pad,
        trim_start(s).len() == 0 ==> trim_start(s + pad).len() == 0,
    decreases s.len() + pad.len(),
{
    if pad.len() == 0 {
        assert(s + pad =~= s);
        assert(trim_start(s) + pad =~= trim_start(s));
    } else {
        let rest = pad.drop_last();
        assert forall|i: int| 0 <= i < rest.len() implies is_white_space(#[trigger] rest[i]) by {
            assert(rest[i] == pad[i]);
        }
        lemma_blank_behind(s, rest);
        assert((s + pad).last() == pad[pad.len() - 1]);
        assert((s + pad).drop_last() =~= s + rest);
        if s.len() > 0 && is_white_space(s.first()) {
            lemma_blank_behind(s.drop_first(), pad);
            assert((s + pad).drop_first() =~= s.drop_first() + pad);
        } else if s.len() == 0 {
            lemma_blank_before(pad, s);
            assert(s + pad =~= pad + s);
        }
    }
}

/// White space around an address changes nothing about its key.
pub proof fn law_key_ignores_white_space_around(before: Seq<char>, raw: Seq<char>, behind: Seq<char>)
    requires
        is_blank(before),
        is_blank(behind),
    ensures
        dedup_key(before + raw + behind) == dedup_key(raw),
{
    assert(before + raw + behind =~= before + (raw + behind));
    lemma_blank_before(before, raw + behind);
    lemma_blank_behind(raw, behind);
    if trim_start(raw).len() > 0 {
        lemma_blank_behind(trim_start(raw), behind);
    } else {
        assert(trim_start(raw) =~= Seq::empty());
        assert(trim_start(raw + behind) =~= Seq::empty());
    }
}

/// The key of an address with twelve hexadecimal digits is a hardware address: six pairs, made of
/// its last twelve digits as capitals, and a colon between each pair and the next.
pub proof fn law_key_of_a_hardware_address(raw: Seq<char>)
    requires
        hex_digits(raw).len() >= 12,
    ensures
        dedup_key(raw).len() == 17,
        forall|i: int|
            0 <= i < 17 ==> {
                let c = #[trigger] dedup_key(raw)[i];
                if i % 3 == 2 {
                    c == ':'
                } else {
                    let digit = hex_digits(raw)[hex_digits(raw).len() - 12 + i / 3 * 2 + i % 3];
                    same_letter(c, digit) && !('a' <= c <= 'z')
                }
            },
{
    lemma_key_by_digits(raw);
    let digits = last_digits(raw);
    assert forall|i: int| 0 <= i < 17 && i % 3 != 2 implies {
        let c = #[trigger] dedup_key(raw)[i];
        let digit = hex_digits(raw)[hex_digits(raw).len() - 12 + i / 3 * 2 + i % 3];
        same_letter(c, digit) && !('a' <= c <= 'z')
    } by {
        let k = i / 3 * 2 + i % 3;
        assert(digits[k] == hex_digits(raw)[hex_digits(raw).len() - 12 + k]);
    }
}

/// The key of a text with fewer digits is the text without white space around it, in capitals.
pub proof fn law_key_of_another_text(raw: Seq<char>)
    requires
        hex_digits(raw).len() < 12,
    ensures
        differ_only_in_case(dedup_key(raw), trim(raw)),
        forall|i: int|
            0 <= i < dedup_key(raw).len() ==> !('a' <= #[trigger] dedup_key(raw)[i] <= 'z'),
{
    lemma_key_by_digits(raw);
    law_upper(trim(raw));
}

} // verus!
