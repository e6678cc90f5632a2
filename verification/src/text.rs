//! Text, seen as sequences of characters.
//!
//! Addresses and identifiers are compared and rewritten character by character.
//! The specification functions of this module say what each rewriting means on a
//! `Seq<char>`; the executable functions do it on strings.
use vstd::prelude::*;

verus! {

/// `String::push` appends one character to the end of the string.
pub assume_specification[ String::push ](s: &mut String, c: char)
    ensures
        final(s)@ == old(s)@.push(c),
;

/// The characters with the Unicode property `White_Space`.
pub open spec fn is_white_space(c: char) -> bool {
    let u = c as u32;
    ||| 0x9 <= u <= 0xd
    ||| u == 0x20
    ||| u == 0x85
    ||| u == 0xa0
    ||| u == 0x1680
    ||| 0x2000 <= u <= 0x200a
    ||| u == 0x2028
    ||| u == 0x2029
    ||| u == 0x202f
    ||| u == 0x205f
    ||| u == 0x3000
}

/// The hexadecimal digits, in either case.
pub open spec fn is_hex(c: char) -> bool {
    ||| '0' <= c <= '9'
    ||| 'a' <= c <= 'f'
    ||| 'A' <= c <= 'F'
}

/// An ASCII lowercase letter turned into its uppercase letter; any other character itself.
pub open spec fn upper_char(c: char) -> char {
    if 'a' <= c <= 'z' {
        (c as u32 - 32) as char
    } else {
        c
    }
}

/// An ASCII uppercase letter turned into its lowercase letter; any other character itself.
pub open spec fn lower_char(c: char) -> char {
    if 'A' <= c <= 'Z' {
        (c as u32 + 32) as char
    } else {
        c
    }
}

/// The text with its ASCII letters in upper case.
pub open spec fn upper(s: Seq<char>) -> Seq<char> {
    s.map_values(|c: char| upper_char(c))
}

/// The text with its ASCII letters in lower case.
pub open spec fn lower(s: Seq<char>) -> Seq<char> {
    s.map_values(|c: char| lower_char(c))
}

/// The text without its leading white space.
pub open spec fn trim_start(s: Seq<char>) -> Seq<char>
    decreases s.len(),
{
    if s.len() > 0 && is_white_space(s.first()) {
        trim_start(s.drop_first())
    } else {
        s
    }
}

/// The text without its trailing white space.
pub open spec fn trim_end(s: Seq<char>) -> Seq<char>
    decreases s.len(),
{
    if s.len() > 0 && is_white_space(s.last()) {
        trim_end(s.drop_last())
    } else {
        s
    }
}

/// The text without its leading and trailing white space.
pub open spec fn trim(s: Seq<char>) -> Seq<char> {
    trim_end(trim_start(s))
}

/// The hexadecimal digits of a text, in order.
pub open spec fn hex_digits(s: Seq<char>) -> Seq<char> {
    s.filter(|c: char| is_hex(c))
}

/// Two texts that differ at most in the case of ASCII letters.
pub open spec fn equal_ignoring_case(a: Seq<char>, b: Seq<char>) -> bool {
    lower(a) == lower(b)
}

/// `needle` occurs in `haystack` at position `at`.
pub open spec fn occurs_at(haystack: Seq<char>, needle: Seq<char>, at: int) -> bool {
    &&& 0 <= at
    &&& at + needle.len() <= haystack.len()
    &&& haystack.subrange(at, at + needle.len()) == needle
}

/// `needle` occurs somewhere in `haystack`.
pub open spec fn contains_text(haystack: Seq<char>, needle: Seq<char>) -> bool {
    exists|at: int| occurs_at(haystack, needle, at)
}

pub(crate) fn white_space(c: char) -> (r: bool)
    ensures
        r == is_white_space(c),
{
    let u: u32 = c as u32;
    (0x9 <= u && u <= 0xd) || u == 0x20 || u == 0x85 || u == 0xa0 || u == 0x1680 || (0x2000 <= u && u
        <= 0x200a) || u == 0x2028 || u == 0x2029 || u == 0x202f || u == 0x205f || u == 0x3000
}

pub(crate) fn hex_digit(c: char) -> (r: bool)
    ensures
        r == is_hex(c),
{
    ('0' <= c && c <= '9') || ('a' <= c && c <= 'f') || ('A' <= c && c <= 'F')
}

pub(crate) fn to_upper(c: char) -> (r: char)
    ensures
        r == upper_char(c),
{
    if 'a' <= c && c <= 'z' {
        let byte: u8 = c as u8;
        (byte - 32) as char
    } else {
        c
    }
}

pub(crate) fn to_lower(c: char) -> (r: char)
    ensures
        r == lower_char(c),
{
    if 'A' <= c && c <= 'Z' {
        let byte: u8 = c as u8;
        (byte + 32) as char
    } else {
        c
    }
}

/// The characters of a string.
pub(crate) fn chars_of(s: &str) -> (r: Vec<char>)
    ensures
        r@ == s@,
{
    let mut out: Vec<char> = Vec::new();
    for c in it: s.chars()
        invariant
            it.seq() == s@,
            out@ == s@.take(it.index()),
    {
        out.push(c);
    }
    out
}

/// The string made of the given characters.
pub(crate) fn string_of(chars: &Vec<char>) -> (r: String)
    ensures
        r@ == chars@,
{
    let mut out = String::new();
    for i in 0..chars.len()
        invariant
            out@ == chars@.take(i as int),
    {
        out.push(chars[i]);
        assert(chars@.take(i + 1) == chars@.take(i as int).push(chars@[i as int]));
    }
    assert(chars@.take(chars@.len() as int) == chars@);
    out
}

/// The text without its leading and trailing white space.
pub(crate) fn trimmed(chars: &Vec<char>) -> (r: Vec<char>)
    ensures
        r@ == trim(chars@),
{
    let mut lo: usize = 0;
    assert(chars@.skip(0) == chars@);
    while lo < chars.len() && white_space(chars[lo])
        invariant
            lo <= chars@.len(),
            trim_start(chars@) == trim_start(chars@.skip(lo as int)),
        decreases chars@.len() - lo,
    {
        assert(chars@.skip(lo as int).drop_first() == chars@.skip(lo + 1));
        lo = lo + 1;
    }
    let ghost start = chars@.skip(lo as int);
    assert(trim_start(chars@) == start);
    let mut hi: usize = chars.len();
    assert(chars@.subrange(lo as int, hi as int) == start);
    while hi > lo && white_space(chars[hi - 1])
        invariant
            lo <= hi <= chars@.len(),
            trim_end(start) == trim_end(chars@.subrange(lo as int, hi as int)),
        decreases hi,
    {
        assert(chars@.subrange(lo as int, hi as int).drop_last() == chars@.subrange(
            lo as int,
            hi - 1,
        ));
        hi = hi - 1;
    }
    assert(trim(chars@) == chars@.subrange(lo as int, hi as int));
    let mut out: Vec<char> = Vec::new();
    for i in lo..hi
        invariant
            lo <= hi <= chars@.len(),
            out@ == chars@.subrange(lo as int, i as int),
    {
        out.push(chars[i]);
    }
    out
}

/// The hexadecimal digits of a text, in order.
pub(crate) fn digits_of(chars: &Vec<char>) -> (r: Vec<char>)
    ensures
        r@ == hex_digits(chars@),
{
    let mut out: Vec<char> = Vec::new();
    let ghost keep = |c: char| is_hex(c);
    proof {
        reveal(Seq::filter);
        assert(chars@.take(0).filter(keep) == Seq::<char>::empty());
    }
    for i in 0..chars.len()
        invariant
            keep == (|c: char| is_hex(c)),
            out@ == chars@.take(i as int).filter(keep),
    {
        proof {
            chars@.take(i as int).lemma_filter_push(chars@[i as int], keep);
            assert(chars@.take(i + 1) == chars@.take(i as int).push(chars@[i as int]));
        }
        if hex_digit(chars[i]) {
            out.push(chars[i]);
        }
    }
    assert(chars@.take(chars@.len() as int) == chars@);
    out
}

/// The text with its ASCII letters in upper case.
pub(crate) fn uppercase(chars: &Vec<char>) -> (r: Vec<char>)
    ensures
        r@ == upper(chars@),
{
    let mut out: Vec<char> = Vec::new();
    for i in 0..chars.len()
        invariant
            out@ == upper(chars@.take(i as int)),
    {
        out.push(to_upper(chars[i]));
        assert(chars@.take(i + 1) == chars@.take(i as int).push(chars@[i as int]));
        assert(out@ == upper(chars@.take(i + 1)));
    }
    assert(chars@.take(chars@.len() as int) == chars@);
    out
}

/// The text with its ASCII letters in lower case.
pub(crate) fn lowercase(chars: &Vec<char>) -> (r: Vec<char>)
    ensures
        r@ == lower(chars@),
{
    let mut out: Vec<char> = Vec::new();
    for i in 0..chars.len()
        invariant
            out@ == lower(chars@.take(i as int)),
    {
        out.push(to_lower(chars[i]));
        assert(chars@.take(i + 1) == chars@.take(i as int).push(chars@[i as int]));
        assert(out@ == lower(chars@.take(i + 1)));
    }
    assert(chars@.take(chars@.len() as int) == chars@);
    out
}

/// Whether two strings differ at most in the case of ASCII letters.
pub(crate) fn eq_ignore_ascii_case(a: &str, b: &str) -> (r: bool)
    ensures
        r == equal_ignoring_case(a@, b@),
{
    let x = chars_of(a);
    let y = chars_of(b);
    if x.len() != y.len() {
        assert(lower(a@).len() != lower(b@).len());
        return false;
    }
    for i in 0..x.len()
        invariant
            x@ == a@,
            y@ == b@,
            x@.len() == y@.len(),
            forall|j: int| 0 <= j < i ==> lower_char(#[trigger] x@[j]) == lower_char(y@[j]),
    {
        if to_lower(x[i]) != to_lower(y[i]) {
            assert(lower(a@)[i as int] != lower(b@)[i as int]);
            return false;
        }
    }
    assert(lower(a@) =~= lower(b@));
    true
}

/// Whether `needle` occurs in `haystack` at position `at`.
fn matches_at(haystack: &Vec<char>, needle: &Vec<char>, at: usize) -> (r: bool)
    requires
        at + needle@.len() <= haystack@.len(),
    ensures
        r == occurs_at(haystack@, needle@, at as int),
{
    let size: usize = haystack.len();
    for j in 0..needle.len()
        invariant
            size == haystack@.len(),
            at + needle@.len() <= size,
            forall|k: int| 0 <= k < j ==> haystack@[at + k] == #[trigger] needle@[k],
    {
        if haystack[at + j] != needle[j] {
            assert(haystack@.subrange(at as int, at + needle@.len())[j as int] != needle@[j as int]);
            return false;
        }
    }
    assert(haystack@.subrange(at as int, at + needle@.len()) =~= needle@);
    true
}

/// Whether `needle` occurs somewhere in `haystack`.
pub(crate) fn contains_chars(haystack: &Vec<char>, needle: &Vec<char>) -> (r: bool)
    ensures
        r == contains_text(haystack@, needle@),
{
    if needle.len() > haystack.len() {
        return false;
    }
    let last: usize = haystack.len() - needle.len();
    let mut at: usize = 0;
    while at <= last
        invariant
            last == haystack@.len() - needle@.len(),
            at <= last + 1,
            forall|k: int| 0 <= k < at ==> !#[trigger] occurs_at(haystack@, needle@, k),
        decreases last + 1 - at,
    {
        if matches_at(haystack, needle, at) {
            return true;
        }
        if at == last {
            assert forall|k: int| !occurs_at(haystack@, needle@, k) by {}
            return false;
        }
        at = at + 1;
    }
    false
}

/// The same character, or the two cases of one ASCII letter.
pub open spec fn same_letter(a: char, b: char) -> bool {
    ||| a == b
    ||| 'a' <= a <= 'z' && a as u32 == b as u32 + 32
    ||| 'a' <= b <= 'z' && b as u32 == a as u32 + 32
}

/// Two texts of the same length whose characters differ at most in the case of ASCII letters.
pub open spec fn differ_only_in_case(a: Seq<char>, b: Seq<char>) -> bool {
    &&& a.len() == b.len()
    &&& forall|i: int| 0 <= i < a.len() ==> same_letter(#[trigger] a[i], b[i])
}

/// Ignoring case, two texts are equal exactly where they have the same length and every character
/// of one is that of the other, or its other case.
pub proof fn law_equal_ignoring_case(a: Seq<char>, b: Seq<char>)
    ensures
        equal_ignoring_case(a, b) <==> differ_only_in_case(a, b),
{
    if equal_ignoring_case(a, b) {
        assert(lower(a).len() == lower(b).len());
        assert forall|i: int| 0 <= i < a.len() implies same_letter(#[trigger] a[i], b[i]) by {
            assert(lower(a)[i] == lower(b)[i]);
        }
    }
    if differ_only_in_case(a, b) {
        assert forall|i: int| 0 <= i < a.len() implies lower(a)[i] == lower(b)[i] by {
            assert(same_letter(a[i], b[i]));
        }
        assert(lower(a) =~= lower(b));
    }
}

/// In upper case every character stays the same letter, and none is a small one; what is no small
/// letter stays as it is.
pub proof fn law_upper(s: Seq<char>)
    ensures
        differ_only_in_case(upper(s), s),
        forall|i: int| 0 <= i < s.len() ==> !('a' <= #[trigger] upper(s)[i] <= 'z'),
        forall|i: int|
            0 <= i < s.len() && !('a' <= s[i] <= 'z') ==> #[trigger] upper(s)[i] == s[i],
{
}

/// In lower case every character stays the same letter, and none is a capital one; what is no
/// capital letter stays as it is.
pub proof fn law_lower(s: Seq<char>)
    ensures
        differ_only_in_case(lower(s), s),
        forall|i: int| 0 <= i < s.len() ==> !('A' <= #[trigger] lower(s)[i] <= 'Z'),
        forall|i: int|
            0 <= i < s.len() && !('A' <= s[i] <= 'Z') ==> #[trigger] lower(s)[i] == s[i],
{
}

/// `s` without white space around it is the part of `s` from `lo` up to `hi`.
pub open spec fn trims_to(s: Seq<char>, lo: int, hi: int) -> bool {
    &&& 0 <= lo <= hi <= s.len()
    &&& forall|i: int| 0 <= i < lo ==> is_white_space(#[trigger] s[i])
    &&& forall|i: int| hi <= i < s.len() ==> is_white_space(#[trigger] s[i])
    &&& lo < hi ==> !is_white_space(s[lo]) && !is_white_space(s[hi - 1])
}

proof fn lemma_trim_start_part(s: Seq<char>) -> (lo: int)
    ensures
        0 <= lo <= s.len(),
        trim_start(s) == s.skip(lo),
        forall|i: int| 0 <= i < lo ==> is_white_space(#[trigger] s[i]),
        lo < s.len() ==> !is_white_space(s[lo]),
    decreases s.len(),
{
    if s.len() > 0 && is_white_space(s.first()) {
        let rest = s.drop_first();
        let lo = lemma_trim_start_part(rest);
        assert(rest.skip(lo) =~= s.skip(lo + 1));
        assert forall|i: int| 0 <= i < lo + 1 implies is_white_space(#[trigger] s[i]) by {
            if i > 0 {
                assert(s[i] == rest[i - 1]);
            }
        }
        if lo < rest.len() {
            assert(s[lo + 1] == rest[lo]);
        }
        lo + 1
    } else {
        assert(s.skip(0) =~= s);
        0
    }
}

proof fn lemma_trim_end_part(s: Seq<char>) -> (hi: int)
    ensures
        0 <= hi <= s.len(),
        trim_end(s) == s.take(hi),
        forall|i: int| hi <= i < s.len() ==> is_white_space(#[trigger] s[i]),
        hi > 0 ==> !is_white_space(s[hi - 1]),
    decreases s.len(),
{
    if s.len() > 0 && is_white_space(s.last()) {
        let rest = s.drop_last();
        let hi = lemma_trim_end_part(rest);
        assert(rest.take(hi) =~= s.take(hi));
        assert forall|i: int| hi <= i < s.len() implies is_white_space(#[trigger] s[i]) by {
            if i < rest.len() {
                assert(s[i] == rest[i]);
            }
        }
        hi
    } else {
        assert(s.take(s.len() as int) =~= s);
        s.len() as int
    }
}

/// Trimming takes away all white space at both ends and nothing else.
pub proof fn law_trim(s: Seq<char>)
    ensures
        exists|lo: int, hi: int| #[trigger] trims_to(s, lo, hi) && trim(s) == s.subrange(lo, hi),
{
    let lo = lemma_trim_start_part(s);
    let tail = s.skip(lo);
    let n = lemma_trim_end_part(tail);
    let hi = if n == 0 {
        lo
    } else {
        lo + n
    };
    assert(tail.take(n) =~= s.subrange(lo, hi));
    assert forall|i: int| hi <= i < s.len() implies is_white_space(#[trigger] s[i]) by {
        assert(s[i] == tail[i - lo]);
    }
    if n > 0 {
        assert(tail[n - 1] == s[hi - 1]);
    }
    assert(trims_to(s, lo, hi));
}

/// The digits of a text are built up from its characters: each character in `0` to `9`, `a` to
/// `f` or `A` to `F` is one digit more, and no other is.
pub proof fn law_hex_digits(s: Seq<char>, c: char)
    ensures
        hex_digits(Seq::empty()) == Seq::<char>::empty(),
        hex_digits(s.push(c)) == if ('0' <= c <= '9') || ('a' <= c <= 'f') || ('A' <= c <= 'F') {
            hex_digits(s).push(c)
        } else {
            hex_digits(s)
        },
{
    reveal(Seq::filter);
    assert(s.push(c).drop_last() =~= s);
    assert(hex_digits(Seq::empty()) =~= Seq::<char>::empty());
}

/// From position `at` on, the characters of `haystack` are those of `needle`.
pub open spec fn reads(haystack: Seq<char>, needle: Seq<char>, at: int) -> bool {
    &&& 0 <= at <= haystack.len() - needle.len()
    &&& forall|k: int| 0 <= k < needle.len() ==> haystack[at + k] == #[trigger] needle[k]
}

/// A text contains another exactly where there is a place from which on its characters are those
/// of the other.
pub proof fn law_contains_text(haystack: Seq<char>, needle: Seq<char>)
    ensures
        contains_text(haystack, needle) <==> exists|at: int| #[trigger] reads(haystack, needle, at),
{
    if contains_text(haystack, needle) {
        let at = choose|at: int| occurs_at(haystack, needle, at);
        let part = haystack.subrange(at, at + needle.len());
        assert forall|k: int| 0 <= k < needle.len() implies haystack[at + k] == #[trigger] needle[k] by {
            assert(part[k] == haystack[at + k]);
        }
        assert(reads(haystack, needle, at));
    }
    if exists|at: int| #[trigger] reads(haystack, needle, at) {
        let at = choose|at: int| #[trigger] reads(haystack, needle, at);
        assert(haystack.subrange(at, at + needle.len()) =~= needle);
        assert(occurs_at(haystack, needle, at));
    }
}

/// The code points of the white space characters.
pub open spec fn white_spaces() -> Seq<u32> {
    seq![
        9u32, 10u32, 11u32, 12u32, 13u32, 32u32, 133u32, 160u32, 5760u32, 8192u32, 8193u32, 8194u32,
        8195u32, 8196u32, 8197u32, 8198u32, 8199u32, 8200u32, 8201u32, 8202u32, 8232u32, 8233u32,
        8239u32, 8287u32, 12288u32,
    ]
}

/// White space are tab, line feed, vertical tab, form feed, carriage return, the space, the next
/// line, the no-break space, and the spaces and separators further up, 25 characters in all.
pub proof fn law_white_space(c: char)
    ensures
        is_white_space(c) <==> white_spaces().contains(c as u32),
        white_spaces().len() == 25,
{
    let u = c as u32;
    let all = white_spaces();
    assert(all.len() == 25);
    assert(all[0] == 9 && all[1] == 10 && all[2] == 11 && all[3] == 12 && all[4] == 13);
    assert(all[5] == 32 && all[6] == 133 && all[7] == 160 && all[8] == 5760);
    assert(all[9] == 8192 && all[10] == 8193 && all[11] == 8194 && all[12] == 8195);
    assert(all[13] == 8196 && all[14] == 8197 && all[15] == 8198 && all[16] == 8199);
    assert(all[17] == 8200 && all[18] == 8201 && all[19] == 8202);
    assert(all[20] == 8232 && all[21] == 8233 && all[22] == 8239 && all[23] == 8287);
    assert(all[24] == 12288);
    if all.contains(u) {
        let i = choose|i: int| 0 <= i < all.len() && all[i] == u;
        assert(is_white_space(c));
    }
}

} // verus!
