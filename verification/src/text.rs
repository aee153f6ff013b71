//! Characters, numbers and searching, for the modules that read text.

use vstd::prelude::*;

verus! {

/// `String::push` appends one character to the end of a string.
pub assume_specification[ String::push ](s: &mut String, ch: char)
    ensures
        final(s)@ == old(s)@.push(ch),
;

/// The characters of a text.
pub fn to_chars(s: &str) -> (chars: Vec<char>)
    ensures
        chars@ == s@,
{
    let mut chars: Vec<char> = Vec::new();
    for c in it: s.chars()
        invariant
            it.seq() == s@,
            chars@ == s@.take(it.index() as int),
    {
        chars.push(c);
        assert(chars@ =~= s@.take(it.index() + 1));
    }
    assert(chars@ =~= s@);
    chars
}

/// The text made of these characters.
pub fn to_text(chars: &[char]) -> (s: String)
    ensures
        s@ == chars@,
{
    let mut s = String::new();
    let mut i: usize = 0;
    while i < chars.len()
        invariant
            i <= chars@.len(),
            s@ == chars@.take(i as int),
        decreases chars@.len() - i,
    {
        s.push(chars[i]);
        i = i + 1;
        assert(s@ =~= chars@.take(i as int));
    }
    assert(s@ =~= chars@);
    s
}

/// Whether two texts are the same.
pub fn same_text(a: &str, b: &str) -> (same: bool)
    ensures
        same == (a@ == b@),
{
    let x = to_chars(a);
    let y = to_chars(b);
    if x.len() != y.len() {
        return false;
    }
    let mut i: usize = 0;
    while i < x.len()
        invariant
            i <= x@.len(),
            x@ == a@,
            y@ == b@,
            x@.len() == y@.len(),
            forall|k: int| 0 <= k < i ==> x@[k] == y@[k],
        decreases x@.len() - i,
    {
        if x[i] != y[i] {
            return false;
        }
        i = i + 1;
    }
    assert(x@ =~= y@);
    true
}

/// The characters with the Unicode property `White_Space`.
pub open spec fn is_white_space(c: char) -> bool {
    ||| '\u{9}' <= c <= '\u{d}'
    ||| c == ' '
    ||| c == '\u{85}'
    ||| c == '\u{a0}'
    ||| c == '\u{1680}'
    ||| '\u{2000}' <= c <= '\u{200a}'
    ||| c == '\u{2028}'
    ||| c == '\u{2029}'
    ||| c == '\u{202f}'
    ||| c == '\u{205f}'
    ||| c == '\u{3000}'
}

pub fn white_space(c: char) -> (b: bool)
    ensures
        b == is_white_space(c),
{
    ('\u{9}' <= c && c <= '\u{d}') || c == ' ' || c == '\u{85}' || c == '\u{a0}' || c == '\u{1680}'
        || ('\u{2000}' <= c && c <= '\u{200a}') || c == '\u{2028}' || c == '\u{2029}' || c
        == '\u{202f}' || c == '\u{205f}' || c == '\u{3000}'
}

/// `s` without its leading white space.
pub open spec fn trim_start(s: Seq<char>) -> Seq<char>
    decreases s.len(),
{
    if s.len() > 0 && is_white_space(s[0]) {
        trim_start(s.skip(1))
    } else {
        s
    }
}

/// `s` without its trailing white space.
pub open spec fn trim_end(s: Seq<char>) -> Seq<char>
    decreases s.len(),
{
    if s.len() > 0 && is_white_space(s.last()) {
        trim_end(s.drop_last())
    } else {
        s
    }
}

/// `s` without the white space around it.
pub open spec fn trimmed(s: Seq<char>) -> Seq<char> {
    trim_end(trim_start(s))
}

/// The part of `chars` that is left when the white space around it is gone.
pub fn trim_chars(chars: &[char]) -> (t: Vec<char>)
    ensures
        t@ == trimmed(chars@),
{
    let mut from: usize = 0;
    assert(chars@.skip(0) =~= chars@);
    while from < chars.len() && white_space(chars[from])
        invariant
            from <= chars@.len(),
            trim_start(chars@) == trim_start(chars@.skip(from as int)),
        decreases chars@.len() - from,
    {
        assert(chars@.skip(from as int).skip(1) =~= chars@.skip(from + 1));
        from = from + 1;
    }
    let ghost rest = chars@.skip(from as int);
    assert(trim_start(rest) == rest);
    let mut to: usize = chars.len();
    assert(chars@.subrange(from as int, to as int) =~= rest);
    while to > from && white_space(chars[to - 1])
        invariant
            from <= to <= chars@.len(),
            trim_end(rest) == trim_end(chars@.subrange(from as int, to as int)),
        decreases to,
    {
        assert(chars@.subrange(from as int, to as int).drop_last() =~= chars@.subrange(
            from as int,
            to - 1,
        ));
        to = to - 1;
    }
    let mut t: Vec<char> = Vec::new();
    let mut i: usize = from;
    while i < to
        invariant
            from <= i <= to <= chars@.len(),
            t@ == chars@.subrange(from as int, i as int),
        decreases to - i,
    {
        t.push(chars[i]);
        i = i + 1;
        assert(t@ =~= chars@.subrange(from as int, i as int));
    }
    t
}

pub open spec fn is_digit(c: char) -> bool {
    '0' <= c <= '9'
}

pub open spec fn all_digits(s: Seq<char>) -> bool {
    forall|i: int| 0 <= i < s.len() ==> is_digit(#[trigger] s[i])
}

/// The number that a row of decimal digits stands for.
pub open spec fn decimal(s: Seq<char>) -> int
    decreases s.len(),
{
    if s.len() == 0 {
        0
    } else {
        10 * decimal(s.drop_last()) + (s.last() as int - '0' as int)
    }
}

/// The digits of a number that may carry a sign.
pub open spec fn unsigned_part(s: Seq<char>) -> Seq<char> {
    if s.len() > 0 && (s[0] == '+' || s[0] == '-') {
        s.skip(1)
    } else {
        s
    }
}

/// The number that a text writes in decimal, if it writes one that fits: an
/// optional sign, then digits and nothing else.
pub open spec fn parsed_i32(s: Seq<char>) -> Option<i32> {
    let digits = unsigned_part(s);
    let n = if s.len() > 0 && s[0] == '-' {
        -decimal(digits)
    } else {
        decimal(digits)
    };
    if digits.len() > 0 && all_digits(digits) && i32::MIN <= n <= i32::MAX {
        Some(n as i32)
    } else {
        None
    }
}

/// A longer row of digits does not stand for a smaller number.
proof fn lemma_decimal_grows(s: Seq<char>, k: int)
    requires
        all_digits(s),
        0 <= k <= s.len(),
    ensures
        0 <= decimal(s.take(k)) <= decimal(s),
    decreases s.len(),
{
    if s.len() == 0 {
        assert(s.take(k) =~= s);
    } else if k == s.len() {
        assert(s.take(k) =~= s);
        lemma_decimal_grows(s.drop_last(), s.len() - 1);
        assert(s.drop_last().take(s.len() - 1) =~= s.drop_last());
    } else {
        assert(s.drop_last().take(k) =~= s.take(k));
        lemma_decimal_grows(s.drop_last(), k);
    }
}

/// Reads a decimal number as the standard library reads one.
pub fn parse_i32(chars: &[char]) -> (n: Option<i32>)
    ensures
        n == parsed_i32(chars@),
{
    let len = chars.len();
    if len == 0 {
        return None;
    }
    let negative = chars[0] == '-';
    let start: usize = if negative || chars[0] == '+' {
        1
    } else {
        0
    };
    let ghost digits = unsigned_part(chars@);
    assert(digits =~= chars@.skip(start as int));
    if start == len {
        return None;
    }
    let mut value: i64 = 0;
    let mut i: usize = start;
    while i < len
        invariant
            start <= i <= len,
            start <= 1,
            len == chars@.len(),
            digits == chars@.skip(start as int),
            negative ==> chars@[0] == '-',
            digits == unsigned_part(chars@),
            forall|k: int| 0 <= k < i - start ==> is_digit(#[trigger] digits[k]),
            value == decimal(digits.take(i - start)),
            0 <= value <= 0x8000_0000,
        decreases len - i,
    {
        let c = chars[i];
        assert(c == digits[i - start]);
        if c < '0' || c > '9' {
            return None;
        }
        value = value * 10 + (c as i64 - '0' as i64);
        i = i + 1;
        assert(digits.take(i - start).drop_last() =~= digits.take(i - start - 1));
        if value > 0x8000_0000 {
            proof {
                if all_digits(digits) {
                    lemma_decimal_grows(digits, i - start);
                }
            }
            return None;
        }
    }
    assert(digits.take(len - start) =~= digits);
    assert(all_digits(digits));
    if negative {
        Some((-value) as i32)
    } else if value <= i32::MAX as i64 {
        Some(value as i32)
    } else {
        None
    }
}

/// `b` as a lower-case letter, if it is an ASCII letter.
pub open spec fn lower_byte(b: u8) -> u8 {
    if 0x41 <= b <= 0x5a {
        (b + 32) as u8
    } else {
        b
    }
}

/// `part` stands in `s` at `at`, but for the case of ASCII letters.
pub open spec fn icase_at(s: Seq<u8>, part: Seq<u8>, at: int) -> bool {
    &&& 0 <= at
    &&& at + part.len() <= s.len()
    &&& forall|k: int| 0 <= k < part.len() ==> lower_byte(s[at + k]) == lower_byte(#[trigger] part[k])
}

/// `part` stands somewhere in `s`, but for the case of ASCII letters.
pub open spec fn contains_icase(s: Seq<u8>, part: Seq<u8>) -> bool {
    exists|at: int| icase_at(s, part, at)
}

fn to_lower_byte(b: u8) -> (l: u8)
    ensures
        l == lower_byte(b),
{
    if 0x41 <= b && b <= 0x5a {
        b + 32
    } else {
        b
    }
}

/// Whether `part` stands somewhere in `s`, whatever the case of its letters.
pub fn contains_icase_bytes(s: &[u8], part: &[u8]) -> (found: bool)
    ensures
        found == contains_icase(s@, part@),
{
    let n = s.len();
    let m = part.len();
    if m > n {
        return false;
    }
    let mut at: usize = 0;
    while at <= n - m
        invariant
            n == s@.len(),
            m == part@.len(),
            m <= n,
            at <= n - m + 1,
            forall|p: int| 0 <= p < at ==> !#[trigger] icase_at(s@, part@, p),
        decreases n - m + 1 - at,
    {
        let mut k: usize = 0;
        while k < m && to_lower_byte(s[at + k]) == to_lower_byte(part[k])
            invariant
                n == s@.len(),
                m == part@.len(),
                m <= n,
                at <= n - m,
                k <= m,
                forall|j: int|
                    0 <= j < k ==> lower_byte(s@[at + j]) == lower_byte(#[trigger] part@[j]),
            decreases m - k,
        {
            k = k + 1;
        }
        if k == m {
            assert(icase_at(s@, part@, at as int));
            return true;
        }
        assert(!icase_at(s@, part@, at as int)) by {
            assert(lower_byte(s@[at + k]) != lower_byte(part@[k as int]));
        }
        if at == n - m {
            return false;
        }
        at = at + 1;
    }
    false
}

/// `part` stands in `s` at `at`.
pub open spec fn stands_at(s: Seq<char>, part: Seq<char>, at: int) -> bool {
    0 <= at && at + part.len() <= s.len() && s.subrange(at, at + part.len()) == part
}

/// `part` stands somewhere in `s`.
pub open spec fn contains(s: Seq<char>, part: Seq<char>) -> bool {
    exists|at: int| stands_at(s, part, at)
}

/// `at` is the first place in `s` where `part` stands.
pub open spec fn stands_first_at(s: Seq<char>, part: Seq<char>, at: int) -> bool {
    stands_at(s, part, at) && forall|p: int| #[trigger] stands_at(s, part, p) ==> at <= p
}

/// The first place in `s` where `part` stands.
pub fn find_chars(s: &[char], part: &[char]) -> (at: Option<usize>)
    ensures
        match at {
            Some(at) => stands_first_at(s@, part@, at as int),
            None => !contains(s@, part@),
        },
{
    let n = s.len();
    let m = part.len();
    if m > n {
        return None;
    }
    let mut at: usize = 0;
    loop
        invariant
            n == s@.len(),
            m == part@.len(),
            at <= n - m,
            forall|p: int| 0 <= p < at ==> !#[trigger] stands_at(s@, part@, p),
        decreases n - m - at,
    {
        let mut k: usize = 0;
        while k < m && s[at + k] == part[k]
            invariant
                n == s@.len(),
                m == part@.len(),
                at <= n - m,
                k <= m,
                forall|j: int| 0 <= j < k ==> s@[at + j] == #[trigger] part@[j],
            decreases m - k,
        {
            k = k + 1;
        }
        if k == m {
            assert(s@.subrange(at as int, at + m) =~= part@);
            return Some(at);
        }
        assert(!stands_at(s@, part@, at as int)) by {
            assert(s@.subrange(at as int, at + m)[k as int] == s@[at + k]);
        }
        if at == n - m {
            return None;
        }
        at = at + 1;
    }
}

/// Whether `part` stands somewhere in `s`.
pub fn contains_text(s: &str, part: &str) -> (found: bool)
    ensures
        found == contains(s@, part@),
{
    let chars = to_chars(s);
    let wanted = to_chars(part);
    find_chars(chars.as_slice(), wanted.as_slice()).is_some()
}

/// `r` is `s` with its first `part` replaced by `by`.
pub open spec fn first_replaced(s: Seq<char>, part: Seq<char>, by: Seq<char>, r: Seq<char>) -> bool {
    exists|at: int|
        {
            &&& #[trigger] stands_first_at(s, part, at)
            &&& r == s.take(at) + by + s.skip(at + part.len())
        }
}

/// Replaces the first `part` in `s` by `by`. Nothing comes back where one of
/// the three is missing or there is nothing to replace.
pub fn rust_simple_str_replace(
    s: Option<&str>,
    part: Option<&str>,
    by: Option<&str>,
) -> (result: Option<String>)
    ensures
        s is None || part is None || by is None ==> result is None,
        s is Some && part is Some && by is Some ==> match result {
            Some(r) => first_replaced(s->0@, part->0@, by->0@, r@),
            None => !contains(s->0@, part->0@),
        },
{
    match (s, part, by) {
        (Some(t), Some(wanted), Some(other)) => {
            let chars = to_chars(t);
            let pattern = to_chars(wanted);
            let n = chars.len();
            let found = find_chars(chars.as_slice(), pattern.as_slice());
            match found {
                Some(at) => {
                    assert(stands_first_at(t@, wanted@, at as int));
                    let head = vstd::slice::slice_subrange(chars.as_slice(), 0, at);
                    let tail = vstd::slice::slice_subrange(
                        chars.as_slice(),
                        at + pattern.len(),
                        n,
                    );
                    let mut r = to_text(head);
                    r.append(other);
                    let rest = to_text(tail);
                    r.append(rest.as_str());
                    assert(r@ =~= t@.take(at as int) + other@ + t@.skip(at + wanted@.len()));
                    Some(r)
                },
                None => {
                    assert(!contains(t@, wanted@));
                    None
                },
            }
        },
        _ => None,
    }
}

/// Two bytes count as the same letter if they are the same byte, or the two cases
/// of one ASCII letter, and in no other case.
pub proof fn law_case_of_letters_only(a: u8, b: u8)
    ensures
        lower_byte(a) == lower_byte(b) <==> a == b || (0x41 <= a <= 0x5a && b == a + 32) || (0x41
            <= b <= 0x5a && a == b + 32),
{
}

/// A text contains a part if and only if it is that part with something, or
/// nothing, before and behind it.
pub proof fn law_contains_what_stands_in_it(s: Seq<char>, part: Seq<char>)
    ensures
        contains(s, part) <==> exists|before: Seq<char>, after: Seq<char>| #[trigger]
            (before + part + after) == s,
{
    if contains(s, part) {
        let at = choose|at: int| stands_at(s, part, at);
        let before = s.take(at);
        let after = s.skip(at + part.len());
        assert(before + part + after =~= s);
    }
    if exists|before: Seq<char>, after: Seq<char>| #[trigger] (before + part + after) == s {
        let (before, after) = choose|before: Seq<char>, after: Seq<char>| #[trigger]
            (before + part + after) == s;
        let at = before.len() as int;
        assert(s.subrange(at, at + part.len()) =~= part);
        assert(stands_at(s, part, at));
    }
}

/// Only the first occurrence is replaced: what stands before it, which does not
/// hold the part, and what stands behind it are in the result as they were.
pub proof fn law_only_the_first_is_replaced(
    s: Seq<char>,
    part: Seq<char>,
    by: Seq<char>,
    r: Seq<char>,
)
    requires
        first_replaced(s, part, by, r),
    ensures
        exists|before: Seq<char>, after: Seq<char>|
            {
                &&& s == #[trigger] (before + part + after)
                &&& r == before + by + after
                &&& part.len() > 0 ==> !contains((before + part).drop_last(), part)
            },
{
    let at = choose|at: int|
        {
            &&& #[trigger] stands_first_at(s, part, at)
            &&& r == s.take(at) + by + s.skip(at + part.len())
        };
    let before = s.take(at);
    let after = s.skip(at + part.len());
    assert(before + part + after =~= s);
    if part.len() > 0 {
        let head = (before + part).drop_last();
        assert forall|p: int| !stands_at(head, part, p) by {
            if stands_at(head, part, p) {
                assert(s.subrange(p, p + part.len()) =~= head.subrange(p, p + part.len()));
                assert(stands_at(s, part, p));
            }
        }
    }
}

/// Trimming takes white space away at both ends and nothing else, and leaves
/// none there.
pub proof fn law_trimming_takes_only_white_space(s: Seq<char>)
    ensures
        exists|before: Seq<char>, after: Seq<char>|
            {
                &&& s == #[trigger] (before + trimmed(s) + after)
                &&& forall|i: int| 0 <= i < before.len() ==> is_white_space(#[trigger] before[i])
                &&& forall|i: int| 0 <= i < after.len() ==> is_white_space(#[trigger] after[i])
            },
        trimmed(s).len() > 0 ==> !is_white_space(trimmed(s)[0]) && !is_white_space(
            trimmed(s).last(),
        ),
{
    let before = lemma_trim_start(s);
    let t = trim_start(s);
    let after = lemma_trim_end(t);
    assert(before + trimmed(s) + after =~= s);
}

proof fn lemma_trim_start(s: Seq<char>) -> (before: Seq<char>)
    ensures
        s == before + trim_start(s),
        forall|i: int| 0 <= i < before.len() ==> is_white_space(#[trigger] before[i]),
        trim_start(s).len() > 0 ==> !is_white_space(trim_start(s)[0]),
    decreases s.len(),
{
    if s.len() > 0 && is_white_space(s[0]) {
        let rest = lemma_trim_start(s.skip(1));
        let before = seq![s[0]] + rest;
        assert(s =~= seq![s[0]] + s.skip(1));
        assert(before + trim_start(s) =~= seq![s[0]] + (rest + trim_start(s.skip(1))));
        before
    } else {
        assert(s =~= Seq::<char>::empty() + s);
        Seq::empty()
    }
}

proof fn lemma_trim_end(s: Seq<char>) -> (after: Seq<char>)
    ensures
        s == trim_end(s) + after,
        forall|i: int| 0 <= i < after.len() ==> is_white_space(#[trigger] after[i]),
        trim_end(s).len() > 0 ==> !is_white_space(trim_end(s).last()) && trim_end(s)[0] == s[0],
    decreases s.len(),
{
    if s.len() > 0 && is_white_space(s.last()) {
        let rest = lemma_trim_end(s.drop_last());
        let after = rest.push(s.last());
        assert(s =~= s.drop_last().push(s.last()));
        assert(trim_end(s) + after =~= (trim_end(s.drop_last()) + rest).push(s.last()));
        after
    } else {
        assert(s =~= s + Seq::<char>::empty());
        Seq::empty()
    }
}

/// A digit behind a number makes it ten times as large, and the digit more.
pub proof fn law_decimal_counts_in_tens(s: Seq<char>, digit: u8)
    requires
        digit <= 9,
        all_digits(s),
    ensures
        decimal(s.push((0x30 + digit) as char)) == 10 * decimal(s) + digit,
        decimal(seq![(0x30 + digit) as char]) == digit,
        all_digits(s.push((0x30 + digit) as char)),
{
    assert(s.push((0x30 + digit) as char).drop_last() =~= s);
    let one = seq![(0x30 + digit) as char];
    assert(one.drop_last() =~= Seq::<char>::empty());
    assert(decimal(Seq::<char>::empty()) == 0);
    assert(decimal(one) == 10 * decimal(one.drop_last()) + (one.last() as int - '0' as int));
}

/// A number is read with or without a plus sign, and with a minus sign as its
/// negative, as far as it fits; nothing else is read.
pub proof fn law_signs_are_read(digits: Seq<char>)
    requires
        digits.len() > 0,
        all_digits(digits),
    ensures
        parsed_i32(digits) == (if decimal(digits) <= 0x7fff_ffff {
            Some(decimal(digits) as i32)
        } else {
            None
        }),
        parsed_i32(seq!['+'] + digits) == parsed_i32(digits),
        parsed_i32(seq!['-'] + digits) == (if decimal(digits) <= 0x8000_0000 {
            Some((-decimal(digits)) as i32)
        } else {
            None
        }),
{
    lemma_decimal_grows(digits, digits.len() as int);
    assert((seq!['+'] + digits).skip(1) =~= digits);
    assert((seq!['-'] + digits).skip(1) =~= digits);
    assert(is_digit(digits[0]));
}

/// A text with a character other than a digit behind its first, or with no digit
/// at all, is no number.
pub proof fn law_only_digits_are_read(s: Seq<char>, i: int)
    requires
        s.len() == 0 || (0 < i < s.len() && !('0' <= s[i] <= '9')) || (s.len() == 1 && !('0' <= s[0]
            <= '9')),
    ensures
        parsed_i32(s) is None,
{
    if s.len() > 1 && 0 < i < s.len() {
        if s[0] == '+' || s[0] == '-' {
            assert(unsigned_part(s)[i - 1] == s[i]);
        } else {
            assert(unsigned_part(s)[i] == s[i]);
        }
    } else if s.len() == 1 {
        assert(unsigned_part(s).len() > 0 ==> unsigned_part(s)[0] == s[0]);
    }
}

proof fn lemma_trim_start_all(before: Seq<char>, rest: Seq<char>)
    requires
        forall|i: int| 0 <= i < before.len() ==> is_white_space(#[trigger] before[i]),
        rest.len() > 0,
        !is_white_space(rest[0]),
    ensures
        trim_start(before + rest) == rest,
    decreases before.len(),
{
    let s = before + rest;
    if before.len() > 0 {
        assert(s[0] == before[0]);
        assert(s.skip(1) =~= before.skip(1) + rest);
        lemma_trim_start_all(before.skip(1), rest);
    } else {
        assert(s =~= rest);
    }
}

proof fn lemma_trim_end_all(x: Seq<char>, after: Seq<char>)
    requires
        forall|i: int| 0 <= i < after.len() ==> is_white_space(#[trigger] after[i]),
        x.len() > 0,
        !is_white_space(x.last()),
    ensures
        trim_end(x + after) == x,
    decreases after.len(),
{
    let s = x + after;
    if after.len() > 0 {
        assert(s.last() == after.last());
        assert(s.drop_last() =~= x + after.drop_last());
        lemma_trim_end_all(x, after.drop_last());
    } else {
        assert(s =~= x);
    }
}

/// A text with white space about it is left without it, all of it and nothing
/// more.
pub proof fn law_trimming_leaves_the_rest(before: Seq<char>, x: Seq<char>, after: Seq<char>)
    requires
        forall|i: int| 0 <= i < before.len() ==> is_white_space(#[trigger] before[i]),
        forall|i: int| 0 <= i < after.len() ==> is_white_space(#[trigger] after[i]),
        x.len() > 0,
        !is_white_space(x[0]),
        !is_white_space(x.last()),
    ensures
        trimmed(before + x + after) == x,
{
    assert(before + x + after =~= before + (x + after));
    assert((x + after)[0] == x[0]);
    lemma_trim_start_all(before, x + after);
    lemma_trim_end_all(x, after);
}

/// Of the ASCII characters the blank and those from tab to carriage return are
/// white space.
pub proof fn law_white_space_of_ascii(c: char)
    requires
        c < '\u{80}',
    ensures
        is_white_space(c) <==> c == ' ' || '\u{9}' <= c <= '\u{d}',
{
}

/// Of the others it is the next line, the spaces of all widths and the
/// separators of lines and paragraphs.
pub proof fn law_white_space_beyond_ascii(c: char)
    requires
        c >= '\u{80}',
    ensures
        is_white_space(c) <==> seq![
            0x85int, 0xa0, 0x1680, 0x2000, 0x2001, 0x2002, 0x2003, 0x2004, 0x2005, 0x2006, 0x2007,
            0x2008, 0x2009, 0x200a, 0x2028, 0x2029, 0x202f, 0x205f, 0x3000,
        ].contains(c as int),
{
    let all = seq![
        0x85int, 0xa0, 0x1680, 0x2000, 0x2001, 0x2002, 0x2003, 0x2004, 0x2005, 0x2006, 0x2007,
        0x2008, 0x2009, 0x200a, 0x2028, 0x2029, 0x202f, 0x205f, 0x3000,
    ];
    assert(all[0] == 0x85 && all[1] == 0xa0 && all[2] == 0x1680 && all[3] == 0x2000 && all[4]
        == 0x2001 && all[5] == 0x2002 && all[6] == 0x2003 && all[7] == 0x2004 && all[8] == 0x2005
        && all[9] == 0x2006 && all[10] == 0x2007 && all[11] == 0x2008 && all[12] == 0x2009
        && all[13] == 0x200a && all[14] == 0x2028 && all[15] == 0x2029 && all[16] == 0x202f
        && all[17] == 0x205f && all[18] == 0x3000);
}

pub proof fn lemma_decimal_is_not_negative(s: Seq<char>)
    requires
        all_digits(s),
    ensures
        decimal(s) >= 0,
    decreases s.len(),
{
    if s.len() > 0 {
        assert(is_digit(s.last()));
        assert forall|i: int| 0 <= i < s.drop_last().len() implies is_digit(
            #[trigger] s.drop_last()[i],
        ) by {
            assert(is_digit(s[i]));
        }
        lemma_decimal_is_not_negative(s.drop_last());
    }
}

/// What is replaced is the first occurrence, and the rest of the text stays;
/// where there is none, or one of the three texts is missing, there is no result.
pub proof fn law_first_occurrence_is_replaced(
    s: &str,
    part: &str,
    other: &str,
    result: Option<String>,
    without: Option<String>,
)
    requires
        call_ensures(rust_simple_str_replace, (Some(s), Some(part), Some(other)), result),
        call_ensures(rust_simple_str_replace, (Some(s), None, Some(other)), without),
    ensures
        without is None,
        result is None <==> !exists|before: Seq<char>, after: Seq<char>| #[trigger]
            (before + part@ + after) == s@,
        result is Some ==> exists|before: Seq<char>, after: Seq<char>|
            {
                &&& s@ == #[trigger] (before + part@ + after)
                &&& result->0@ == before + other@ + after
                &&& part@.len() > 0 ==> !contains((before + part@).drop_last(), part@)
            },
{
    law_contains_what_stands_in_it(s@, part@);
    if result is Some {
        law_only_the_first_is_replaced(s@, part@, other@, result->0@);
    }
}

} // verus!
