//! Decimal numerals: reading integers from text and writing them back.

use vstd::prelude::*;

verus! {

/// `c` is one of the ten ASCII digits.
pub open spec fn is_digit(c: char) -> bool {
    '0' <= c <= '9'
}

/// The number an ASCII digit stands for.
pub open spec fn digit_value(c: char) -> nat
    recommends
        is_digit(c),
{
    (c as int - '0' as int) as nat
}

/// Every character of `s` is an ASCII digit.
pub open spec fn all_digits(s: Seq<char>) -> bool {
    forall|i: int| 0 <= i < s.len() ==> is_digit(#[trigger] s[i])
}

/// The number that a run of digits denotes in base ten; the empty run denotes zero.
pub open spec fn digits_value(s: Seq<char>) -> nat
    decreases s.len(),
{
    if s.len() == 0 {
        0
    } else {
        digits_value(s.drop_last()) * 10 + digit_value(s.last())
    }
}

/// `s` without one leading `+`, if it has one.
pub open spec fn without_plus(s: Seq<char>) -> Seq<char> {
    if s.len() > 0 && s[0] == '+' {
        s.skip(1)
    } else {
        s
    }
}

/// The value of an unsigned numeral: an optional `+`, then one or more digits.
pub open spec fn unsigned_value(s: Seq<char>) -> Option<nat> {
    let body = without_plus(s);
    if body.len() > 0 && all_digits(body) {
        Some(digits_value(body))
    } else {
        None
    }
}

/// The value of `s` read as a `u32`: an unsigned numeral that fits.
pub open spec fn u32_value(s: Seq<char>) -> Option<u32> {
    match unsigned_value(s) {
        Some(v) if v <= u32::MAX => Some(v as u32),
        _ => None,
    }
}

/// The value of `s` read as an `i64`: an optional sign, one or more digits,
/// and a result within the type's range.
pub open spec fn i64_value(s: Seq<char>) -> Option<i64> {
    if s.len() > 0 && s[0] == '-' {
        let body = s.skip(1);
        if body.len() > 0 && all_digits(body) && digits_value(body) <= 0x8000_0000_0000_0000 {
            Some((-(digits_value(body) as int)) as i64)
        } else {
            None
        }
    } else {
        match unsigned_value(s) {
            Some(v) if v <= i64::MAX => Some(v as i64),
            _ => None,
        }
    }
}

/// A longer run of digits never denotes less than one of its prefixes.
pub proof fn lemma_digits_value_prefix(s: Seq<char>, i: int)
    requires
        0 <= i <= s.len(),
    ensures
        digits_value(s.take(i)) <= digits_value(s),
    decreases s.len(),
{
    if i == s.len() {
        assert(s.take(i) == s);
    } else {
        assert(s.drop_last().take(i) == s.take(i));
        lemma_digits_value_prefix(s.drop_last(), i);
    }
}

/// Whether `c` is an ASCII digit.
pub fn is_ascii_digit(c: char) -> (yes: bool)
    ensures
        yes == is_digit(c),
{
    c >= '0' && c <= '9'
}

/// Reads `chars[from..]` as a run of digits denoting at most `limit`.
pub fn read_digits(chars: &Vec<char>, from: usize, limit: u64) -> (value: Option<u64>)
    requires
        from <= chars@.len(),
    ensures
        value == (if from < chars@.len() && all_digits(chars@.skip(from as int)) && digits_value(
            chars@.skip(from as int),
        ) <= limit {
            Some(digits_value(chars@.skip(from as int)) as u64)
        } else {
            None
        }),
{
    let ghost body = chars@.skip(from as int);
    if from == chars.len() {
        return None;
    }
    let mut acc: u64 = 0;
    let mut i: usize = from;
    while i < chars.len()
        invariant
            from <= i <= chars@.len(),
            body == chars@.skip(from as int),
            all_digits(body.take(i - from)),
            acc == digits_value(body.take(i - from)),
            acc <= limit,
        decreases chars@.len() - i,
    {
        let c = chars[i];
        assert(body[i - from] == c);
        if !is_ascii_digit(c) {
            return None;
        }
        let d: u64 = (c as u32 - '0' as u32) as u64;
        proof {
            assert(body.take(i - from + 1).drop_last() == body.take(i - from));
            assert(body.take(i - from + 1).last() == c);
            assert(all_digits(body.take(i - from + 1))) by {
                assert forall|k: int| 0 <= k < i - from + 1 implies is_digit(
                    #[trigger] body.take(i - from + 1)[k],
                ) by {
                    if k < i - from {
                        assert(body.take(i - from)[k] == body.take(i - from + 1)[k]);
                    }
                }
            }
            lemma_digits_value_prefix(body, i - from + 1);
        }
        if d > limit || acc > (limit - d) / 10 {
            proof {
                assert(acc * 10 + d > limit) by (nonlinear_arith)
                    requires
                        d > limit || acc > (limit - d) / 10,
                        acc >= 0,
                        d >= 0,
                        limit >= 0,
                ;
                if all_digits(body) {
                    assert(digits_value(body) > limit);
                }
            }
            return None;
        }
        assert(acc * 10 + d <= limit) by (nonlinear_arith)
            requires
                acc <= (limit - d) / 10,
                d <= limit,
        ;
        acc = acc * 10 + d;
        i += 1;
    }
    proof {
        assert(body.take(i - from) == body);
    }
    Some(acc)
}

/// Reads `text` as a `u32`.
pub fn parse_u32(text: &str) -> (value: Option<u32>)
    ensures
        value == u32_value(text@),
{
    let chars = chars_of_text(text);
    let from: usize = if chars.len() > 0 && chars[0] == '+' {
        1
    } else {
        0
    };
    proof {
        if from == 0 {
            assert(chars@.skip(0) == chars@);
        }
    }
    match read_digits(&chars, from, 0xffff_ffff) {
        Some(v) => Some(v as u32),
        None => None,
    }
}

/// Reads `text` as an `i64`.
pub fn parse_i64(text: &str) -> (value: Option<i64>)
    ensures
        value == i64_value(text@),
{
    let chars = chars_of_text(text);
    if chars.len() > 0 && chars[0] == '-' {
        match read_digits(&chars, 1, 0x8000_0000_0000_0000) {
            Some(v) => {
                if v == 0x8000_0000_0000_0000 {
                    Some(i64::MIN)
                } else {
                    Some(-(v as i64))
                }
            },
            None => None,
        }
    } else {
        let from: usize = if chars.len() > 0 && chars[0] == '+' {
            1
        } else {
            0
        };
        proof {
            if from == 0 {
                assert(chars@.skip(0) == chars@);
            }
        }
        match read_digits(&chars, from, 0x7fff_ffff_ffff_ffff) {
            Some(v) => Some(v as i64),
            None => None,
        }
    }
}

/// The index just past the digits that stand in `s` from index `from` on.
pub open spec fn digit_run(s: Seq<char>, from: int) -> int
    decreases s.len() - from,
{
    if 0 <= from < s.len() && is_digit(s[from]) {
        digit_run(s, from + 1)
    } else {
        from
    }
}

/// `c`, in lower case if it is an ASCII capital.
pub open spec fn ascii_lower(c: char) -> char {
    if 'A' <= c <= 'Z' {
        ((c as int) + 32) as char
    } else {
        c
    }
}

/// `s` is `word` but for the case of its ASCII letters.
pub open spec fn spells(s: Seq<char>, word: Seq<char>) -> bool {
    s.len() == word.len() && forall|i: int| 0 <= i < s.len() ==> ascii_lower(#[trigger] s[i]) == word[i]
}

/// `c` is a plus or a minus sign.
pub open spec fn is_sign(c: char) -> bool {
    c == '+' || c == '-'
}

/// `s` from index `from` on is an exponent: `e` or `E`, an optional sign,
/// and one or more digits up to the end of `s`.
pub open spec fn is_exponent(s: Seq<char>, from: int) -> bool {
    &&& 0 <= from < s.len()
    &&& (s[from] == 'e' || s[from] == 'E')
    &&& {
        let digits = if from + 1 < s.len() && is_sign(s[from + 1]) {
            from + 2
        } else {
            from + 1
        };
        digits < s.len() && digit_run(s, digits) == s.len()
    }
}

/// `s` is written as a decimal number: an optional sign; then `inf`,
/// `infinity` or `nan` in any letter case, or digits with at most one point
/// among them and at least one digit, optionally followed by an exponent.
pub open spec fn is_decimal_text(s: Seq<char>) -> bool {
    let start: int = if s.len() > 0 && is_sign(s[0]) {
        1
    } else {
        0
    };
    let body = s.skip(start);
    if spells(body, "inf"@) || spells(body, "infinity"@) || spells(body, "nan"@) {
        true
    } else {
        let whole_end = digit_run(s, start);
        let has_point = whole_end < s.len() && s[whole_end] == '.';
        let fraction_end = if has_point {
            digit_run(s, whole_end + 1)
        } else {
            whole_end
        };
        let digits = if has_point {
            (whole_end - start) + (fraction_end - whole_end - 1)
        } else {
            whole_end - start
        };
        digits >= 1 && (fraction_end == s.len() || is_exponent(s, fraction_end))
    }
}

/// The index just past the digits that stand in `chars` from `from` on.
pub fn skip_digits(chars: &Vec<char>, from: usize) -> (end: usize)
    requires
        from <= chars@.len(),
    ensures
        end == digit_run(chars@, from as int),
        from <= end <= chars@.len(),
{
    let mut end: usize = from;
    while end < chars.len() && is_ascii_digit(chars[end])
        invariant
            from <= end <= chars@.len(),
            digit_run(chars@, from as int) == digit_run(chars@, end as int),
        decreases chars@.len() - end,
    {
        end += 1;
    }
    end
}

/// Whether `chars[from..]` is `word` but for the case of its ASCII letters.
pub fn spells_word(chars: &Vec<char>, from: usize, word: &str) -> (yes: bool)
    requires
        from <= chars@.len(),
    ensures
        yes == spells(chars@.skip(from as int), word@),
{
    let letters = chars_of_text(word);
    if chars.len() - from != letters.len() {
        return false;
    }
    let ghost body = chars@.skip(from as int);
    let mut i: usize = 0;
    while i < letters.len()
        invariant
            i <= letters@.len(),
            from + letters@.len() == chars@.len() <= usize::MAX,
            body == chars@.skip(from as int),
            word@ == letters@,
            forall|k: int| 0 <= k < i ==> ascii_lower(#[trigger] body[k]) == letters@[k],
        decreases letters@.len() - i,
    {
        let c = chars[from + i];
        assert(body[i as int] == c);
        let code = crate::text::code_of(c);
        let lower: u32 = if c >= 'A' && c <= 'Z' {
            code + 32
        } else {
            code
        };
        assert(lower == ascii_lower(c) as int);
        if lower != crate::text::code_of(letters[i]) {
            assert(ascii_lower(body[i as int]) != word@[i as int]);
            return false;
        }
        i += 1;
    }
    true
}

/// Whether `text` is written as a decimal number.
pub fn is_decimal(text: &str) -> (yes: bool)
    ensures
        yes == is_decimal_text(text@),
{
    let chars = chars_of_text(text);
    let start: usize = if chars.len() > 0 && (chars[0] == '+' || chars[0] == '-') {
        1
    } else {
        0
    };
    if spells_word(&chars, start, "inf") || spells_word(&chars, start, "infinity") || spells_word(
        &chars,
        start,
        "nan",
    ) {
        return true;
    }
    let whole_end = skip_digits(&chars, start);
    let has_point = whole_end < chars.len() && chars[whole_end] == '.';
    let fraction_end = if has_point {
        skip_digits(&chars, whole_end + 1)
    } else {
        whole_end
    };
    let digits = if has_point {
        (whole_end - start) + (fraction_end - whole_end - 1)
    } else {
        whole_end - start
    };
    if digits < 1 {
        return false;
    }
    if fraction_end == chars.len() {
        return true;
    }
    if chars[fraction_end] != 'e' && chars[fraction_end] != 'E' {
        return false;
    }
    let after = fraction_end + 1;
    let digits_from = if after < chars.len() && (chars[after] == '+' || chars[after] == '-') {
        after + 1
    } else {
        after
    };
    if digits_from >= chars.len() {
        return false;
    }
    skip_digits(&chars, digits_from) == chars.len()
}

/// The characters of `text`.
fn chars_of_text(text: &str) -> (chars: Vec<char>)
    ensures
        chars@ == text@,
{
    crate::text::chars_of(text)
}

/// The ASCII digit that stands for `d`.
pub open spec fn digit_char(d: nat) -> char
    recommends
        d < 10,
{
    (d + '0' as nat) as char
}

/// The shortest base-ten numeral of `n`.
pub open spec fn decimal_text(n: nat) -> Seq<char>
    decreases n,
{
    if n < 10 {
        seq![digit_char(n)]
    } else {
        decimal_text(n / 10).push(digit_char(n % 10))
    }
}

/// Reading the numeral of a number gives the number back.
pub proof fn lemma_numeral_round_trip(n: nat)
    ensures
        decimal_text(n).len() > 0,
        all_digits(decimal_text(n)),
        digits_value(decimal_text(n)) == n,
    decreases n,
{
    let last = digit_char(n % 10);
    assert(is_digit(last) && digit_value(last) == n % 10);
    if n < 10 {
        assert(decimal_text(n) == seq![last]);
        assert(seq![last].drop_last() == Seq::<char>::empty());
        assert(digits_value(seq![last].drop_last()) == 0);
    } else {
        lemma_numeral_round_trip(n / 10);
        let head = decimal_text(n / 10);
        assert(head.push(last).drop_last() == head);
        assert(head.push(last).last() == last);
        assert forall|i: int| 0 <= i < head.push(last).len() implies is_digit(
            #[trigger] head.push(last)[i],
        ) by {
            if i < head.len() {
                assert(head.push(last)[i] == head[i]);
            }
        }
    }
}

/// Appends the base-ten numeral of `n` to `out`.
pub fn push_decimal(out: &mut Vec<char>, n: u64)
    ensures
        final(out)@ == old(out)@ + decimal_text(n as nat),
    decreases n,
{
    if n >= 10 {
        push_decimal(out, n / 10);
    }
    let d: u8 = (n % 10) as u8;
    let c: char = (48u8 + d) as char;
    out.push(c);
    proof {
        assert(c == digit_char((n % 10) as nat));
        if n < 10 {
            assert(old(out)@.push(c) =~= old(out)@ + seq![c]);
        } else {
            assert((old(out)@ + decimal_text((n / 10) as nat)).push(c) =~= old(out)@
                + decimal_text((n / 10) as nat).push(c));
        }
    }
}

/// The base-ten numeral of `n`.
pub fn u64_to_text(n: u64) -> (text: String)
    ensures
        text@ == decimal_text(n as nat),
{
    let mut out: Vec<char> = Vec::new();
    push_decimal(&mut out, n);
    assert(Seq::<char>::empty() + decimal_text(n as nat) =~= decimal_text(n as nat));
    crate::text::string_of(&out)
}

} // verus!
