//! Tidying text taken from web pages.

use crate::numeric::{is_ascii_digit, is_digit};
use crate::text::{chars_of, code_of, string_of};
use vstd::prelude::*;

verus! {

/// `c` has Unicode's White_Space property.
pub open spec fn is_white_space(c: char) -> bool {
    let code = c as int;
    (0x09 <= code <= 0x0D) || code == 0x20 || code == 0x85 || code == 0xA0 || code == 0x1680 || (
    0x2000 <= code <= 0x200A) || code == 0x2028 || code == 0x2029 || code == 0x202F || code
        == 0x205F || code == 0x3000
}

/// Whether `c` has Unicode's White_Space property.
pub fn is_whitespace(c: char) -> (yes: bool)
    ensures
        yes == is_white_space(c),
{
    let code = code_of(c);
    (0x09 <= code && code <= 0x0D) || code == 0x20 || code == 0x85 || code == 0xA0 || code
        == 0x1680 || (0x2000 <= code && code <= 0x200A) || code == 0x2028 || code == 0x2029
        || code == 0x202F || code == 0x205F || code == 0x3000
}

/// The words of `s`, each run of white space between two words turned into
/// one space, and the white space at either end dropped.
pub open spec fn squeezed(s: Seq<char>) -> Seq<char>
    decreases s.len(),
{
    if s.len() == 0 {
        Seq::empty()
    } else if is_white_space(s.last()) {
        squeezed(s.drop_last())
    } else if s.len() >= 2 && is_white_space(s[s.len() - 2]) && squeezed(s.drop_last()).len() > 0 {
        squeezed(s.drop_last()).push(' ').push(s.last())
    } else {
        squeezed(s.drop_last()).push(s.last())
    }
}

/// The ASCII digits of `s`, in order.
pub open spec fn digits_of(s: Seq<char>) -> Seq<char>
    decreases s.len(),
{
    if s.len() == 0 {
        Seq::empty()
    } else if is_digit(s.last()) {
        digits_of(s.drop_last()).push(s.last())
    } else {
        digits_of(s.drop_last())
    }
}

/// The ASCII digits of `text`, in order.
pub fn keep_digits(text: &str) -> (digits: String)
    ensures
        digits@ == digits_of(text@),
{
    let chars = chars_of(text);
    let mut kept: Vec<char> = Vec::new();
    let mut i: usize = 0;
    assert(chars@.take(0) == Seq::<char>::empty());
    while i < chars.len()
        invariant
            i <= chars@.len(),
            kept@ == digits_of(chars@.take(i as int)),
        decreases chars@.len() - i,
    {
        proof {
            assert(chars@.take(i + 1).drop_last() == chars@.take(i as int));
            assert(chars@.take(i + 1).last() == chars@[i as int]);
        }
        if is_ascii_digit(chars[i]) {
            kept.push(chars[i]);
        }
        i += 1;
    }
    proof {
        assert(chars@.take(i as int) == chars@);
    }
    string_of(&kept)
}

/// Helpers for text taken from web pages.
pub struct HtmlParser;

impl HtmlParser {
    /// Drops the white space at both ends of `text` and turns every run of
    /// white space inside it into one space.
    pub fn clean_text(text: &str) -> (clean: String)
        ensures
            clean@ == squeezed(text@),
    {
        let chars = chars_of(text);
        let mut out: Vec<char> = Vec::new();
        let mut i: usize = 0;
        assert(chars@.take(0) == Seq::<char>::empty());
        while i < chars.len()
            invariant
                i <= chars@.len(),
                out@ == squeezed(chars@.take(i as int)),
            decreases chars@.len() - i,
        {
            proof {
                assert(chars@.take(i + 1).drop_last() == chars@.take(i as int));
                assert(chars@.take(i + 1).last() == chars@[i as int]);
                if i > 0 {
                    assert(chars@.take(i + 1)[i - 1] == chars@[i - 1]);
                }
            }
            let c = chars[i];
            if !is_whitespace(c) {
                if i > 0 && is_whitespace(chars[i - 1]) && out.len() > 0 {
                    out.push(' ');
                }
                out.push(c);
            }
            i += 1;
        }
        proof {
            assert(chars@.take(i as int) == chars@);
        }
        string_of(&out)
    }

    /// Keeps the ASCII digits of `text` and drops everything else.
    pub fn extract_digits(text: &str) -> (digits: String)
        ensures
            digits@ == digits_of(text@),
    {
        keep_digits(text)
    }
}

} // verus!
