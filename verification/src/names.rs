use vstd::prelude::*;
use vstd::string::StringSliceAdditionalSpecFns;
use vstd::utf8::is_ascii_chars;

verus! {

broadcast use vstd::utf8::is_ascii_chars_encode_utf8;

/// A character with ASCII upper-case letters mapped to lower case, as
/// `char::to_ascii_lowercase` does; every other character is left alone.
pub open spec fn ascii_lower(c: char) -> char {
    if 'A' <= c && c <= 'Z' {
        ((c as u32) + 32) as char
    } else {
        c
    }
}

/// A text with every character passed through [`ascii_lower`].
pub open spec fn lowercase(s: Seq<char>) -> Seq<char> {
    Seq::new(s.len(), |i: int| ascii_lower(s[i]))
}

/// Whether `text`, with its ASCII letters lowered, is exactly `word`.
/// `word` is an ASCII word (the names the command line accepts are).
pub fn matches_word(text: &str, word: &str) -> (b: bool)
    requires
        is_ascii_chars(word@),
    ensures
        b == (lowercase(text@) == word@),
{
    if !text.is_ascii() {
        proof {
            let i = choose|i: int| 0 <= i < text@.len() && !('\0' <= #[trigger] text@[i] <= '\u{7f}');
            if lowercase(text@) == word@ {
                assert(lowercase(text@)[i] == ascii_lower(text@[i]));
                assert(word@[i] <= '\u{7f}');
            }
        }
        return false;
    }
    let tb = text.as_bytes();
    let wb = word.as_bytes();
    proof {
        assert(is_ascii_chars(text@));
    }
    if tb.len() != wb.len() {
        return false;
    }
    let n = tb.len();
    let mut i: usize = 0;
    while i < n
        invariant
            n == tb@.len(),
            n == wb@.len(),
            n == text@.len(),
            n == word@.len(),
            is_ascii_chars(text@),
            is_ascii_chars(word@),
            tb@ == text.spec_bytes(),
            wb@ == word.spec_bytes(),
            0 <= i <= n,
            forall|j: int| 0 <= j < i ==> ascii_lower(text@[j]) == word@[j],
        decreases n - i,
    {
        let b = tb[i];
        let lower: u8 = if 65 <= b && b <= 90 { b + 32 } else { b };
        proof {
            let c = text@[i as int];
            let w = word@[i as int];
            assert(b == c as u8);
            assert(wb@[i as int] == w as u8);
            assert('\0' <= c <= '\u{7f}');
            assert('\0' <= w <= '\u{7f}');
        }
        if lower != wb[i] {
            proof {
                let c = text@[i as int];
                let w = word@[i as int];
                assert(ascii_lower(c) != w);
                assert(lowercase(text@)[i as int] == ascii_lower(c));
            }
            return false;
        }
        proof {
            let c = text@[i as int];
            let w = word@[i as int];
            assert(ascii_lower(c) == w);
        }
        i = i + 1;
    }
    proof {
        assert(lowercase(text@) =~= word@);
    }
    true
}

} // verus!
