//! The screening of input lines before they are decoded.

use vstd::prelude::*;
use vstd::string::StrSliceExecFns;
use vstd::utf8::is_ascii_chars;

verus! {

/// An ASCII character that trimming removes: space, tab, line feed, vertical
/// tab, form feed or carriage return.
pub open spec fn is_blank_char(c: char) -> bool {
    c == ' ' || c == '\t' || c == '\n' || c == '\u{0B}' || c == '\u{0C}' || c == '\r'
}

/// Some character of `s` survives trimming.
pub open spec fn has_content(s: Seq<char>) -> bool {
    exists|i: int| 0 <= i < s.len() && !is_blank_char(#[trigger] s[i])
}

/// A line that is pure ASCII and non-empty after trimming.
pub struct LikelyValidLine(String);

impl LikelyValidLine {
    pub closed spec fn view(&self) -> Seq<char> {
        self.0@
    }

    /// The line, unchanged, if it is pure ASCII and non-empty after trimming.
    pub fn valid_line(line: String) -> (r: Option<LikelyValidLine>)
        ensures
            r is Some <==> has_content(line@) && is_ascii_chars(line@),
            r matches Some(v) ==> v.view() == line@,
    {
        if !line.is_ascii() {
            return None;
        }
        let n = line.as_str().unicode_len();
        let mut i: usize = 0;
        while i < n
            invariant
                0 <= i <= n,
                n == line@.len(),
                is_ascii_chars(line@),
                forall|j: int| 0 <= j < i ==> is_blank_char(#[trigger] line@[j]),
            decreases n - i,
        {
            let c = line.as_str().get_char(i);
            if !(c == ' ' || c == '\t' || c == '\n' || c == '\u{0B}' || c == '\u{0C}' || c == '\r') {
                return Some(LikelyValidLine(line));
            }
            i = i + 1;
        }
        None
    }

    /// The text of the line.
    pub fn into_string(self) -> (r: String)
        ensures
            r@ == self.view(),
    {
        self.0
    }
}

} // verus!
