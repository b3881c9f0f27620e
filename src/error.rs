//! Locating an error in the source text for diagnostics.

use vstd::prelude::*;
use vstd::string::*;
use crate::scanner::{
    byte_offset, bytes_between, chars_of, find_char, find_char_exec, lemma_find_char, utf8_len,
};
use crate::parser::ParserError;
use crate::scanner::ScannerError;

verus! {

/// An error of scanning or of parsing, to be reported against the source.
#[derive(Debug, PartialEq)]
pub enum CloxError {
    ScannerError(ScannerError),
    ParserError(ParserError),
}

/// Where line `line` (counted from 1) of `s` starts and ends: the lines are
/// separated by newlines, which belong to neither line.
pub open spec fn line_bounds(s: Seq<char>, line: int) -> Option<(int, int)>
    decreases line,
{
    if line < 1 {
        None
    } else if line == 1 {
        Some((0, find_char(s, 0, '\n')))
    } else {
        match line_bounds(s, line - 1) {
            Some((_, end)) => if end < s.len() {
                Some((end + 1, find_char(s, end + 1, '\n')))
            } else {
                None
            },
            None => None,
        }
    }
}

proof fn lemma_line_bounds(s: Seq<char>, line: int)
    ensures
        line_bounds(s, line) matches Some((a, b)) ==> 0 <= a <= b <= s.len(),
    decreases line,
{
    if line == 1 {
        lemma_find_char(s, 0, '\n');
    } else if line > 1 {
        lemma_line_bounds(s, line - 1);
        if let Some((_, end)) = line_bounds(s, line - 1) {
            if end < s.len() {
                lemma_find_char(s, end + 1, '\n');
            }
        }
    }
}

/// Where the text of a line from `a` to the newline at `b` (or the end)
/// ends: before a carriage return that precedes the newline.
pub open spec fn line_text_end(s: Seq<char>, a: int, b: int) -> int {
    if a < b < s.len() && s[b - 1] == '\r' {
        b - 1
    } else {
        b
    }
}

/// The text of line `line` (counted from 1) of `source`, and the column of
/// byte offset `current_index` in it: the offset less the length in bytes of
/// the lines before it, line ends included. Lines are those of
/// `str::lines`: separated by `\n` or `\r\n`, which belong to neither line,
/// and a line exists only where it starts before the end of the text. A line
/// that does not exist gives `("", 0)`; an offset before the line gives
/// column 0.
pub fn find_location_in_source(source: &str, line: usize, current_index: usize) -> (r: (&str, usize))
    requires
        utf8_len(source@) < usize::MAX,
    ensures
        match line_bounds(source@, line as int) {
            Some((a, b)) => if a < source@.len() {
                &&& r.0@ == source@.subrange(a, line_text_end(source@, a, b))
                &&& r.1 == if current_index >= byte_offset(source@, a) {
                    current_index - byte_offset(source@, a)
                } else {
                    0
                }
            } else {
                r.0@ == Seq::<char>::empty() && r.1 == 0
            },
            None => r.0@ == Seq::<char>::empty() && r.1 == 0,
        },
{
    let s = chars_of(source);
    if line == 0 {
        let empty = source.substring_char(0, 0);
        return (empty, 0);
    }
    proof {
        lemma_find_char(s@, 0, '\n');
    }
    let mut k: usize = 1;
    let mut start: usize = 0;
    let mut end: usize = find_char_exec(&s, 0, '\n');
    while k < line
        invariant
            1 <= k <= line,
            line_bounds(s@, k as int) == Some((start as int, end as int)),
            start <= end <= s@.len(),
            s@ == source@,
        decreases line - k,
    {
        if end >= s.len() {
            let empty = source.substring_char(0, 0);
            proof {
                lemma_no_line_after(s@, k as int, line as int);
            }
            return (empty, 0);
        }
        proof {
            lemma_find_char(s@, end + 1, '\n');
        }
        start = end + 1;
        end = find_char_exec(&s, start, '\n');
        k = k + 1;
    }
    if start >= s.len() {
        let empty = source.substring_char(0, 0);
        return (empty, 0);
    }
    let text_end: usize = if start < end && end < s.len() && s[end - 1] == '\r' {
        end - 1
    } else {
        end
    };
    let text = source.substring_char(start, text_end);
    let line_byte: usize = bytes_between(&s, 0, start);
    let col: usize = if current_index >= line_byte {
        current_index - line_byte
    } else {
        0
    };
    (text, col)
}

/// A line that ends the text has no line after it.
proof fn lemma_no_line_after(s: Seq<char>, k: int, line: int)
    requires
        1 <= k < line,
        line_bounds(s, k) matches Some((_, end)) && end >= s.len(),
    ensures
        line_bounds(s, line) is None,
    decreases line - k,
{
    if line > k + 1 {
        lemma_no_line_after(s, k, line - 1);
    }
}

} // verus!
