//! Deciding whether a header is already present in a file's bytes.

use crate::text::{
    chars_of, contains, find_first, lemma_line_end, lemma_line_len, lemma_line_len_append, line_len,
    utf8_text,
};
use vstd::prelude::*;
use vstd::utf8::{decode_utf8, valid_utf8};

verus! {

/// The byte that ends a line.
pub const NEWLINE: u8 = 10;

/// The part of the input a checker had to read is not UTF-8 text.
#[derive(Clone, Copy, Debug, PartialEq, Eq, Structural)]
pub struct BinaryDetected;

/// Decides whether a file already holds the desired header.
///
/// The library ships [`SingleLineChecker`]; other strategies can implement this trait.
pub trait HeaderChecker {
    /// What [`HeaderChecker::check`] answers for the bytes `input`.
    spec fn spec_check(&self, input: Seq<u8>) -> Result<bool, BinaryDetected>;

    /// `Ok(true)` when the header is present in `input`, `Ok(false)` when it is not, and
    /// `Err(BinaryDetected)` when the bytes that had to be read are not UTF-8 text.
    fn check(&self, input: &[u8]) -> (r: Result<bool, BinaryDetected>)
        ensures
            r == self.spec_check(input@),
    ;

    /// How many lines from the top of a file decide the check, when that number is bounded:
    /// the check answers the same on those lines alone as on the whole input, so a caller
    /// need read no further. `None` when the check may need the whole input.
    fn window_lines(&self) -> (r: Option<usize>)
        ensures
            r is Some ==> forall|input: Seq<u8>|
                #[trigger] self.spec_check(input) == self.spec_check(
                    first_lines(input, r->Some_0 as nat),
                ),
    {
        None
    }
}

/// The first `n` lines of `input`, each with its newline byte when it has one.
pub open spec fn first_lines(input: Seq<u8>, n: nat) -> Seq<u8>
    decreases n,
{
    if n == 0 || input.len() == 0 {
        seq![]
    } else {
        let k = line_len(input, NEWLINE) as int;
        input.take(k) + first_lines(input.skip(k), (n - 1) as nat)
    }
}

/// Looks for `pattern` in the first `n` lines of `input`, one line at a time.
///
/// A line runs up to and including a newline byte, or to the end of the input. Reading stops
/// at the first line that holds the pattern, after `n` lines, or at the end of the input; a
/// line that is not UTF-8 stops it with `BinaryDetected`.
pub open spec fn scan_lines(input: Seq<u8>, pattern: Seq<char>, n: nat) -> Result<bool, BinaryDetected>
    decreases n,
{
    if n == 0 || input.len() == 0 {
        Ok(false)
    } else {
        let k = line_len(input, NEWLINE) as int;
        let line = input.take(k);
        if !valid_utf8(line) {
            Err(BinaryDetected)
        } else if contains(decode_utf8(line), pattern) {
            Ok(true)
        } else {
            scan_lines(input.skip(k), pattern, (n - 1) as nat)
        }
    }
}

/// Scanning the first `n` lines of `input` alone answers as scanning the whole input.
pub proof fn lemma_scan_reads_window(input: Seq<u8>, pattern: Seq<char>, n: nat)
    ensures
        scan_lines(input, pattern, n) == scan_lines(first_lines(input, n), pattern, n),
    decreases n,
{
    if n > 0 && input.len() > 0 {
        let k = line_len(input, NEWLINE) as int;
        let head = input.take(k);
        let rest = first_lines(input.skip(k), (n - 1) as nat);
        let f = first_lines(input, n);
        lemma_line_len(input, NEWLINE);
        lemma_scan_reads_window(input.skip(k), pattern, (n - 1) as nat);
        if input[k - 1] == NEWLINE {
            lemma_line_end(head, NEWLINE, k - 1);
            lemma_line_len_append(head, rest, NEWLINE, k - 1);
        } else {
            assert(input.skip(k).len() == 0);
            assert(rest == Seq::<u8>::empty());
            assert(f == input);
        }
        assert(f.take(k) == head);
        assert(f.skip(k) == rest);
    }
}

/// The same scan over text: whether `pattern` occurs in one of the first `n` lines of `s`,
/// where a line runs up to and including a newline, or to the end.
pub open spec fn scan_text(s: Seq<char>, pattern: Seq<char>, n: nat) -> bool
    decreases n,
{
    if n == 0 || s.len() == 0 {
        false
    } else {
        let k = line_len(s, '\n') as int;
        contains(s.take(k), pattern) || scan_text(s.skip(k), pattern, (n - 1) as nat)
    }
}

/// Checks for a pattern in each of the first several lines of a file.
#[derive(Debug)]
pub struct SingleLineChecker {
    /// Text to look for within a single line.
    pattern: String,
    /// Number of lines to look through.
    max_lines: usize,
}

impl SingleLineChecker {
    /// The text looked for.
    pub closed spec fn pattern_spec(&self) -> Seq<char> {
        self.pattern@
    }

    /// The number of lines looked through.
    pub closed spec fn max_lines_spec(&self) -> nat {
        self.max_lines as nat
    }

    /// A checker that looks for `pattern` in each of the first `max_lines` lines of a file.
    pub fn new(pattern: String, max_lines: usize) -> (r: Self)
        ensures
            r.pattern_spec() == pattern@,
            r.max_lines_spec() == max_lines,
    {
        SingleLineChecker { pattern, max_lines }
    }
}

impl Clone for SingleLineChecker {
    fn clone(&self) -> (r: Self)
        ensures
            r == *self,
    {
        SingleLineChecker { pattern: self.pattern.clone(), max_lines: self.max_lines }
    }
}

impl HeaderChecker for SingleLineChecker {
    open spec fn spec_check(&self, input: Seq<u8>) -> Result<bool, BinaryDetected> {
        scan_lines(input, self.pattern_spec(), self.max_lines_spec())
    }

    fn check(&self, input: &[u8]) -> (r: Result<bool, BinaryDetected>) {
        let pattern = chars_of(self.pattern.as_str());
        let mut pos: usize = 0;
        let mut lines_read: usize = 0;
        assert(input@.skip(0) == input@);
        while lines_read < self.max_lines
            invariant
                pos <= input@.len(),
                lines_read <= self.max_lines,
                pattern@ == self.pattern_spec(),
                scan_lines(input@, self.pattern_spec(), self.max_lines_spec()) == scan_lines(
                    input@.skip(pos as int),
                    self.pattern_spec(),
                    (self.max_lines - lines_read) as nat,
                ),
            decreases self.max_lines - lines_read,
        {
            if pos == input.len() {
                return Ok(false);
            }
            let ghost rest = input@.skip(pos as int);
            let mut end: usize = pos;
            while end < input.len() && input[end] != NEWLINE
                invariant
                    pos <= end <= input@.len(),
                    rest == input@.skip(pos as int),
                    forall|k: int| 0 <= k < end - pos ==> rest[k] != NEWLINE,
                decreases input.len() - end,
            {
                end = end + 1;
            }
            proof {
                lemma_line_end(rest, NEWLINE, end - pos);
            }
            if end < input.len() {
                end = end + 1;
            }
            let line = &input[pos..end];
            assert(line@ == rest.take(line_len(rest, NEWLINE) as int));
            match utf8_text(line) {
                None => {
                    return Err(BinaryDetected);
                },
                Some(text) => {
                    let chars = chars_of(text);
                    if find_first(&chars, &pattern).is_some() {
                        return Ok(true);
                    }
                },
            }
            assert(input@.skip(end as int) == rest.skip(line_len(rest, NEWLINE) as int));
            lines_read = lines_read + 1;
            pos = end;
        }
        Ok(false)
    }

    fn window_lines(&self) -> (r: Option<usize>) {
        assert forall|input: Seq<u8>| #[trigger] self.spec_check(input) == self.spec_check(
            first_lines(input, self.max_lines as nat),
        ) by {
            lemma_scan_reads_window(input, self.pattern_spec(), self.max_lines_spec());
        }
        Some(self.max_lines)
    }
}

} // verus!
