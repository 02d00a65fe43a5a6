//! A header to look for, add or delete, and the three operations on a file's contents.

use crate::checker::{BinaryDetected, HeaderChecker};
use crate::delimiters::{
    DelimiterSpec, FilePath, HeaderDelimiters, header_delimiters, wrap_header, wrapped,
};
use crate::errors::{AddHeaderError, DeleteHeaderError, invalid_data_error};
use crate::text::{
    chars_of, contains, find_first, lemma_line_end, line_len, replace_first, replace_first_chars,
    string_of, utf8_text,
};
use vstd::prelude::*;
use vstd::utf8::{decode_utf8, valid_utf8};

verus! {

/// A first line that has to stay first: a shebang, an XML or doctype declaration, a PHP
/// opening tag, or a Ruby or Dockerfile directive.
pub open spec fn is_magic_line(line: Seq<char>) -> bool {
    ||| contains(line, "#!"@)
    ||| contains(line, "<?xml"@)
    ||| contains(line, "<!doctype"@)
    ||| contains(line, "# encoding:"@)
    ||| contains(line, "# frozen_string_literal:"@)
    ||| contains(line, "<?php"@)
    ||| contains(line, "# escape"@)
    ||| contains(line, "# syntax"@)
}

/// How many leading characters of `text` stay above an added header: its first line and that
/// line's newline when the line is magic, and none otherwise.
///
/// A magic line stays on top only when a newline ends it. A file that is a single magic line
/// without a newline, such as `#!/bin/sh` alone, gets the header above that line: keeping it
/// on top would need a newline the file does not have, and deleting the header again would
/// then not give back the same bytes.
pub open spec fn kept_len(text: Seq<char>) -> int {
    let k = line_len(text, '\n') as int;
    if k > 0 && text[k - 1] == '\n' && is_magic_line(text.take(k - 1)) {
        k
    } else {
        0
    }
}

/// `text` with the framed header `w` added: after a magic first line ended by a newline if
/// there is one (see [`kept_len`]), else at the top, and followed by one blank separator line.
pub open spec fn with_header(text: Seq<char>, w: Seq<char>) -> Seq<char> {
    let k = kept_len(text);
    text.take(k) + w + seq!['\n'] + text.skip(k)
}

/// The exact block that adding the header `h` in the syntax `d` writes: the framed header and
/// the blank separator line.
pub open spec fn added_block(h: Seq<char>, d: DelimiterSpec) -> Seq<char> {
    wrapped(h, d).push('\n')
}

/// What adding or deleting a header does to a file.
pub enum Edit {
    /// The operation fails.
    Failed,
    /// The file stays as it is.
    Unchanged,
    /// The file's text becomes the one held.
    Rewritten(Seq<char>),
}

/// Whether `line` holds `marker`.
fn has_marker(line: &Vec<char>, marker: &str) -> (r: bool)
    ensures
        r == contains(line@, marker@),
{
    find_first(line, &chars_of(marker)).is_some()
}

/// Whether `line` is a magic first line.
fn is_magic(line: &Vec<char>) -> (r: bool)
    ensures
        r == is_magic_line(line@),
{
    has_marker(line, "#!") || has_marker(line, "<?xml") || has_marker(line, "<!doctype")
        || has_marker(line, "# encoding:") || has_marker(line, "# frozen_string_literal:")
        || has_marker(line, "<?php") || has_marker(line, "# escape") || has_marker(
        line,
        "# syntax",
    )
}

/// The number of leading characters of `text` that stay above an added header.
fn kept_prefix(text: &Vec<char>) -> (r: usize)
    ensures
        r == kept_len(text@),
        r <= text.len(),
{
    let mut first_line: Vec<char> = Vec::new();
    let mut i: usize = 0;
    assert(text@.take(0) == Seq::<char>::empty());
    while i < text.len() && text[i] != '\n'
        invariant
            i <= text.len(),
            first_line@ == text@.take(i as int),
            forall|k: int| 0 <= k < i ==> text@[k] != '\n',
        decreases text.len() - i,
    {
        first_line.push(text[i]);
        i = i + 1;
        assert(text@.take(i as int) == text@.take(i - 1).push(text@[i - 1]));
    }
    proof {
        lemma_line_end(text@, '\n', i as int);
    }
    if i < text.len() && is_magic(&first_line) {
        i + 1
    } else {
        0
    }
}

/// `text` with the framed header `w` added after any magic first line, then a blank line.
fn insert_header(text: &str, w: &str) -> (r: String)
    ensures
        r@ == with_header(text@, w@),
{
    let t = chars_of(text);
    let k = kept_prefix(&t);
    let mut out: Vec<char> = Vec::new();
    let mut i: usize = 0;
    assert(t@.take(0) == Seq::<char>::empty());
    while i < k
        invariant
            i <= k <= t.len(),
            out@ == t@.take(i as int),
        decreases k - i,
    {
        out.push(t[i]);
        i = i + 1;
        assert(t@.take(i as int) == t@.take(i - 1).push(t@[i - 1]));
    }
    let mut wc = chars_of(w);
    out.append(&mut wc);
    out.push('\n');
    let ghost head = out@;
    while i < t.len()
        invariant
            k <= i <= t.len(),
            out@ == head + t@.subrange(k as int, i as int),
        decreases t.len() - i,
    {
        out.push(t[i]);
        i = i + 1;
        assert(t@.subrange(k as int, i as int) == t@.subrange(k as int, i - 1).push(t@[i - 1]));
    }
    assert(t@.subrange(k as int, t.len() as int) == t@.skip(k as int));
    string_of(&out)
}

impl FilePath {
    /// The comment syntax for this file, when its kind is known.
    pub fn delimiters(&self) -> (r: Option<HeaderDelimiters>)
        ensures
            r matches Some(d) ==> self.delimiters_spec() == Some(d@),
            r is None ==> self.delimiters_spec() is None,
    {
        let extension = match &self.extension {
            Some(e) => Some(e.as_str()),
            None => None,
        };
        let file_name = match &self.file_name {
            Some(n) => Some(n.as_str()),
            None => None,
        };
        header_delimiters(extension, file_name)
    }
}

/// A file header to check for, add to, or delete from files.
pub struct Header<C: HeaderChecker> {
    /// Decides whether the header is already present.
    checker: C,
    /// The header text to add, without comment syntax.
    header: String,
}

impl<C: HeaderChecker + Clone> Clone for Header<C> {
    fn clone(&self) -> (r: Self)
        ensures
            r.text_spec() == self.text_spec(),
    {
        Header { checker: self.checker.clone(), header: self.header.clone() }
    }
}

impl<C: HeaderChecker> Header<C> {
    /// The checker that decides presence.
    pub closed spec fn checker_spec(&self) -> C {
        self.checker
    }

    /// The header text, without comment syntax.
    pub closed spec fn text_spec(&self) -> Seq<char> {
        self.header@
    }

    /// A header with the plain text `header`, whose presence `checker` decides.
    ///
    /// The text needs no comment syntax: that is added for each kind of file.
    pub fn new(checker: C, header: String) -> (r: Self)
        ensures
            r.checker_spec() == checker,
            r.text_spec() == header@,
    {
        Header { checker, header }
    }

    /// The header text, without comment syntax.
    pub fn text(&self) -> (r: &str)
        ensures
            r@ == self.text_spec(),
    {
        self.header.as_str()
    }

    /// The checker that decides presence.
    pub fn checker(&self) -> (r: &C)
        ensures
            *r == self.checker_spec(),
    {
        &self.checker
    }

    /// What adding the header does to the file at `path` whose contents are `contents`.
    ///
    /// Content that is not UTF-8 or that the checker cannot decide on fails; a file that has
    /// the header stays as it is; otherwise a file with a known comment syntax gets the framed
    /// header, and one without fails.
    pub open spec fn add_spec(&self, path: FilePath, contents: Seq<u8>) -> Edit {
        if !valid_utf8(contents) {
            Edit::Failed
        } else {
            match self.checker_spec().spec_check(contents) {
                Err(_) => Edit::Failed,
                Ok(true) => Edit::Unchanged,
                Ok(false) => match path.delimiters_spec() {
                    None => Edit::Failed,
                    Some(d) => Edit::Rewritten(
                        with_header(decode_utf8(contents), wrapped(self.text_spec(), d)),
                    ),
                },
            }
        }
    }

    /// What deleting the header does to the file at `path` whose contents are `contents`.
    ///
    /// Content that is not UTF-8 or that the checker cannot decide on fails; a file without
    /// the header stays as it is; otherwise a file with a known comment syntax loses the first
    /// occurrence of the exact block that adding writes, and stays as it is when that block
    /// does not occur; one without a known syntax fails.
    pub open spec fn delete_spec(&self, path: FilePath, contents: Seq<u8>) -> Edit {
        if !valid_utf8(contents) {
            Edit::Failed
        } else {
            match self.checker_spec().spec_check(contents) {
                Err(_) => Edit::Failed,
                Ok(false) => Edit::Unchanged,
                Ok(true) => match path.delimiters_spec() {
                    None => Edit::Failed,
                    Some(d) => {
                        let text = decode_utf8(contents);
                        let block = added_block(self.text_spec(), d);
                        if contains(text, block) {
                            Edit::Rewritten(replace_first(text, block, seq![]))
                        } else {
                            Edit::Unchanged
                        }
                    },
                },
            }
        }
    }

    /// Whether the header is present in `input`, as the checker decides it.
    pub fn header_present(&self, input: &[u8]) -> (r: Result<bool, BinaryDetected>)
        ensures
            r == self.checker_spec().spec_check(input@),
    {
        self.checker.check(input)
    }

    /// The new contents of the file at `path`, whose contents are now `contents`, with the
    /// header added in the file's comment syntax; `None` when the header is already present.
    ///
    /// Content that is not UTF-8, or that the checker cannot decide on, is an `IoError`. A file
    /// without the header and without a known comment syntax is an `UnrecognizedExtension`.
    pub fn add_header_to_contents(&self, path: &FilePath, contents: &[u8]) -> (r: Result<
        Option<String>,
        AddHeaderError,
    >)
        ensures
            match self.add_spec(*path, contents@) {
                Edit::Failed => r is Err,
                Edit::Unchanged => r matches Ok(None),
                Edit::Rewritten(t) => r matches Ok(Some(s)) && s@ == t,
            },
            r matches Err(AddHeaderError::IoError(p, _)) ==> p@ == path.path@,
            r matches Err(AddHeaderError::UnrecognizedExtension(p)) ==> p@ == path.path@,
            r matches Err(AddHeaderError::UnrecognizedExtension(_)) <==> (valid_utf8(contents@)
                && self.checker_spec().spec_check(contents@) == Ok::<bool, BinaryDetected>(false)
                && path.delimiters_spec() is None),
    {
        let text = match utf8_text(contents) {
            None => {
                return Err(AddHeaderError::IoError(path.path.clone(), invalid_data_error()));
            },
            Some(t) => t,
        };
        match self.checker.check(contents) {
            Err(_) => {
                return Err(AddHeaderError::IoError(path.path.clone(), invalid_data_error()));
            },
            Ok(true) => {
                return Ok(None);
            },
            Ok(false) => {},
        }
        let delim = match path.delimiters() {
            None => {
                return Err(AddHeaderError::UnrecognizedExtension(path.path.clone()));
            },
            Some(d) => d,
        };
        let w = wrap_header(self.header.as_str(), delim);
        Ok(Some(insert_header(text, w.as_str())))
    }

    /// The new contents of the file at `path`, whose contents are now `contents`, with the
    /// header deleted; `None` when there is nothing to delete.
    ///
    /// The checker decides presence first. Deletion then looks for the exact block that adding
    /// the header writes for this file, and removes its first occurrence only; where the block
    /// is not found, the file is left as it is. Content that is not UTF-8, or that the checker
    /// cannot decide on, is an `IoError`; a file with the header and without a known comment
    /// syntax is an `UnrecognizedExtension`.
    pub fn delete_header_from_contents(&self, path: &FilePath, contents: &[u8]) -> (r: Result<
        Option<String>,
        DeleteHeaderError,
    >)
        ensures
            match self.delete_spec(*path, contents@) {
                Edit::Failed => r is Err,
                Edit::Unchanged => r matches Ok(None),
                Edit::Rewritten(t) => r matches Ok(Some(s)) && s@ == t,
            },
            r matches Err(DeleteHeaderError::IoError(p, _)) ==> p@ == path.path@,
            r matches Err(DeleteHeaderError::UnrecognizedExtension(p)) ==> p@ == path.path@,
            r matches Err(DeleteHeaderError::UnrecognizedExtension(_)) <==> (valid_utf8(contents@)
                && self.checker_spec().spec_check(contents@) == Ok::<bool, BinaryDetected>(true)
                && path.delimiters_spec() is None),
    {
        let text = match utf8_text(contents) {
            None => {
                return Err(DeleteHeaderError::IoError(path.path.clone(), invalid_data_error()));
            },
            Some(t) => t,
        };
        match self.checker.check(contents) {
            Err(_) => {
                return Err(DeleteHeaderError::IoError(path.path.clone(), invalid_data_error()));
            },
            Ok(false) => {
                return Ok(None);
            },
            Ok(true) => {},
        }
        let delim = match path.delimiters() {
            None => {
                return Err(DeleteHeaderError::UnrecognizedExtension(path.path.clone()));
            },
            Some(d) => d,
        };
        let mut block = chars_of(wrap_header(self.header.as_str(), delim).as_str());
        block.push('\n');
        let t = chars_of(text);
        match find_first(&t, &block) {
            None => Ok(None),
            Some(_) => Ok(Some(string_of(&replace_first_chars(&t, &block, &Vec::new())))),
        }
    }
}

} // verus!
