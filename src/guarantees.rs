//! What holds across calls: a header once added is found, adding twice changes nothing more,
//! and deleting undoes adding.

use crate::checker::{HeaderChecker, NEWLINE, SingleLineChecker, scan_lines, scan_text};
use crate::delimiters::{
    DelimiterSpec, FilePath, delimiters_for, framed_line, framed_lines, optional_line, wrapped,
};
use crate::header::{Edit, Header, added_block, kept_len, with_header};
use crate::results::{CheckStatus, classification};
use crate::text::{
    contains, is_blank, is_first_occurrence, lemma_line_end, lemma_line_len, lemma_line_len_append,
    lemma_replace_first_at, line_len, occurs_at, trim_end_blanks,
};
use vstd::prelude::*;
use vstd::utf8::{
    decode_utf8, decode_utf8_encode_utf8, encode_scalar, encode_utf8, encode_utf8_decode_utf8,
    encode_utf8_valid_utf8, has_width_1_encoding, valid_utf8,
};

verus! {

/// Encoding a concatenation encodes each part.
pub proof fn lemma_encode_concat(a: Seq<char>, b: Seq<char>)
    ensures
        encode_utf8(a + b) == encode_utf8(a) + encode_utf8(b),
    decreases a.len(),
{
    if a.len() > 0 {
        assert((a + b).drop_first() == a.drop_first() + b);
        lemma_encode_concat(a.drop_first(), b);
        assert((a + b)[0] == a[0]);
    } else {
        assert(a + b == b);
    }
}

/// The encoding of a character other than newline holds no newline byte, and a newline
/// encodes as the single newline byte.
proof fn lemma_encode_scalar_newline(c: char)
    ensures
        c == '\n' ==> encode_scalar(c as u32) == seq![NEWLINE],
        c != '\n' ==> encode_scalar(c as u32).len() > 0 && forall|k: int|
            0 <= k < encode_scalar(c as u32).len() ==> #[trigger] encode_scalar(c as u32)[k]
                != NEWLINE,
{
    let v = c as u32;
    if c == '\n' {
        assert(v == 10);
        assert((10u32 & 0x7Fu32) as u8 == 10u8) by (bit_vector);
    } else {
        assert(v != 10);
        if has_width_1_encoding(v) {
            assert((v & 0x7Fu32) as u8 != 10u8) by (bit_vector)
                requires
                    v <= 0x7Fu32,
                    v != 10u32,
            ;
        }
        assert((0xC0u8 | ((v >> 6u32) & 0x1Fu32) as u8) != 10u8) by (bit_vector);
        assert((0xE0u8 | ((v >> 12u32) & 0x0Fu32) as u8) != 10u8) by (bit_vector);
        assert((0xF0u8 | ((v >> 18u32) & 0x7u32) as u8) != 10u8) by (bit_vector);
        assert((0x80u8 | (v & 0x3Fu32) as u8) != 10u8) by (bit_vector);
        assert((0x80u8 | ((v >> 6u32) & 0x3Fu32) as u8) != 10u8) by (bit_vector);
        assert((0x80u8 | ((v >> 12u32) & 0x3Fu32) as u8) != 10u8) by (bit_vector);
    }
}

/// A prefix without the terminator adds its length to the first line's.
proof fn lemma_line_len_prefix<T>(e: Seq<T>, x: Seq<T>, nl: T)
    requires
        forall|k: int| 0 <= k < e.len() ==> e[k] != nl,
    ensures
        line_len(e + x, nl) == e.len() + line_len(x, nl),
    decreases e.len(),
{
    if e.len() > 0 {
        assert((e + x).drop_first() == e.drop_first() + x);
        lemma_line_len_prefix(e.drop_first(), x, nl);
    } else {
        assert(e + x == x);
    }
}

/// The first byte line of an encoded text is the encoding of its first text line.
proof fn lemma_encoded_line_len(s: Seq<char>)
    ensures
        line_len(encode_utf8(s), NEWLINE) == encode_utf8(s.take(line_len(s, '\n') as int)).len(),
    decreases s.len(),
{
    if s.len() > 0 {
        let rest = s.drop_first();
        lemma_encode_scalar_newline(s[0]);
        let e = encode_scalar(s[0] as u32);
        assert(encode_utf8(s) == e + encode_utf8(rest));
        lemma_line_len(rest, '\n');
        if s[0] == '\n' {
            assert(s.take(1)[0] == s[0]);
            assert(s.take(1).drop_first() == Seq::<char>::empty());
            assert(encode_utf8(s.take(1)) == e + encode_utf8(s.take(1).drop_first()));
        } else {
            lemma_line_len_prefix(e, encode_utf8(rest), NEWLINE);
            lemma_encoded_line_len(rest);
            let m = line_len(rest, '\n') as int;
            assert(s.take(1 + m).drop_first() == rest.take(m));
            assert(s.take(1 + m)[0] == s[0]);
        }
    } else {
        assert(s.take(0) == s);
    }
}

/// Scanning the UTF-8 encoding of a text finds the pattern exactly when scanning the text
/// does, and never reports binary data.
pub proof fn lemma_scan_encoded(s: Seq<char>, pattern: Seq<char>, n: nat)
    ensures
        scan_lines(encode_utf8(s), pattern, n) == Ok::<bool, crate::checker::BinaryDetected>(
            scan_text(s, pattern, n),
        ),
    decreases n,
{
    if n > 0 && s.len() > 0 {
        let k = line_len(s, '\n') as int;
        lemma_line_len(s, '\n');
        let first = s.take(k);
        let rest = s.skip(k);
        assert(s == first + rest);
        lemma_encode_concat(first, rest);
        lemma_encoded_line_len(s);
        let bytes = encode_utf8(s);
        let kb = line_len(bytes, NEWLINE) as int;
        assert(bytes.take(kb) == encode_utf8(first));
        assert(bytes.skip(kb) == encode_utf8(rest));
        encode_utf8_valid_utf8(first);
        encode_utf8_decode_utf8(first);
        lemma_scan_encoded(rest, pattern, (n - 1) as nat);
        assert(bytes.len() > 0) by {
            assert(encode_scalar(s[0] as u32).len() > 0) by {
                lemma_encode_scalar_newline(s[0]);
            }
            assert(bytes == encode_scalar(s[0] as u32) + encode_utf8(s.drop_first()));
        }
    } else if n > 0 {
        assert(encode_utf8(s).len() == 0);
    }
}

/// Text appended after a final newline does not keep a scan from finding what it found.
proof fn lemma_scan_text_append(a: Seq<char>, b: Seq<char>, pattern: Seq<char>, n: nat)
    requires
        a.len() > 0,
        a.last() == '\n',
        scan_text(a, pattern, n),
    ensures
        scan_text(a + b, pattern, n),
    decreases n,
{
    let k = line_len(a, '\n') as int;
    lemma_line_len(a, '\n');
    lemma_line_len_append(a, b, '\n', a.len() - 1);
    assert((a + b).take(k) == a.take(k));
    if !contains(a.take(k), pattern) {
        assert((a + b).skip(k) == a.skip(k) + b);
        assert(scan_text(a.skip(k), pattern, (n - 1) as nat));
        if a.skip(k).len() == 0 {
            assert(!scan_text(a.skip(k), pattern, (n - 1) as nat));
        }
        assert(a.skip(k).last() == a.last());
        lemma_scan_text_append(a.skip(k), b, pattern, (n - 1) as nat);
    }
}

/// A scan that finds the pattern below a first line `first` finds it with that line in front,
/// given one more line to look through.
proof fn lemma_scan_text_after_line(first: Seq<char>, x: Seq<char>, pattern: Seq<char>, n: nat)
    requires
        first.len() > 0,
        first.last() == '\n',
        forall|k: int| 0 <= k < first.len() - 1 ==> first[k] != '\n',
        scan_text(x, pattern, n),
    ensures
        scan_text(first + x, pattern, n + 1),
{
    let k = first.len() as int;
    lemma_line_end(first, '\n', k - 1);
    lemma_line_len_append(first, x, '\n', k - 1);
    assert((first + x).skip(k) == x);
}

/// Framed lines are not empty and end with a newline.
proof fn lemma_framed_lines_end(prefix: Seq<char>, line: Seq<char>, rest: Seq<char>)
    ensures
        framed_lines(prefix, line, rest).len() > 0,
        framed_lines(prefix, line, rest).last() == '\n',
    decreases rest.len(),
{
    if rest.len() > 0 {
        if rest[0] == '\n' {
            lemma_framed_lines_end(prefix, seq![], rest.drop_first());
            let a = framed_line(prefix, line);
            let b = framed_lines(prefix, seq![], rest.drop_first());
            assert((a + b).last() == b.last());
        } else {
            lemma_framed_lines_end(prefix, line.push(rest[0]), rest.drop_first());
        }
    }
}

/// A framed header is not empty and ends with a newline.
pub proof fn lemma_wrapped_ends_with_newline(h: Seq<char>, d: DelimiterSpec)
    ensures
        wrapped(h, d).len() > 0,
        wrapped(h, d).last() == '\n',
{
    let a = optional_line(d.first_line);
    let b = framed_lines(d.content_line_prefix, seq![], h);
    let c = optional_line(d.last_line);
    lemma_framed_lines_end(d.content_line_prefix, seq![], h);
    if c.len() == 0 {
        assert(c == Seq::<char>::empty());
        assert(a + b + c == a + b);
        assert((a + b).last() == b.last());
    } else {
        assert((a + b + c).last() == c.last());
    }
}

/// The checker would find its pattern in the framed header itself, within the lines that
/// remain to it below a magic first line that stays on top.
pub open spec fn found_in_framed_header(
    h: Header<SingleLineChecker>,
    path: FilePath,
    contents: Seq<u8>,
) -> bool {
    let text = decode_utf8(contents);
    let n = h.checker_spec().max_lines_spec();
    let window: nat = if kept_len(text) == 0 {
        n
    } else if n == 0 {
        0
    } else {
        (n - 1) as nat
    };
    match path.delimiters_spec() {
        Some(d) => scan_text(wrapped(h.text_spec(), d), h.checker_spec().pattern_spec(), window),
        None => false,
    }
}

/// After the header has been added, the checker finds it in the new contents, provided the
/// checker's pattern lies on a line of the framed header that its window reaches.
pub proof fn lemma_added_header_is_found(
    h: Header<SingleLineChecker>,
    path: FilePath,
    contents: Seq<u8>,
)
    requires
        h.add_spec(path, contents) is Rewritten,
        found_in_framed_header(h, path, contents),
    ensures
        h.checker_spec().spec_check(encode_utf8(h.add_spec(path, contents)->Rewritten_0)) == Ok::<
            bool,
            crate::checker::BinaryDetected,
        >(true),
{
    let text = decode_utf8(contents);
    let d = path.delimiters_spec()->Some_0;
    let w = wrapped(h.text_spec(), d);
    let k = kept_len(text);
    let t = with_header(text, w);
    let pattern = h.checker_spec().pattern_spec();
    let n = h.checker_spec().max_lines_spec();
    let y = seq!['\n'] + text.skip(k);
    lemma_line_len(text, '\n');
    lemma_wrapped_ends_with_newline(h.text_spec(), d);
    assert(t == text.take(k) + (w + y));
    if k > 0 {
        lemma_scan_text_append(w, y, pattern, (n - 1) as nat);
        let first = text.take(k);
        assert(first.last() == text[k - 1]);
        lemma_scan_text_after_line(first, w + y, pattern, (n - 1) as nat);
    } else {
        lemma_scan_text_append(w, y, pattern, n);
        assert(text.take(k) + (w + y) == w + y);
    }
    assert(scan_text(t, pattern, n));
    lemma_scan_encoded(t, pattern, n);
    assert(h.add_spec(path, contents)->Rewritten_0 == t);
    assert(h.checker_spec().spec_check(encode_utf8(t)) == scan_lines(encode_utf8(t), pattern, n));
}

/// Adding the header a second time leaves the file as the first time made it, provided the
/// checker finds the header that was added (see [`lemma_added_header_is_found`]).
pub proof fn lemma_add_is_idempotent(h: Header<SingleLineChecker>, path: FilePath, contents: Seq<u8>)
    requires
        h.add_spec(path, contents) is Rewritten,
        found_in_framed_header(h, path, contents),
    ensures
        h.add_spec(path, encode_utf8(h.add_spec(path, contents)->Rewritten_0)) == Edit::Unchanged,
{
    lemma_added_header_is_found(h, path, contents);
    encode_utf8_valid_utf8(h.add_spec(path, contents)->Rewritten_0);
}

/// A comment syntax whose framed header starts with something other than a newline: a first
/// line that does, or else a line prefix that starts with a visible character.
pub open spec fn leads_with_text(d: DelimiterSpec) -> bool {
    ||| d.first_line.len() > 0 && d.first_line[0] != '\n'
    ||| d.first_line.len() == 0 && d.content_line_prefix.len() > 0 && !is_blank(
        d.content_line_prefix[0],
    ) && d.content_line_prefix[0] != '\n'
}

/// Every comment syntax of the table leads with text.
pub proof fn lemma_known_syntax_leads_with_text(
    extension: Option<Seq<char>>,
    file_name: Option<Seq<char>>,
)
    requires
        delimiters_for(extension, file_name) is Some,
    ensures
        leads_with_text(delimiters_for(extension, file_name)->Some_0),
{
    reveal_strlit("/*");
    reveal_strlit("/**");
    reveal_strlit("<!--");
    reveal_strlit("(**");
    reveal_strlit("// ");
    reveal_strlit("# ");
    reveal_strlit(";; ");
    reveal_strlit("% ");
    reveal_strlit("-- ");
}

/// Trimming trailing blanks keeps a first character that is not blank.
proof fn lemma_trim_keeps_first(s: Seq<char>)
    requires
        s.len() > 0,
        !is_blank(s[0]),
    ensures
        trim_end_blanks(s).len() > 0,
        trim_end_blanks(s)[0] == s[0],
    decreases s.len(),
{
    if is_blank(s.last()) {
        lemma_trim_keeps_first(s.drop_last());
    }
}

/// Framed lines start with the prefix's first character when that one is not blank.
proof fn lemma_framed_lines_first(prefix: Seq<char>, line: Seq<char>, rest: Seq<char>)
    requires
        prefix.len() > 0,
        !is_blank(prefix[0]),
    ensures
        framed_lines(prefix, line, rest)[0] == prefix[0],
    decreases rest.len(),
{
    lemma_trim_keeps_first(prefix + line);
    if rest.len() > 0 {
        if rest[0] == '\n' {
            lemma_framed_lines_end(prefix, seq![], rest.drop_first());
        } else {
            lemma_framed_lines_first(prefix, line.push(rest[0]), rest.drop_first());
        }
    }
}

/// A framed header in a syntax that leads with text does not start with a newline.
proof fn lemma_wrapped_first(h: Seq<char>, d: DelimiterSpec)
    requires
        leads_with_text(d),
    ensures
        wrapped(h, d).len() > 0,
        wrapped(h, d)[0] != '\n',
{
    lemma_wrapped_ends_with_newline(h, d);
    let a = optional_line(d.first_line);
    let b = framed_lines(d.content_line_prefix, seq![], h);
    let c = optional_line(d.last_line);
    if d.first_line.len() > 0 {
        assert((a + b + c)[0] == a[0]);
    } else {
        assert(a == Seq::<char>::empty());
        lemma_framed_lines_end(d.content_line_prefix, seq![], h);
        lemma_framed_lines_first(d.content_line_prefix, seq![], h);
        assert((a + b + c)[0] == b[0]);
    }
}

/// `b` repeats itself at `y`, `p` places back.
spec fn repeats_at(b: Seq<char>, p: int, y: int) -> bool {
    b[y] == b[y - p]
}

/// A sequence that repeats with period `p`, and whose first newline is at `p - 1`, holds no two
/// newlines in a row, given that it does not start with one.
proof fn lemma_periodic_no_double_newline(b: Seq<char>, p: int, x: int)
    requires
        p >= 1,
        b[0] != '\n',
        forall|y: int| 0 <= y < p - 1 && y < b.len() ==> b[y] != '\n',
        forall|y: int| p <= y < b.len() ==> #[trigger] repeats_at(b, p, y),
        1 <= x < b.len(),
    ensures
        !(b[x] == '\n' && b[x - 1] == '\n'),
    decreases x,
{
    if x >= p + 1 {
        assert(repeats_at(b, p, x));
        assert(repeats_at(b, p, x - 1));
        lemma_periodic_no_double_newline(b, p, x - p);
    } else if x == p {
        assert(repeats_at(b, p, x));
    }
}

/// A block that does not start with a newline and ends with two cannot start inside a first
/// line that precedes it.
proof fn lemma_no_occurrence_in_first_line(first: Seq<char>, b: Seq<char>, rest: Seq<char>, j: int)
    requires
        first.len() > 0,
        first.last() == '\n',
        forall|k: int| 0 <= k < first.len() - 1 ==> first[k] != '\n',
        b.len() >= 2,
        b[0] != '\n',
        b[b.len() - 1] == '\n',
        b[b.len() - 2] == '\n',
        0 <= j < first.len(),
    ensures
        !occurs_at(first + b + rest, b, j),
{
    let t = first + b + rest;
    let k = first.len() as int;
    let p = k - j;
    if occurs_at(t, b, j) {
        assert forall|x: int| 0 <= x < b.len() implies #[trigger] b[x] == t[j + x] by {
            assert(t.subrange(j, j + b.len())[x] == t[j + x]);
        }
        assert forall|y: int| 0 <= y < p - 1 && y < b.len() implies b[y] != '\n' by {
            assert(b[y] == t[j + y]);
            assert(t[j + y] == first[j + y]);
        }
        if b.len() <= p {
            let y = b.len() - 2;
            assert(b[y] == t[j + y]);
            assert(t[j + y] == first[j + y]);
        } else {
            assert forall|y: int| p <= y < b.len() implies #[trigger] repeats_at(b, p, y) by {
                assert(b[y] == t[j + y]);
                assert(t[j + y] == t[k + (y - p)]);
                assert(t[k + (y - p)] == b[y - p]);
            }
            lemma_periodic_no_double_newline(b, p, b.len() - 1);
        }
    }
}

/// Deleting the header from a file it was just added to gives back the text the file had
/// before, and so the same bytes, provided the checker finds the header that was added (see
/// [`lemma_added_header_is_found`]).
pub proof fn lemma_delete_undoes_add(h: Header<SingleLineChecker>, path: FilePath, contents: Seq<u8>)
    requires
        h.add_spec(path, contents) is Rewritten,
        found_in_framed_header(h, path, contents),
    ensures
        h.delete_spec(path, encode_utf8(h.add_spec(path, contents)->Rewritten_0)) == Edit::Rewritten(
            decode_utf8(contents),
        ),
        encode_utf8(decode_utf8(contents)) == contents,
{
    let text = decode_utf8(contents);
    let d = path.delimiters_spec()->Some_0;
    let w = wrapped(h.text_spec(), d);
    let block = added_block(h.text_spec(), d);
    let k = kept_len(text);
    let t = h.add_spec(path, contents)->Rewritten_0;
    lemma_added_header_is_found(h, path, contents);
    encode_utf8_valid_utf8(t);
    encode_utf8_decode_utf8(t);
    decode_utf8_encode_utf8(contents);
    lemma_line_len(text, '\n');
    lemma_wrapped_ends_with_newline(h.text_spec(), d);
    lemma_known_syntax_leads_with_text(path.extension_spec(), path.file_name_spec());
    lemma_wrapped_first(h.text_spec(), d);
    let first = text.take(k);
    let rest = text.skip(k);
    assert(block == w + seq!['\n']);
    assert(t == first + block + rest);
    assert((first + block + rest).subrange(k, k + block.len()) == block);
    assert(occurs_at(t, block, k));
    assert forall|j: int| 0 <= j < k implies !occurs_at(t, block, j) by {
        assert(first.last() == text[k - 1]);
        assert(block[block.len() - 2] == w.last());
        lemma_no_occurrence_in_first_line(first, block, rest, j);
    }
    assert(is_first_occurrence(t, block, k));
    assert(contains(t, block));
    lemma_replace_first_at(t, block, seq![], k);
    assert(t.take(k) + seq![] + t.skip(k + block.len()) == text);
}

/// Content that is not UTF-8 makes adding and deleting fail (with an `IoError`, as their
/// contracts say), while a scan reports a file as binary when its first line is not UTF-8 and
/// the checker looks at one line or more.
pub proof fn lemma_binary_content(h: Header<SingleLineChecker>, path: FilePath, contents: Seq<u8>)
    requires
        !valid_utf8(contents),
    ensures
        h.add_spec(path, contents) == Edit::Failed,
        h.delete_spec(path, contents) == Edit::Failed,
        h.checker_spec().max_lines_spec() > 0 && !valid_utf8(
            contents.take(line_len(contents, NEWLINE) as int),
        ) ==> classification(h.checker_spec().spec_check(contents)) == Some(
            CheckStatus::BinaryFile,
        ),
{
    if contents.len() == 0 {
        assert(valid_utf8(contents));
    }
}

} // verus!
