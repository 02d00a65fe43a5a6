//! Comment syntax for each kind of file, and framing a header with it.

use crate::text::{chars_of, str_eq, string_of, trim_end_blanks, trim_end_blanks_in_place};
use vstd::prelude::*;

verus! {

/// A file's path, with the parts of it that decide the file's comment syntax.
#[derive(Debug)]
pub struct FilePath {
    /// The path as given.
    pub path: String,
    /// The extension of its final component, when it has one.
    pub extension: Option<String>,
    /// Its final component, when it has one.
    pub file_name: Option<String>,
}

/// A path that is a single plain file name: not empty, not `.` or `..`, and without `/`, `\`
/// or `:`. Every platform reads such a path as one component, the name itself.
pub open spec fn is_bare_name(p: Seq<char>) -> bool {
    &&& p.len() > 0
    &&& p != seq!['.']
    &&& p != seq!['.', '.']
    &&& forall|i: int| 0 <= i < p.len() ==> p[i] != '/' && p[i] != '\\' && p[i] != ':'
}

/// The index of the last `c` in `s`, if any.
pub open spec fn last_index_of(s: Seq<char>, c: char) -> Option<int>
    decreases s.len(),
{
    if s.len() == 0 {
        None
    } else if s.last() == c {
        Some(s.len() - 1)
    } else {
        last_index_of(s.drop_last(), c)
    }
}

/// The extension of the file name `n`: what follows its last `.`, unless that dot is its first
/// character or there is none.
pub open spec fn extension_of_name(n: Seq<char>) -> Option<Seq<char>> {
    match last_index_of(n, '.') {
        Some(i) => if i > 0 {
            Some(n.skip(i + 1))
        } else {
            None
        },
        None => None,
    }
}

/// Relies on `std::path::Path::extension`, read as text. How a path splits into components
/// differs between platforms; for a bare file name, std documents the extension as the part
/// after the final `.`, and none when there is no `.` or the only one starts the name.
#[verifier::external_body]
fn path_extension(path: &str) -> (r: Option<String>)
    ensures
        is_bare_name(path@) && extension_of_name(path@) is None ==> r is None,
        is_bare_name(path@) && extension_of_name(path@) is Some ==> r is Some && r->Some_0@
            == extension_of_name(path@)->Some_0,
{
    std::path::Path::new(path).extension().and_then(|e| e.to_str()).map(|e| e.to_string())
}

/// Relies on `std::path::Path::file_name`, read as text: the final component. How a path
/// splits into components differs between platforms; a bare file name is its own final
/// component.
#[verifier::external_body]
fn path_file_name(path: &str) -> (r: Option<String>)
    ensures
        is_bare_name(path@) ==> r is Some && r->Some_0@ == path@,
{
    std::path::Path::new(path).file_name().and_then(|n| n.to_str()).map(|n| n.to_string())
}

impl FilePath {
    /// The path `path`, split into its parts by the platform's path rules. A bare file name
    /// is its own file name, and its extension follows its last `.` that does not start it.
    pub fn new(path: String) -> (r: FilePath)
        ensures
            r.path@ == path@,
            is_bare_name(path@) ==> r.file_name_spec() == Some(path@) && r.extension_spec()
                == extension_of_name(path@),
    {
        let extension = path_extension(path.as_str());
        let file_name = path_file_name(path.as_str());
        FilePath { path, extension, file_name }
    }

    /// The extension as text, when there is one.
    pub open spec fn extension_spec(&self) -> Option<Seq<char>> {
        match self.extension {
            Some(e) => Some(e@),
            None => None,
        }
    }

    /// The final component as text, when there is one.
    pub open spec fn file_name_spec(&self) -> Option<Seq<char>> {
        match self.file_name {
            Some(n) => Some(n@),
            None => None,
        }
    }

    /// The comment syntax for this file, when its kind is known.
    pub open spec fn delimiters_spec(&self) -> Option<DelimiterSpec> {
        delimiters_for(self.extension_spec(), self.file_name_spec())
    }
}

/// The three texts of a comment syntax.
pub struct DelimiterSpec {
    /// Line written before the header; none when empty.
    pub first_line: Seq<char>,
    /// Text written before each line of the header.
    pub content_line_prefix: Seq<char>,
    /// Line written after the header; none when empty.
    pub last_line: Seq<char>,
}

/// Comment syntax to put around and inside a header for one kind of file.
#[derive(Clone, Copy, Debug)]
pub struct HeaderDelimiters {
    /// Line written before the header; none when empty.
    pub first_line: &'static str,
    /// Text written before each line of the header.
    pub content_line_prefix: &'static str,
    /// Line written after the header; none when empty.
    pub last_line: &'static str,
}

impl View for HeaderDelimiters {
    type V = DelimiterSpec;

    open spec fn view(&self) -> DelimiterSpec {
        DelimiterSpec {
            first_line: self.first_line@,
            content_line_prefix: self.content_line_prefix@,
            last_line: self.last_line@,
        }
    }
}

/// The syntax `first_line`, `content_line_prefix`, `last_line`.
pub open spec fn syntax(
    first_line: Seq<char>,
    content_line_prefix: Seq<char>,
    last_line: Seq<char>,
) -> DelimiterSpec {
    DelimiterSpec { first_line, content_line_prefix, last_line }
}

/// Extensions framed as `/*`, ` * `, ` */`.
pub open spec fn is_c_block_extension(e: Seq<char>) -> bool {
    e == "c"@ || e == "h"@ || e == "gv"@ || e == "java"@ || e == "scala"@ || e == "kt"@ || e
        == "kts"@
}

/// Extensions framed as `/**`, ` * `, ` */`.
pub open spec fn is_doc_block_extension(e: Seq<char>) -> bool {
    e == "js"@ || e == "mjs"@ || e == "cjs"@ || e == "jsx"@ || e == "tsx"@ || e == "css"@ || e
        == "scss"@ || e == "sass"@ || e == "ts"@
}

/// Extensions whose header lines start with `// `.
pub open spec fn is_slash_extension(e: Seq<char>) -> bool {
    e == "cc"@ || e == "cpp"@ || e == "cs"@ || e == "go"@ || e == "hcl"@ || e == "hh"@ || e
        == "hpp"@ || e == "m"@ || e == "mm"@ || e == "proto"@ || e == "rs"@ || e == "swift"@
        || e == "dart"@ || e == "groovy"@ || e == "v"@ || e == "sv"@ || e == "php"@
}

/// Extensions whose header lines start with `# `.
pub open spec fn is_hash_extension(e: Seq<char>) -> bool {
    e == "py"@ || e == "sh"@ || e == "yaml"@ || e == "yml"@ || e == "dockerfile"@ || e == "rb"@
        || e == "gemfile"@ || e == "tcl"@ || e == "tf"@ || e == "bzl"@ || e == "pl"@ || e
        == "pp"@ || e == "build"@
}

/// Extensions whose header lines start with `;; `.
pub open spec fn is_lisp_extension(e: Seq<char>) -> bool {
    e == "el"@ || e == "lisp"@
}

/// Extensions whose header lines start with `% `.
pub open spec fn is_erlang_extension(e: Seq<char>) -> bool {
    e == "erl"@
}

/// Extensions whose header lines start with `-- `.
pub open spec fn is_dash_extension(e: Seq<char>) -> bool {
    e == "hs"@ || e == "lua"@ || e == "sql"@ || e == "sdl"@
}

/// Extensions framed as `<!--`, ` `, `-->`.
pub open spec fn is_markup_extension(e: Seq<char>) -> bool {
    e == "html"@ || e == "xml"@ || e == "vue"@ || e == "wxi"@ || e == "wxl"@ || e == "wxs"@
}

/// Extensions framed as `(**`, three spaces, `*)`.
pub open spec fn is_ml_extension(e: Seq<char>) -> bool {
    e == "ml"@ || e == "mli"@ || e == "mll"@ || e == "mly"@
}

/// The comment syntax for a file with this extension, if the extension is known.
pub open spec fn extension_delimiters(e: Seq<char>) -> Option<DelimiterSpec> {
    if is_c_block_extension(e) {
        Some(syntax("/*"@, " * "@, " */"@))
    } else if is_doc_block_extension(e) {
        Some(syntax("/**"@, " * "@, " */"@))
    } else if is_slash_extension(e) {
        Some(syntax(seq![], "// "@, seq![]))
    } else if is_hash_extension(e) {
        Some(syntax(seq![], "# "@, seq![]))
    } else if is_lisp_extension(e) {
        Some(syntax(seq![], ";; "@, seq![]))
    } else if is_erlang_extension(e) {
        Some(syntax(seq![], "% "@, seq![]))
    } else if is_dash_extension(e) {
        Some(syntax(seq![], "-- "@, seq![]))
    } else if is_markup_extension(e) {
        Some(syntax("<!--"@, " "@, "-->"@))
    } else if is_ml_extension(e) {
        Some(syntax("(**"@, "   "@, "*)"@))
    } else {
        None
    }
}

/// The comment syntax for a file: by its extension first (a missing extension reads as empty),
/// then by its whole name, of which only `Dockerfile` is known.
pub open spec fn delimiters_for(extension: Option<Seq<char>>, file_name: Option<Seq<char>>) -> Option<
    DelimiterSpec,
> {
    let e = match extension {
        Some(e) => e,
        None => seq![],
    };
    match extension_delimiters(e) {
        Some(d) => Some(d),
        None => if file_name == Some("Dockerfile"@) {
            Some(syntax(seq![], "# "@, seq![]))
        } else {
            None
        },
    }
}

/// The delimiters `first_line`, `content_line_prefix`, `last_line`; the empty literal stands
/// for an absent line.
fn make(first_line: &'static str, content_line_prefix: &'static str, last_line: &'static str) -> (r:
    HeaderDelimiters)
    ensures
        r@ == syntax(first_line@, content_line_prefix@, last_line@),
{
    HeaderDelimiters { first_line, content_line_prefix, last_line }
}

/// The comment syntax for a file with extension `e`, if the extension is known.
fn delimiters_for_extension(e: &str) -> (r: Option<HeaderDelimiters>)
    ensures
        r matches Some(d) ==> extension_delimiters(e@) == Some(d@),
        r is None ==> extension_delimiters(e@) is None,
{
    proof {
        reveal_strlit("");
        assert(""@ == Seq::<char>::empty());
    }
    if str_eq(e, "c") || str_eq(e, "h") || str_eq(e, "gv") || str_eq(e, "java") || str_eq(
        e,
        "scala",
    ) || str_eq(e, "kt") || str_eq(e, "kts") {
        Some(make("/*", " * ", " */"))
    } else if str_eq(e, "js") || str_eq(e, "mjs") || str_eq(e, "cjs") || str_eq(e, "jsx")
        || str_eq(e, "tsx") || str_eq(e, "css") || str_eq(e, "scss") || str_eq(e, "sass")
        || str_eq(e, "ts") {
        Some(make("/**", " * ", " */"))
    } else if str_eq(e, "cc") || str_eq(e, "cpp") || str_eq(e, "cs") || str_eq(e, "go") || str_eq(
        e,
        "hcl",
    ) || str_eq(e, "hh") || str_eq(e, "hpp") || str_eq(e, "m") || str_eq(e, "mm") || str_eq(
        e,
        "proto",
    ) || str_eq(e, "rs") || str_eq(e, "swift") || str_eq(e, "dart") || str_eq(e, "groovy")
        || str_eq(e, "v") || str_eq(e, "sv") || str_eq(e, "php") {
        Some(make("", "// ", ""))
    } else if str_eq(e, "py") || str_eq(e, "sh") || str_eq(e, "yaml") || str_eq(e, "yml")
        || str_eq(e, "dockerfile") || str_eq(e, "rb") || str_eq(e, "gemfile") || str_eq(e, "tcl")
        || str_eq(e, "tf") || str_eq(e, "bzl") || str_eq(e, "pl") || str_eq(e, "pp") || str_eq(
        e,
        "build",
    ) {
        Some(make("", "# ", ""))
    } else if str_eq(e, "el") || str_eq(e, "lisp") {
        Some(make("", ";; ", ""))
    } else if str_eq(e, "erl") {
        Some(make("", "% ", ""))
    } else if str_eq(e, "hs") || str_eq(e, "lua") || str_eq(e, "sql") || str_eq(e, "sdl") {
        Some(make("", "-- ", ""))
    } else if str_eq(e, "html") || str_eq(e, "xml") || str_eq(e, "vue") || str_eq(e, "wxi")
        || str_eq(e, "wxl") || str_eq(e, "wxs") {
        Some(make("<!--", " ", "-->"))
    } else if str_eq(e, "ml") || str_eq(e, "mli") || str_eq(e, "mll") || str_eq(e, "mly") {
        Some(make("(**", "   ", "*)"))
    } else {
        None
    }
}

/// The comment syntax for a file with this extension and name: by the extension first (a
/// missing extension reads as empty), then by the whole name, of which only `Dockerfile` is
/// known.
pub fn header_delimiters(extension: Option<&str>, file_name: Option<&str>) -> (r: Option<
    HeaderDelimiters,
>)
    ensures
        r matches Some(d) ==> delimiters_for(
            match extension {
                Some(e) => Some(e@),
                None => None,
            },
            match file_name {
                Some(n) => Some(n@),
                None => None,
            },
        ) == Some(d@),
        r is None ==> delimiters_for(
            match extension {
                Some(e) => Some(e@),
                None => None,
            },
            match file_name {
                Some(n) => Some(n@),
                None => None,
            },
        ) is None,
{
    proof {
        reveal_strlit("");
        assert(""@ == Seq::<char>::empty());
    }
    let e = match extension {
        Some(e) => e,
        None => "",
    };
    match delimiters_for_extension(e) {
        Some(d) => Some(d),
        None => {
            let is_dockerfile = match file_name {
                Some(n) => str_eq(n, "Dockerfile"),
                None => false,
            };
            if is_dockerfile {
                Some(make("", "# ", ""))
            } else {
                None
            }
        },
    }
}

/// One header line as written into a file: the prefix and the line, with trailing spaces and
/// tabs trimmed from the two together, then a newline.
pub open spec fn framed_line(prefix: Seq<char>, line: Seq<char>) -> Seq<char> {
    trim_end_blanks(prefix + line).push('\n')
}

/// The framed lines of the text `line + rest`, where `line` holds no newline and each newline
/// of `rest` ends a line.
pub open spec fn framed_lines(prefix: Seq<char>, line: Seq<char>, rest: Seq<char>) -> Seq<char>
    decreases rest.len(),
{
    if rest.len() == 0 {
        framed_line(prefix, line)
    } else if rest[0] == '\n' {
        framed_line(prefix, line) + framed_lines(prefix, seq![], rest.drop_first())
    } else {
        framed_lines(prefix, line.push(rest[0]), rest.drop_first())
    }
}

/// The line `l` and a newline, or nothing when `l` is empty.
pub open spec fn optional_line(l: Seq<char>) -> Seq<char> {
    if l.len() == 0 {
        seq![]
    } else {
        l.push('\n')
    }
}

/// The header text `header` framed in the comment syntax `d`: the first line, each line of the
/// header after the line prefix, then the last line.
pub open spec fn wrapped(header: Seq<char>, d: DelimiterSpec) -> Seq<char> {
    optional_line(d.first_line) + framed_lines(d.content_line_prefix, seq![], header)
        + optional_line(d.last_line)
}

/// Appends `l` and a newline to `out` when `l` is not empty.
fn push_optional_line(out: &mut Vec<char>, l: &str)
    ensures
        final(out)@ == old(out)@ + optional_line(l@),
{
    let mut chars = chars_of(l);
    if chars.len() > 0 {
        out.append(&mut chars);
        out.push('\n');
    }
}

/// Appends `line`, trimmed of trailing spaces and tabs, and a newline to `out`.
fn push_framed(out: &mut Vec<char>, line: &mut Vec<char>)
    ensures
        final(out)@ == old(out)@ + trim_end_blanks(old(line)@).push('\n'),
{
    trim_end_blanks_in_place(line);
    out.append(line);
    out.push('\n');
}

/// Frames the header text `orig_header` in the comment syntax `delim`.
///
/// The header is split at each newline; trailing spaces and tabs are trimmed from each prefixed
/// line, so that an empty line under ` * ` comes out as ` *`.
pub fn wrap_header(orig_header: &str, delim: HeaderDelimiters) -> (r: String)
    ensures
        r@ == wrapped(orig_header@, delim@),
{
    let h = chars_of(orig_header);
    let ghost prefix = delim.content_line_prefix@;
    let mut out: Vec<char> = Vec::new();
    push_optional_line(&mut out, delim.first_line);
    let mut line = chars_of(delim.content_line_prefix);
    let ghost mut cur: Seq<char> = seq![];
    let ghost target = optional_line(delim.first_line@) + framed_lines(prefix, seq![], h@);
    assert(h@.skip(0) == h@);
    let mut i: usize = 0;
    while i < h.len()
        invariant
            i <= h.len(),
            prefix == delim.content_line_prefix@,
            line@ == prefix + cur,
            out@ + framed_lines(prefix, cur, h@.skip(i as int)) == target,
        decreases h.len() - i,
    {
        assert(h@.skip(i as int).drop_first() == h@.skip(i + 1));
        if h[i] == '\n' {
            push_framed(&mut out, &mut line);
            line = chars_of(delim.content_line_prefix);
            proof {
                cur = seq![];
            }
            assert(line@ == prefix + cur);
        } else {
            line.push(h[i]);
            proof {
                cur = cur.push(h@[i as int]);
            }
            assert(line@ == prefix + cur);
        }
        i = i + 1;
    }
    push_framed(&mut out, &mut line);
    push_optional_line(&mut out, delim.last_line);
    string_of(&out)
}

} // verus!
