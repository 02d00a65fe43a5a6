use file_header::{
    AddHeaderError, DeleteHeaderError, FilePath, Header, HeaderChecker, SingleLineChecker,
};
use std::io;

fn test_checker() -> SingleLineChecker {
    SingleLineChecker::new("some license".to_string(), 100)
}

fn test_header() -> Header<SingleLineChecker> {
    Header::new(test_checker(), r#"some license etc etc etc"#.to_string())
}

fn test_header_with_blank_lines_and_trailing_whitespace() -> Header<SingleLineChecker> {
    Header::new(
        test_checker(),
        "some license\nline with trailing whitespace.  \n\netc".to_string(),
    )
}

fn path(p: &str) -> FilePath {
    FilePath::new(p.to_string())
}

fn added(header: &Header<SingleLineChecker>, p: &str, contents: &str) -> String {
    header
        .add_header_to_contents(&path(p), contents.as_bytes())
        .unwrap()
        .expect("the header should have been added")
}

#[test]
fn single_line_checker_finds_header_when_present() {
    let input = r#"foo
    some license
    bar"#;
    assert!(test_checker().check(input.as_bytes()).unwrap())
}

#[test]
fn single_line_checker_doesnt_find_header_when_missing() {
    let input = r#"foo
    wrong license
    bar"#;
    assert!(!test_checker().check(input.as_bytes()).unwrap())
}

#[test]
fn adds_header_with_empty_delimiters() {
    assert_eq!(
        "// some license etc etc etc

not a license",
        added(&test_header(), "file.rs", r#"not a license"#)
    );
}

#[test]
fn adds_header_with_nonempty_delimiters() {
    assert_eq!(
        "/*
 * some license etc etc etc
 */

not a license",
        added(&test_header(), "file.c", r#"not a license"#)
    );
}

#[test]
fn adds_header_trim_trailing_whitespace() {
    assert_eq!(
        "/*
 * some license
 * line with trailing whitespace.
 *
 * etc
 */

not a license",
        added(
            &test_header_with_blank_lines_and_trailing_whitespace(),
            "file.c",
            r#"not a license"#
        )
    );
}

#[test]
fn doesnt_add_header_when_already_present() {
    let initial_content = r#"
    // some license etc etc etc already present
    not a license"#;
    let r = test_header()
        .add_header_to_contents(&path("file.rs"), initial_content.as_bytes())
        .unwrap();
    assert!(r.is_none());
}

#[test]
fn adds_header_after_magic_first_line() {
    assert_eq!(
        r#"<?xml version="1.0" encoding="UTF-8"?>
<!--
 some license etc etc etc
-->

<root />
"#,
        added(
            &test_header(),
            "file.xml",
            r#"<?xml version="1.0" encoding="UTF-8"?>
<root />
"#
        )
    );
}

#[test]
fn header_present_on_binary_file_produces_error_invalid_data() {
    let contents = [0xFF_u8; 100];
    assert!(test_header().header_present(&contents).is_err());
    match test_header().add_header_to_contents(&path("file.xml"), &contents) {
        Err(AddHeaderError::IoError(p, e)) => {
            assert_eq!("file.xml", p);
            assert_eq!(io::ErrorKind::InvalidData, e.kind());
        }
        other => panic!("expected an I/O error, got {:?}", other),
    }
}

#[test]
fn adding_twice_changes_nothing_more() {
    let header = test_header();
    let once = added(&header, "lib.rs", "fn main() {}\n");
    let twice = header
        .add_header_to_contents(&path("lib.rs"), once.as_bytes())
        .unwrap();
    assert!(twice.is_none());
}

#[test]
fn delete_restores_the_text_before_adding() {
    let header = test_header_with_blank_lines_and_trailing_whitespace();
    for (p, before) in [
        ("a.c", "int x;\n"),
        ("a.py", "print(1)\n"),
        ("a.html", "<p>hi</p>"),
        ("run.sh", "#!/bin/sh\necho hi\n"),
        ("a.ml", ""),
    ] {
        let with = added(&header, p, before);
        let back = header
            .delete_header_from_contents(&path(p), with.as_bytes())
            .unwrap()
            .expect("the header should have been deleted");
        assert_eq!(before, back);
    }
}

#[test]
fn added_header_is_present() {
    let header = test_header();
    let with = added(&header, "x.go", "package x\n");
    assert!(header.header_present(with.as_bytes()).unwrap());
}

#[test]
fn magic_first_line_stays_first() {
    let header = Header::new(test_checker(), "some license".to_string());
    assert_eq!(
        "#!/bin/sh\n# some license\n\necho hi\n",
        added(&header, "run.sh", "#!/bin/sh\necho hi\n")
    );
}

#[test]
fn magic_line_without_newline_is_not_kept_on_top() {
    let header = Header::new(test_checker(), "some license".to_string());
    assert_eq!("# some license\n\n#!/bin/sh", added(&header, "run.sh", "#!/bin/sh"));
}

#[test]
fn binary_content_is_an_io_error_for_delete() {
    let contents = [0xC3_u8, 0x28, b'\n'];
    match test_header().delete_header_from_contents(&path("a.rs"), &contents) {
        Err(DeleteHeaderError::IoError(p, e)) => {
            assert_eq!("a.rs", p);
            assert_eq!(io::ErrorKind::InvalidData, e.kind());
        }
        other => panic!("expected an I/O error, got {:?}", other),
    }
}

#[test]
fn unknown_extension_is_unrecognized() {
    let header = test_header();
    match header.add_header_to_contents(&path("notes.zzz"), b"plain text\n") {
        Err(AddHeaderError::UnrecognizedExtension(p)) => assert_eq!("notes.zzz", p),
        other => panic!("expected an unrecognized extension, got {:?}", other),
    }
    let with = "some license etc etc etc\n\nplain text\n";
    match header.delete_header_from_contents(&path("notes.zzz"), with.as_bytes()) {
        Err(DeleteHeaderError::UnrecognizedExtension(p)) => assert_eq!("notes.zzz", p),
        other => panic!("expected an unrecognized extension, got {:?}", other),
    }
    assert!(header.header_present(with.as_bytes()).unwrap());
    assert!(!header.header_present(b"plain text\n").unwrap());
}

#[test]
fn present_header_in_unknown_file_is_left_alone() {
    let with = "some license etc etc etc\n";
    let r = test_header()
        .add_header_to_contents(&path("notes.zzz"), with.as_bytes())
        .unwrap();
    assert!(r.is_none());
}

#[test]
fn dockerfile_is_known_by_name() {
    let header = Header::new(test_checker(), "some license".to_string());
    assert_eq!("# some license\n\nFROM x\n", added(&header, "app/Dockerfile", "FROM x\n"));
}

#[test]
fn extension_lookup_is_case_sensitive() {
    let r = test_header().add_header_to_contents(&path("A.C"), b"int x;\n");
    assert!(matches!(r, Err(AddHeaderError::UnrecognizedExtension(_))));
}

#[test]
fn delete_without_header_changes_nothing() {
    let r = test_header()
        .delete_header_from_contents(&path("a.rs"), b"fn f() {}\n")
        .unwrap();
    assert!(r.is_none());
}

#[test]
fn delete_of_hand_edited_header_changes_nothing() {
    let edited = "// some license etc etc etc, edited\n\nfn f() {}\n";
    let r = test_header()
        .delete_header_from_contents(&path("a.rs"), edited.as_bytes())
        .unwrap();
    assert!(r.is_none());
}

#[test]
fn delete_removes_only_the_first_copy() {
    let text = "// some license etc etc etc\n\nlet s = \"// some license etc etc etc\n\n\";\n";
    let r = test_header()
        .delete_header_from_contents(&path("a.rs"), text.as_bytes())
        .unwrap();
    assert_eq!(Some("let s = \"// some license etc etc etc\n\n\";\n".to_string()), r);
}

#[test]
fn pattern_beyond_the_window_is_not_found() {
    let checker = SingleLineChecker::new("needle".to_string(), 2);
    assert!(!checker.check(b"a\nb\nneedle\n").unwrap());
    assert!(checker.check(b"a\nneedle\nc\n").unwrap());
    let none = SingleLineChecker::new("a".to_string(), 0);
    assert!(!none.check(b"a\n").unwrap());
}

#[test]
fn invalid_line_outside_the_window_is_not_read() {
    let checker = SingleLineChecker::new("x".to_string(), 1);
    assert!(!checker.check(&[b'a', b'\n', 0xFF]).unwrap());
    assert!(checker.check(&[0xFF, b'\n', b'x']).is_err());
}

#[test]
fn pattern_can_match_a_multibyte_line() {
    let checker = SingleLineChecker::new("Łódź".to_string(), 3);
    assert!(checker.check("x\n© Łódź\n".as_bytes()).unwrap());
}

#[test]
fn checker_window_is_its_line_count() {
    assert_eq!(Some(100), test_checker().window_lines());
    let header = test_header();
    let copy = header.clone();
    assert_eq!(header.text(), copy.text());
    assert_eq!(Some(100), copy.checker().window_lines());
}
