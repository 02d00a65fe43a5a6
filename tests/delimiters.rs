use file_header::{header_delimiters, wrap_header, FilePath};

#[test]
fn wraps_with_block_delimiters() {
    let d = header_delimiters(Some("c"), None).unwrap();
    assert_eq!("/*\n * L1\n * L2\n */\n", wrap_header("L1\nL2", d));
}

#[test]
fn wraps_with_line_prefix() {
    let d = header_delimiters(Some("py"), None).unwrap();
    assert_eq!("# L1\n# L2\n", wrap_header("L1\nL2", d));
}

#[test]
fn blank_line_loses_trailing_space() {
    let d = header_delimiters(Some("java"), None).unwrap();
    assert_eq!("/*\n * a\n *\n * b\n */\n", wrap_header("a\n\nb", d));
}

#[test]
fn trailing_tabs_are_trimmed() {
    let d = header_delimiters(Some("rs"), None).unwrap();
    assert_eq!("// a\n//\n", wrap_header("a \t\n\t", d));
}

#[test]
fn table_rows() {
    let cases = [
        ("kts", "/*", " * ", " */"),
        ("ts", "/**", " * ", " */"),
        ("php", "", "// ", ""),
        ("build", "", "# ", ""),
        ("lisp", "", ";; ", ""),
        ("erl", "", "% ", ""),
        ("sdl", "", "-- ", ""),
        ("wxs", "<!--", " ", "-->"),
        ("mly", "(**", "   ", "*)"),
    ];
    for (ext, first, prefix, last) in cases {
        let d = header_delimiters(Some(ext), None).unwrap();
        assert_eq!((first, prefix, last), (d.first_line, d.content_line_prefix, d.last_line));
    }
}

#[test]
fn unknown_names_have_no_delimiters() {
    assert!(header_delimiters(Some("zzz"), Some("a.zzz")).is_none());
    assert!(header_delimiters(None, Some("Makefile")).is_none());
    assert!(header_delimiters(None, None).is_none());
    assert!(header_delimiters(None, Some("Dockerfile")).is_some());
    assert!(header_delimiters(Some("zzz"), Some("Dockerfile")).is_some());
}

#[test]
fn file_path_parts() {
    let p = FilePath::new("src/lib.rs".to_string());
    assert_eq!("src/lib.rs", p.path);
    assert_eq!(Some("rs".to_string()), p.extension);
    assert_eq!(Some("lib.rs".to_string()), p.file_name);
    let d = FilePath::new("build/Dockerfile".to_string());
    assert_eq!(None, d.extension);
    assert_eq!(Some("Dockerfile".to_string()), d.file_name);
    assert!(d.delimiters().is_some());
}

#[test]
fn bare_names_split_at_their_last_dot() {
    let cases: [(&str, Option<&str>); 6] = [
        ("a.b.c", Some("c")),
        (".bashrc", None),
        (".a.b", Some("b")),
        ("a.", Some("")),
        ("noext", None),
        ("x.zzz", Some("zzz")),
    ];
    for (name, ext) in cases {
        let p = FilePath::new(name.to_string());
        assert_eq!(Some(name.to_string()), p.file_name);
        assert_eq!(ext.map(|e| e.to_string()), p.extension);
    }
    assert!(FilePath::new("x.zzz".to_string()).delimiters().is_none());
}
