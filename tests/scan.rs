use file_header::{
    classify, collect_scan, CheckHeadersRecursivelyError, CheckStatus, FileResult, FileResults,
    Header, SingleLineChecker,
};
use std::collections::BTreeSet;

fn test_header() -> Header<SingleLineChecker> {
    Header::new(
        SingleLineChecker::new("some license".to_string(), 100),
        r#"some license etc etc etc"#.to_string(),
    )
}

fn scan(files: &[(&str, &[u8])]) -> Result<FileResults, CheckHeadersRecursivelyError> {
    let header = test_header();
    let outcomes = files
        .iter()
        .filter_map(|(p, bytes)| classify(p.to_string(), header.header_present(bytes)))
        .map(Ok)
        .collect::<Vec<_>>();
    collect_scan(outcomes)
}

#[test]
fn check_recursively_detects_binary_file() {
    let results = scan(&[("no_header.rs", b"// no header\n"), ("binary.rs", &[0xFF; 100])]).unwrap();
    assert_eq!(vec!["no_header.rs".to_string()], results.no_header_files);
    assert_eq!(vec!["binary.rs".to_string()], results.binary_files);
    assert!(results.has_failure());
}

#[test]
fn files_with_the_header_are_not_reported() {
    let results = scan(&[("a.rs", b"// some license etc etc etc\n")]).unwrap();
    assert!(results.no_header_files.is_empty());
    assert!(results.binary_files.is_empty());
    assert!(!results.has_failure());
}

#[test]
fn classification_of_each_verdict() {
    assert!(classify("a".to_string(), Ok(true)).is_none());
    let r = classify("b".to_string(), Ok(false)).unwrap();
    assert_eq!(("b", CheckStatus::HeaderNotFound), (r.path.as_str(), r.status));
    let r = classify("c".to_string(), Err(file_header::BinaryDetected)).unwrap();
    assert_eq!(("c", CheckStatus::BinaryFile), (r.path.as_str(), r.status));
}

#[test]
fn first_error_wins() {
    let outcomes: Vec<Result<FileResult, &str>> = vec![
        Ok(FileResult { path: "a".to_string(), status: CheckStatus::HeaderNotFound }),
        Err("first"),
        Err("second"),
    ];
    assert_eq!("first", collect_scan(outcomes).unwrap_err());
}

#[test]
fn results_do_not_depend_on_arrival_order() {
    let files: Vec<(String, CheckStatus)> = (0..12)
        .map(|i| {
            let s = if i % 3 == 0 { CheckStatus::BinaryFile } else { CheckStatus::HeaderNotFound };
            (format!("f{i}.rs"), s)
        })
        .collect();
    let gather = |order: Vec<usize>| {
        let outcomes: Vec<Result<FileResult, ()>> = order
            .into_iter()
            .map(|i| Ok(FileResult { path: files[i].0.clone(), status: files[i].1 }))
            .collect();
        let r = collect_scan(outcomes).unwrap();
        (
            r.no_header_files.into_iter().collect::<BTreeSet<_>>(),
            r.binary_files.into_iter().collect::<BTreeSet<_>>(),
        )
    };
    let forward = gather((0..12).collect());
    let backward = gather((0..12).rev().collect());
    let shuffled = gather(vec![5, 0, 11, 3, 8, 1, 10, 6, 2, 9, 4, 7]);
    assert_eq!(forward, backward);
    assert_eq!(forward, shuffled);
    assert_eq!(8, forward.0.len());
    assert_eq!(4, forward.1.len());
}

#[test]
fn from_results_keeps_order() {
    let r = FileResults::from_results(vec![
        FileResult { path: "b".to_string(), status: CheckStatus::HeaderNotFound },
        FileResult { path: "x".to_string(), status: CheckStatus::BinaryFile },
        FileResult { path: "a".to_string(), status: CheckStatus::HeaderNotFound },
    ]);
    assert_eq!(vec!["b".to_string(), "a".to_string()], r.no_header_files);
    assert_eq!(vec!["x".to_string()], r.binary_files);
    assert!(!FileResults::new().has_failure());
}

#[test]
fn unknown_extension_is_scanned_like_any_file() {
    let results = scan(&[("x.zzz", b"plain text\n")]).unwrap();
    assert_eq!(vec!["x.zzz".to_string()], results.no_header_files);
    assert!(results.binary_files.is_empty());
}

#[test]
fn results_compare_and_copy_path_for_path() {
    let a = FileResults::from_results(vec![
        FileResult { path: "a".to_string(), status: CheckStatus::HeaderNotFound },
        FileResult { path: "b".to_string(), status: CheckStatus::BinaryFile },
    ]);
    let b = a.clone();
    assert!(a == b);
    assert_eq!(a, b);
    assert!(a != FileResults::new());
    assert_eq!(FileResults::default(), FileResults::new());
}
