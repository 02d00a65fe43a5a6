use file_header::{
    AddHeaderError, AddHeadersRecursivelyError, BatchApplier, BatchStep, DeleteHeaderError,
    DeleteHeadersRecursivelyError, FilePath, Header, SingleLineChecker,
};
use std::collections::BTreeMap;

fn test_header() -> Header<SingleLineChecker> {
    Header::new(
        SingleLineChecker::new("some license".to_string(), 100),
        r#"some license etc etc etc"#.to_string(),
    )
}

/// Runs an add batch over in-memory files, as a caller that owns the files would.
fn add_all(files: &mut BTreeMap<String, String>, paths: Vec<String>) -> Result<Vec<String>, AddHeadersRecursivelyError> {
    let header = test_header();
    let (mut batch, mut step) = BatchApplier::start(paths);
    loop {
        match step {
            BatchStep::Apply(p) => {
                let outcome = header
                    .add_header_to_contents(&FilePath::new(p.clone()), files[&p].as_bytes())
                    .map(|new| match new {
                        Some(text) => {
                            files.insert(p.clone(), text);
                            true
                        }
                        None => false,
                    })
                    .map_err(AddHeadersRecursivelyError::from);
                let (next_batch, next_step) = batch.record(outcome);
                batch = next_batch;
                step = next_step;
            }
            BatchStep::Failed(e) => return Err(e),
            BatchStep::Finished => return Ok(batch.into_changed()),
        }
    }
}

#[test]
fn add_recursively_adds_where_needed() {
    let mut files = BTreeMap::new();
    files.insert("no_header.rs".to_string(), "// no header\n".to_string());
    let mut contents = "some license etc etc etc".to_string();
    contents.push_str("\n// has a header\n");
    files.insert("with_header.rs".to_string(), contents);
    files.insert("ignored.txt".to_string(), "// no header\n".to_string());
    let paths = files.keys().filter(|p| p.ends_with(".rs")).cloned().collect();

    assert_eq!(vec!["no_header.rs".to_string()], add_all(&mut files, paths).unwrap());
    assert_eq!("// some license etc etc etc\n\n// no header\n", files["no_header.rs"]);
    assert_eq!("// no header\n", files["ignored.txt"]);
}

#[test]
fn batch_stops_at_the_first_error() {
    let mut files = BTreeMap::new();
    files.insert("a.rs".to_string(), "x\n".to_string());
    files.insert("b.zzz".to_string(), "y\n".to_string());
    files.insert("c.rs".to_string(), "z\n".to_string());
    let paths = vec!["a.rs".to_string(), "b.zzz".to_string(), "c.rs".to_string()];
    match add_all(&mut files, paths) {
        Err(AddHeadersRecursivelyError::UnrecognizedExtension(p)) => assert_eq!("b.zzz", p),
        other => panic!("expected an unrecognized extension, got {:?}", other),
    }
    assert_eq!("// some license etc etc etc\n\nx\n", files["a.rs"]);
    assert_eq!("z\n", files["c.rs"]);
}

#[test]
fn empty_batch_is_finished_at_once() {
    let (batch, step) = BatchApplier::start::<()>(Vec::new());
    assert!(matches!(step, BatchStep::Finished));
    assert!(batch.into_changed().is_empty());
}

#[test]
fn batch_that_awaits_nothing_ignores_outcomes() {
    let (batch, _) = BatchApplier::start::<()>(vec!["a".to_string()]);
    let (batch, step) = batch.record::<()>(Ok(true));
    assert!(matches!(step, BatchStep::Finished));
    let (batch, step) = batch.record::<()>(Ok(true));
    assert!(matches!(step, BatchStep::Finished));
    assert_eq!(vec!["a".to_string()], batch.into_changed());
}

#[test]
fn errors_convert_variant_for_variant() {
    let e = AddHeadersRecursivelyError::from(AddHeaderError::UnrecognizedExtension("p".to_string()));
    assert!(matches!(e, AddHeadersRecursivelyError::UnrecognizedExtension(p) if p == "p"));
    let io = std::io::Error::from(std::io::ErrorKind::NotFound);
    let e = DeleteHeadersRecursivelyError::from(DeleteHeaderError::IoError("q".to_string(), io));
    assert!(matches!(e, DeleteHeadersRecursivelyError::IoError(p, _) if p == "q"));
}
