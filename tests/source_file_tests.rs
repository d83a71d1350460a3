use hlsl_lexer::{ISourceFile, SourceFile, SourcePath};

// Tests if two texts are equal to each other
fn test_same_text(source_file: &SourceFile, expected: &str) {
    let source_text = &source_file.get_text().to_string();
    let expected_text = &expected.to_string();

    assert_eq!(source_text, expected_text);
}

// A file found by a lookup, with the contents that reading it gave.
fn found_file(found: Vec<&str>, contents: &str) -> SourceFile {
    let found = found.into_iter().map(|p| p.to_string()).collect();
    SourceFile::from_contents(SourcePath::from_found_paths(found), Some(contents.as_bytes().to_vec()))
}

#[test]
fn from_text() {
    let text = "void main() {}";
    let source_file = SourceFile::from_text(text);

    test_same_text(&source_file, &text);
}

#[test]
fn from_full_path() {
    let path = "./test_files/Simple/main_func.hlsl";
    let source_file = found_file(vec![path], "void main() {}");

    assert_eq!(source_file.get_file_path(), path);
    test_same_text(&source_file, "void main() {}");
}

#[test]
fn from_include_path() {
    let include_dir = "./test_files/Simple/";
    let found = format!("{}{}", include_dir, "main_func.hlsl");
    let source_file = found_file(vec![found.as_str()], "void main() {}");

    assert_eq!(source_file.get_file_path(), &found);
    test_same_text(&source_file, "void main() {}");
}

#[test]
fn from_relative_path() {
    let include_dir = "./test_files/Simple/Dummy";
    let found = format!("{}/{}", include_dir, "./../main_func.hlsl");
    let source_file = found_file(vec![found.as_str()], "void main() {}");

    test_same_text(&source_file, "void main() {}");
}

#[test]
fn lookup_keeps_first_and_drops_repeats() {
    let path = SourcePath::from_found_paths(vec![
        "/a/main.hlsl".to_string(),
        "/b/main.hlsl".to_string(),
        "/a/main.hlsl".to_string(),
    ]);
    assert!(path.file_exists());
    assert_eq!(path.get_path(), "/a/main.hlsl");
    assert!(path.found_multiple_paths());

    let once = SourcePath::from_found_paths(vec!["/a/x".to_string(), "/a/x".to_string()]);
    assert!(!once.found_multiple_paths());
    assert_eq!(once.get_path(), "/a/x");
}

#[test]
fn missing_file_gives_empty_text() {
    let path = SourcePath::from_found_paths(Vec::new());
    assert!(!path.file_exists());
    assert_eq!(path.get_path(), "");
    let source_file = SourceFile::from_contents(path, Some(b"ignored".to_vec()));
    test_same_text(&source_file, "");
    assert!(source_file.get_text().reached_eof());

    let unreadable = SourceFile::from_contents(SourcePath::from_found_paths(vec!["/x".to_string()]), None);
    test_same_text(&unreadable, "");

    let default_path = SourcePath::default();
    assert!(!default_path.file_exists());
}

#[test]
fn text_decodes_as_utf8() {
    let source_file = SourceFile::from_text("é;");
    test_same_text(&source_file, "é;");
    let lossy = SourceFile::from_contents(
        SourcePath::from_found_paths(vec!["/x".to_string()]),
        Some(vec![b'a', 0xff]),
    );
    test_same_text(&lossy, "a\u{fffd}");
}
