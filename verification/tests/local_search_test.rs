use q_body::local_search::{LocalSearchIndex, PathProbe};

fn file(name: &str, canonical: &str) -> PathProbe {
    PathProbe::File { file_name: Some(name.to_string()), canonical: Ok(canonical.to_string()) }
}

#[test]
fn test_new_index_is_empty() {
    let idx = LocalSearchIndex::new();
    assert!(idx.is_empty());
    assert_eq!(idx.len(), 0);
}

#[test]
fn test_index_file_not_found() {
    let mut idx = LocalSearchIndex::new();
    let result = idx.index_file("/nonexistent/path.rs", &PathProbe::Missing);
    assert!(result.is_err());
    assert!(result.unwrap_err().contains("not found"));
}

#[test]
fn test_index_file_and_list() {
    let mut idx = LocalSearchIndex::new();
    let result = idx.index_file("src/main.rs", &file("main.rs", "/work/q-body/src/main.rs"));
    assert!(result.is_ok(), "indexing main.rs should succeed: {:?}", result);
    assert_eq!(idx.len(), 1);

    let resources = idx.list_resources();
    assert_eq!(resources.len(), 1);
    assert!(resources[0].name.contains("main.rs"));
    assert!(resources[0].uri.starts_with("file://"));
}

#[test]
fn test_search_by_name() {
    let mut idx = LocalSearchIndex::new();
    let _ = idx.index_file("src/main.rs", &file("main.rs", "/work/q-body/src/main.rs"));
    let _ = idx.index_file("src/handler.rs", &file("handler.rs", "/work/q-body/src/handler.rs"));

    let result = idx.search("handler");
    assert_eq!(result.total, 1);
    assert!(result.entries[0].name.contains("handler"));
}

#[test]
fn test_search_no_match() {
    let idx = LocalSearchIndex::new();
    let result = idx.search("nonexistent_keyword");
    assert_eq!(result.total, 0);
    assert!(result.entries.is_empty());
}

#[test]
fn test_duplicate_index_skipped() {
    let mut idx = LocalSearchIndex::new();
    let _ = idx.index_file("src/main.rs", &file("main.rs", "/work/q-body/src/main.rs"));
    let _ = idx.index_file("src/main.rs", &file("main.rs", "/work/q-body/src/main.rs"));
    assert_eq!(idx.len(), 1);
}

#[test]
fn directory_is_not_a_file() {
    let mut idx = LocalSearchIndex::new();
    assert_eq!(idx.index_file("src", &PathProbe::NotFile), Err("not a file: src".to_string()));
    assert_eq!(
        idx.index_file("/x", &PathProbe::Missing),
        Err("file not found: /x".to_string())
    );
    assert!(idx.is_empty());
}

#[test]
fn canonicalisation_error_is_passed_on() {
    let mut idx = LocalSearchIndex::new();
    let probe = PathProbe::File { file_name: Some("a".into()), canonical: Err("denied".into()) };
    assert_eq!(idx.index_file("a", &probe), Err("denied".to_string()));
}

#[test]
fn entry_fields_follow_the_path() {
    let mut idx = LocalSearchIndex::new();
    idx.index_file("docs/x.md", &PathProbe::File { file_name: None, canonical: Ok("/r/docs/x.md".into()) })
        .unwrap();
    let r = idx.list_resources();
    assert_eq!(r[0].uri, "file:///r/docs/x.md");
    assert_eq!(r[0].name, "unknown");
    assert_eq!(r[0].description, "Local file: docs/x.md");
    assert_eq!(r[0].path, "docs/x.md");
}
