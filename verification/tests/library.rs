use nexcore_notebooklm::library::Library;
use nexcore_notebooklm::types::Notebook;
use nexcore_notebooklm::NotebookLmError;

fn make_notebook(id: &str, name: &str) -> Notebook {
    let now = nexcore_chrono::DateTime::now().timestamp_micros();
    Notebook {
        id: id.to_string(),
        name: name.to_string(),
        url: format!("https://notebooklm.google.com/notebook/{id}"),
        description: format!("Test notebook {name}"),
        topics: vec!["testing".to_string()],
        content_types: vec![],
        use_cases: vec![],
        tags: vec!["test".to_string()],
        created_at: now,
        updated_at: now,
    }
}

fn notebook_at(id: &str, name: &str, created_at: i64) -> Notebook {
    let mut nb = make_notebook(id, name);
    nb.created_at = created_at;
    nb.updated_at = created_at;
    nb
}

#[test]
fn test_library_crud() {
    let mut lib = Library::default();
    assert!(lib.notebooks.is_empty());

    let nb = make_notebook("nb1", "First");
    lib.notebooks.push(nb);
    assert_eq!(lib.notebooks.len(), 1);

    let found = lib.get("nb1");
    assert!(found.is_ok());
    assert_eq!(found.map(|n| n.name.as_str()).ok(), Some("First"));

    let missing = lib.get("nb99");
    assert!(missing.is_err());
}

#[test]
fn test_library_search() {
    let mut lib = Library::default();
    lib.notebooks.push(make_notebook("nb1", "Rust Guide"));
    lib.notebooks.push(make_notebook("nb2", "Python Basics"));

    let results = lib.search("rust");
    assert_eq!(results.len(), 1);
    assert_eq!(results[0].id, "nb1");

    let results = lib.search("test");
    assert_eq!(results.len(), 2); // both have "test" tag
}

#[test]
fn test_library_select() {
    let mut lib = Library::default();
    lib.notebooks.push(make_notebook("nb1", "First"));

    assert!(lib.active().is_err());

    lib.active_id = Some("nb1".to_string());
    assert!(lib.active().is_ok());
    assert_eq!(lib.active().map(|n| n.name.as_str()).ok(), Some("First"));
}

#[test]
fn test_library_stats() {
    let mut lib = Library::default();
    lib.notebooks.push(make_notebook("nb1", "First"));
    lib.notebooks.push(make_notebook("nb2", "Second"));

    let stats = lib.stats();
    assert_eq!(stats.total_notebooks, 2);
    assert_eq!(stats.total_topics, 1); // both have "testing"
    assert_eq!(stats.total_tags, 1); // both have "test"
}

#[test]
fn add_then_get_returns_the_notebook() {
    let mut lib = Library::default();
    assert!(lib.add(make_notebook("nb1", "First")).is_ok());
    assert!(lib.add(make_notebook("nb2", "Second")).is_ok());
    assert_eq!(lib.get("nb2").map(|n| n.name.as_str()).ok(), Some("Second"));
    assert_eq!(lib.get("nb1").map(|n| n.name.as_str()).ok(), Some("First"));
    assert_eq!(lib.notebooks.len(), 2);
}

#[test]
fn add_duplicate_id_is_refused() {
    let mut lib = Library::default();
    assert!(lib.add(make_notebook("nb1", "First")).is_ok());
    match lib.add(make_notebook("nb1", "Other")) {
        Err(NotebookLmError::Other(m)) => assert_eq!(m, "notebook with id 'nb1' already exists"),
        other => panic!("unexpected: {other:?}"),
    }
    assert_eq!(lib.notebooks.len(), 1);
    assert_eq!(lib.get("nb1").map(|n| n.name.as_str()).ok(), Some("First"));
}

#[test]
fn get_missing_reports_the_identifier() {
    let lib = Library::default();
    match lib.get("nb99") {
        Err(NotebookLmError::NotebookNotFound(id)) => assert_eq!(id, "nb99"),
        other => panic!("unexpected: {other:?}"),
    }
}

#[test]
fn get_returns_first_match() {
    let mut lib = Library::default();
    lib.notebooks.push(make_notebook("dup", "One"));
    lib.notebooks.push(make_notebook("dup", "Two"));
    assert_eq!(lib.get("dup").map(|n| n.name.as_str()).ok(), Some("One"));
}

#[test]
fn active_without_selection_and_with_dangling_selection() {
    let mut lib = Library::default();
    assert!(matches!(lib.active(), Err(NotebookLmError::NoActiveNotebook)));
    lib.active_id = Some("gone".to_string());
    match lib.active() {
        Err(NotebookLmError::NotebookNotFound(id)) => assert_eq!(id, "gone"),
        other => panic!("unexpected: {other:?}"),
    }
}

#[test]
fn select_then_active() {
    let mut lib = Library::default();
    lib.notebooks.push(make_notebook("nb1", "First"));
    lib.notebooks.push(make_notebook("nb2", "Second"));
    assert!(lib.select("nb2").is_ok());
    assert_eq!(lib.active_id.as_deref(), Some("nb2"));
    assert_eq!(lib.active().map(|n| n.name.as_str()).ok(), Some("Second"));
}

#[test]
fn select_missing_changes_nothing() {
    let mut lib = Library::default();
    lib.notebooks.push(make_notebook("nb1", "First"));
    lib.active_id = Some("nb1".to_string());
    match lib.select("nb9") {
        Err(NotebookLmError::NotebookNotFound(id)) => assert_eq!(id, "nb9"),
        other => panic!("unexpected: {other:?}"),
    }
    assert_eq!(lib.active_id.as_deref(), Some("nb1"));
}

#[test]
fn remove_returns_notebook_and_clears_active() {
    let mut lib = Library::default();
    lib.notebooks.push(make_notebook("nb1", "First"));
    lib.notebooks.push(make_notebook("nb2", "Second"));
    lib.active_id = Some("nb1".to_string());
    let removed = lib.remove("nb1");
    assert_eq!(removed.map(|n| n.name).ok(), Some("First".to_string()));
    assert!(lib.active_id.is_none());
    assert!(lib.get("nb1").is_err());
    assert_eq!(lib.notebooks.len(), 1);
    assert_eq!(lib.notebooks[0].id, "nb2");
    assert_eq!(lib.get("nb2").map(|n| n.name.as_str()).ok(), Some("Second"));
}

#[test]
fn remove_other_keeps_active() {
    let mut lib = Library::default();
    lib.notebooks.push(make_notebook("nb1", "First"));
    lib.notebooks.push(make_notebook("nb2", "Second"));
    lib.active_id = Some("nb1".to_string());
    assert!(lib.remove("nb2").is_ok());
    assert_eq!(lib.active_id.as_deref(), Some("nb1"));
    match lib.remove("nb2") {
        Err(NotebookLmError::NotebookNotFound(id)) => assert_eq!(id, "nb2"),
        other => panic!("unexpected: {other:?}"),
    }
}

#[test]
fn update_at_replaces_given_fields_only() {
    let mut lib = Library::default();
    lib.notebooks.push(notebook_at("nb1", "First", 10));
    let updated = lib
        .update_at(
            "nb1",
            Some("Renamed".to_string()),
            None,
            None,
            Some(vec!["a".to_string(), "b".to_string()]),
            None,
            Some(vec!["demo".to_string()]),
            None,
            42,
        )
        .map(|n| (n.name.clone(), n.description.clone(), n.topics.clone(), n.updated_at, n.created_at));
    assert_eq!(
        updated.ok(),
        Some((
            "Renamed".to_string(),
            "Test notebook First".to_string(),
            vec!["a".to_string(), "b".to_string()],
            42,
            10
        ))
    );
    assert_eq!(lib.notebooks[0].tags, vec!["test".to_string()]);
    assert_eq!(lib.notebooks[0].use_cases, vec!["demo".to_string()]);
    assert_eq!(lib.get("nb1").map(|n| n.name.as_str()).ok(), Some("Renamed"));
}

#[test]
fn update_stamps_current_time() {
    let mut lib = Library::default();
    lib.notebooks.push(notebook_at("nb1", "First", 0));
    let before = nexcore_chrono::DateTime::now().timestamp_micros();
    let stamp = lib
        .update("nb1", None, Some("new".to_string()), None, None, None, None, None)
        .map(|n| n.updated_at)
        .ok();
    let stamp = stamp.unwrap_or(-1);
    assert!(stamp >= before);
    assert_eq!(lib.notebooks[0].description, "new");
}

#[test]
fn update_missing_is_not_found() {
    let mut lib = Library::default();
    let r = lib.update("nope", None, None, None, None, None, None, None);
    assert!(matches!(r, Err(NotebookLmError::NotebookNotFound(ref id)) if id == "nope"));
}

#[test]
fn search_ignores_case_and_covers_all_fields() {
    let mut lib = Library::default();
    let mut a = make_notebook("nb1", "Rust Guide");
    a.use_cases = vec!["Systems Programming".to_string()];
    let mut b = make_notebook("nb2", "Python Basics");
    b.topics = vec!["Data Science".to_string()];
    b.tags = vec![];
    lib.notebooks.push(a);
    lib.notebooks.push(b);

    let r = lib.search("RUST");
    assert_eq!(r.len(), 1);
    assert_eq!(r[0].id, "nb1");

    let r = lib.search("programming");
    assert_eq!(r.len(), 1);
    assert_eq!(r[0].id, "nb1");

    let r = lib.search("science");
    assert_eq!(r.len(), 1);
    assert_eq!(r[0].id, "nb2");

    let r = lib.search("notebook python");
    assert_eq!(r.len(), 1);
    assert_eq!(r[0].id, "nb2");

    assert_eq!(lib.search("").len(), 2);
    assert!(lib.search("haskell").is_empty());
}

#[test]
fn stats_counts_distinct_values_and_latest() {
    let mut lib = Library::default();
    let mut a = notebook_at("nb1", "Alpha", 5);
    a.topics = vec!["x".to_string(), "y".to_string(), "x".to_string()];
    a.tags = vec![];
    let mut b = notebook_at("nb2", "Beta", 9);
    b.topics = vec!["y".to_string(), "z".to_string()];
    b.tags = vec!["t1".to_string(), "t2".to_string()];
    let c = notebook_at("nb3", "Gamma", 9);
    let d = notebook_at("nb4", "Delta", 1);
    lib.notebooks.push(a);
    lib.notebooks.push(b);
    lib.notebooks.push(c);
    lib.notebooks.push(d);
    let stats = lib.stats();
    assert_eq!(stats.total_notebooks, 4);
    assert_eq!(stats.total_topics, 4); // x, y, z, testing
    assert_eq!(stats.total_tags, 3); // t1, t2, test
    assert_eq!(stats.most_recent.as_deref(), Some("Gamma")); // last among the latest
}

#[test]
fn stats_of_empty_library() {
    let lib = Library::default();
    let stats = lib.stats();
    assert_eq!(stats.total_notebooks, 0);
    assert_eq!(stats.total_topics, 0);
    assert_eq!(stats.total_tags, 0);
    assert!(stats.most_recent.is_none());
}

#[test]
fn search_ignores_ascii_case_of_query() {
    let mut lib = Library::default();
    lib.notebooks.push(make_notebook("nb1", "Rust Guide"));
    lib.notebooks.push(make_notebook("nb2", "Python Basics"));
    for q in ["rust", "gUiDe", "TEST"] {
        let base: Vec<String> = lib.search(q).iter().map(|n| n.id.clone()).collect();
        let upper: Vec<String> = lib.search(&q.to_ascii_uppercase()).iter().map(|n| n.id.clone()).collect();
        let lower: Vec<String> = lib.search(&q.to_ascii_lowercase()).iter().map(|n| n.id.clone()).collect();
        assert_eq!(base, upper);
        assert_eq!(base, lower);
    }
}
