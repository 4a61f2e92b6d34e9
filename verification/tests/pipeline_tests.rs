use example_catalog::pipeline::run;
use example_catalog::types::CatalogError;

fn two_example_manifest() -> String {
    let mut t = String::new();
    t.push_str("[package]\n");
    t.push_str("name = \"demo\"\n");
    t.push_str("\n[[example]]\n");
    t.push_str("name = \"ex1\"\n");
    t.push_str("path = \"examples/ex1.rs\"\n");
    t.push_str("doc-scrape-examples = true\n");
    t.push_str("\n[[example]]\n");
    t.push_str("name = \"ex2\"\n");
    t.push_str("path = \"examples/ex2.rs\"\n");
    t.push_str("doc-scrape-examples = true\n");
    t.push_str("\n[package.metadata.example.ex1]\n");
    t.push_str("name = \"First\"\n");
    t.push_str("description = \"The first example.\"\n");
    t.push_str("category = \"basic\"\n");
    t.push_str("wasm = false\n");
    t.push_str("\n[package.metadata.example.ex2]\n");
    t.push_str("name = \"Second\"\n");
    t.push_str("description = \"The second example.\"\n");
    t.push_str("category = \"basic\"\n");
    t.push_str("wasm = true\n");
    t.push_str("hidden = true\n");
    t.push_str("\n[[package.metadata.example_category]]\n");
    t.push_str("name = \"basic\"\n");
    t.push_str("description = \"Basic examples.\"\n");
    t
}

#[test]
fn end_to_end_two_examples_one_hidden() {
    let text = two_example_manifest();
    let catalog = run(&text, false, true).unwrap().unwrap();
    assert_eq!(catalog.entries.len(), 1);
    let entry = &catalog.entries[0];
    assert_eq!(entry.category, "basic");
    assert_eq!(entry.description.as_deref(), Some("Basic examples."));
    assert_eq!(entry.examples.len(), 1);
    let ex = &entry.examples[0];
    assert_eq!(ex.technical_name, "ex1");
    assert_eq!(ex.path, "examples/ex1.rs");
    assert_eq!(ex.name, "First");
    assert_eq!(ex.description, "The first example.");
    assert_eq!(ex.category, "basic");
    assert!(!ex.wasm);
}

#[test]
fn strict_mode_missing_metadata_aborts() {
    let mut t = String::new();
    t.push_str("[package]\n");
    t.push_str("name = \"demo\"\n");
    t.push_str("\n[[example]]\n");
    t.push_str("name = \"ex3\"\n");
    t.push_str("path = \"examples/ex3.rs\"\n");
    t.push_str("doc-scrape-examples = true\n");
    t.push_str("\n[package.metadata.example.other]\n");
    t.push_str("name = \"Other\"\n");
    t.push_str("description = \"Some other example.\"\n");
    t.push_str("category = \"basic\"\n");
    t.push_str("wasm = false\n");
    let r = run(&t, true, true);
    assert_eq!(r, Err(CatalogError::MissingMetadata("ex3".to_owned())));
}

#[test]
fn no_update_returns_no_catalog() {
    let text = two_example_manifest();
    let r = run(&text, false, false).unwrap();
    assert!(r.is_none());
}

#[test]
fn missing_metadata_is_silently_omitted_without_strict() {
    let mut t = String::new();
    t.push_str("[package]\n");
    t.push_str("name = \"demo\"\n");
    t.push_str("\n[[example]]\n");
    t.push_str("name = \"ex3\"\n");
    t.push_str("path = \"examples/ex3.rs\"\n");
    t.push_str("\n[package.metadata.example]\n");
    t.push_str("\n[[package.metadata.example_category]]\n");
    t.push_str("name = \"basic\"\n");
    t.push_str("description = \"Basic examples.\"\n");
    let catalog = run(&t, false, true).unwrap().unwrap();
    assert_eq!(catalog.entries.len(), 0);
}

#[test]
fn strict_mode_missing_doc_scrape_marker_aborts() {
    let mut t = String::new();
    t.push_str("[package]\n");
    t.push_str("name = \"demo\"\n");
    t.push_str("\n[[example]]\n");
    t.push_str("name = \"ex1\"\n");
    t.push_str("path = \"examples/ex1.rs\"\n");
    t.push_str("\n[package.metadata.example.ex1]\n");
    t.push_str("name = \"First\"\n");
    t.push_str("description = \"The first example.\"\n");
    t.push_str("category = \"basic\"\n");
    t.push_str("wasm = false\n");
    let r = run(&t, true, false);
    assert_eq!(r, Err(CatalogError::MissingDocScrape("ex1".to_owned())));
}

#[test]
fn hidden_example_still_needs_marker_in_strict_mode() {
    let mut t = String::new();
    t.push_str("[package]\n");
    t.push_str("name = \"demo\"\n");
    t.push_str("\n[[example]]\n");
    t.push_str("name = \"ex2\"\n");
    t.push_str("path = \"examples/ex2.rs\"\n");
    t.push_str("\n[package.metadata.example.ex2]\n");
    t.push_str("name = \"Second\"\n");
    t.push_str("description = \"The second example.\"\n");
    t.push_str("category = \"basic\"\n");
    t.push_str("wasm = true\n");
    t.push_str("hidden = true\n");
    let r = run(&t, true, false);
    assert_eq!(r, Err(CatalogError::MissingDocScrape("ex2".to_owned())));
}

#[test]
fn hidden_example_passes_strict_mode_with_marker() {
    let text = two_example_manifest();
    let catalog = run(&text, true, true).unwrap().unwrap();
    assert_eq!(catalog.entries.len(), 1);
    assert_eq!(catalog.entries[0].examples.len(), 1);
    assert_eq!(catalog.entries[0].examples[0].technical_name, "ex1");
}

#[test]
fn unknown_category_has_no_description() {
    let mut t = String::new();
    t.push_str("[package]\n");
    t.push_str("name = \"demo\"\n");
    t.push_str("\n[[example]]\n");
    t.push_str("name = \"ex1\"\n");
    t.push_str("path = \"examples/ex1.rs\"\n");
    t.push_str("\n[package.metadata.example.ex1]\n");
    t.push_str("name = \"First\"\n");
    t.push_str("description = \"The first example.\"\n");
    t.push_str("category = \"undocumented\"\n");
    t.push_str("wasm = false\n");
    t.push_str("\n[[package.metadata.example_category]]\n");
    t.push_str("name = \"basic\"\n");
    t.push_str("description = \"Basic examples.\"\n");
    let catalog = run(&t, false, true).unwrap().unwrap();
    assert_eq!(catalog.entries.len(), 1);
    assert_eq!(catalog.entries[0].category, "undocumented");
    assert_eq!(catalog.entries[0].description, None);
}

#[test]
fn missing_example_table_is_malformed() {
    let t = "[package]\nname = \"demo\"\n".to_owned();
    let r = run(&t, false, false);
    assert_eq!(r, Err(CatalogError::MalformedTable("example".to_owned())));
}

#[test]
fn unparsable_manifest_is_malformed() {
    let t = "this is not [ valid toml".to_owned();
    let r = run(&t, false, false);
    assert_eq!(r, Err(CatalogError::MalformedTable("example".to_owned())));
}

#[test]
fn missing_category_table_is_malformed_only_under_update() {
    let mut t = String::new();
    t.push_str("[package]\n");
    t.push_str("name = \"demo\"\n");
    t.push_str("\n[[example]]\n");
    t.push_str("name = \"ex1\"\n");
    t.push_str("path = \"examples/ex1.rs\"\n");
    t.push_str("\n[package.metadata.example.ex1]\n");
    t.push_str("name = \"First\"\n");
    t.push_str("description = \"The first example.\"\n");
    t.push_str("category = \"basic\"\n");
    t.push_str("wasm = false\n");
    assert!(run(&t, false, false).unwrap().is_none());
    let r = run(&t, false, true);
    assert_eq!(
        r,
        Err(CatalogError::MalformedTable("package.metadata.example_category".to_owned()))
    );
}

#[test]
fn categories_sorted_and_examples_sorted_by_name() {
    let mut t = String::new();
    t.push_str("[package]\n");
    t.push_str("name = \"demo\"\n");
    for (tech, name, cat) in [
        ("e1", "Zeta", "basic"),
        ("e2", "Alpha", "basic"),
        ("e3", "Mid", "advanced"),
    ] {
        t.push_str("\n[[example]]\n");
        t.push_str(&format!("name = \"{tech}\"\n"));
        t.push_str(&format!("path = \"examples/{tech}.rs\"\n"));
        t.push_str(&format!("\n[package.metadata.example.{tech}]\n"));
        t.push_str(&format!("name = \"{name}\"\n"));
        t.push_str("description = \"An example.\"\n");
        t.push_str(&format!("category = \"{cat}\"\n"));
        t.push_str("wasm = false\n");
    }
    t.push_str("\n[[package.metadata.example_category]]\n");
    t.push_str("name = \"basic\"\n");
    t.push_str("description = \"Basic examples.\"\n");
    let catalog = run(&t, false, true).unwrap().unwrap();
    assert_eq!(catalog.entries.len(), 2);
    assert_eq!(catalog.entries[0].category, "advanced");
    assert_eq!(catalog.entries[1].category, "basic");
    let names: Vec<&str> =
        catalog.entries[1].examples.iter().map(|e| e.name.as_str()).collect();
    assert_eq!(names, vec!["Alpha", "Zeta"]);
}
