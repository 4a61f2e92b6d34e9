use example_catalog::aggregate::aggregate;
use example_catalog::extract::extract_examples;
use example_catalog::manifest::{parse_categories, parse_declarations, parse_metadata};
use example_catalog::order::{str_lex_le, str_lex_lt};
use example_catalog::sorting::{example_le_exec, sort_examples, sort_names};
use example_catalog::types::{CatalogError, CategoryDescription, Example, ExampleDeclaration,
    MetadataEntry};

fn decl(tech: &str, path: &str, doc_scrape: bool) -> ExampleDeclaration {
    ExampleDeclaration {
        technical_name: tech.to_owned(),
        path: path.to_owned(),
        doc_scrape,
    }
}

fn meta(tech: &str, name: &str, category: &str, wasm: bool, hidden: bool) -> MetadataEntry {
    MetadataEntry {
        technical_name: tech.to_owned(),
        name: name.to_owned(),
        description: format!("About {name}."),
        category: category.to_owned(),
        wasm,
        hidden,
    }
}

fn ex(tech: &str, name: &str, category: &str, wasm: bool) -> Example {
    Example {
        technical_name: tech.to_owned(),
        path: format!("examples/{tech}.rs"),
        name: name.to_owned(),
        description: format!("About {name}."),
        category: category.to_owned(),
        wasm,
    }
}

#[test]
fn extraction_copies_fields_verbatim() {
    let decls = vec![decl("ex1", "examples/ex1.rs", true)];
    let metas = vec![meta("ex1", "First", "basic", true, false)];
    let out = extract_examples(&decls, &metas, false).unwrap();
    assert_eq!(out.len(), 1);
    assert_eq!(
        out[0],
        Example {
            technical_name: "ex1".to_owned(),
            path: "examples/ex1.rs".to_owned(),
            name: "First".to_owned(),
            description: "About First.".to_owned(),
            category: "basic".to_owned(),
            wasm: true,
        }
    );
}

#[test]
fn extraction_keeps_declaration_order() {
    let decls = vec![
        decl("b", "examples/b.rs", true),
        decl("a", "examples/a.rs", true),
    ];
    let metas = vec![
        meta("a", "A", "basic", false, false),
        meta("b", "B", "basic", false, false),
    ];
    let out = extract_examples(&decls, &metas, false).unwrap();
    let names: Vec<&str> = out.iter().map(|e| e.technical_name.as_str()).collect();
    assert_eq!(names, vec!["b", "a"]);
}

#[test]
fn extraction_strict_reports_first_offender() {
    let decls = vec![
        decl("ok", "examples/ok.rs", true),
        decl("gone", "examples/gone.rs", true),
        decl("also_gone", "examples/also_gone.rs", true),
    ];
    let metas = vec![meta("ok", "Ok", "basic", false, false)];
    let r = extract_examples(&decls, &metas, true);
    assert_eq!(r, Err(CatalogError::MissingMetadata("gone".to_owned())));
}

#[test]
fn extraction_hidden_never_appears() {
    let decls = vec![decl("h", "examples/h.rs", true)];
    let metas = vec![meta("h", "Hidden", "basic", false, true)];
    assert_eq!(extract_examples(&decls, &metas, false).unwrap().len(), 0);
    assert_eq!(extract_examples(&decls, &metas, true).unwrap().len(), 0);
}

#[test]
fn sorting_is_by_category_then_name() {
    let v = vec![
        ex("1", "Zeta", "basic", false),
        ex("2", "Alpha", "ui", false),
        ex("3", "Alpha", "basic", false),
    ];
    let sorted = sort_examples(v);
    let keys: Vec<(String, String)> =
        sorted.iter().map(|e| (e.category.clone(), e.name.clone())).collect();
    assert_eq!(
        keys,
        vec![
            ("basic".to_owned(), "Alpha".to_owned()),
            ("basic".to_owned(), "Zeta".to_owned()),
            ("ui".to_owned(), "Alpha".to_owned()),
        ]
    );
}

#[test]
fn sorting_is_order_independent() {
    let a = vec![
        ex("1", "Zeta", "basic", false),
        ex("2", "Alpha", "ui", false),
        ex("3", "Alpha", "basic", false),
    ];
    let b = vec![
        ex("3", "Alpha", "basic", false),
        ex("1", "Zeta", "basic", false),
        ex("2", "Alpha", "ui", false),
    ];
    assert_eq!(sort_examples(a), sort_examples(b));
}

#[test]
fn aggregation_is_order_independent() {
    let cats = vec![CategoryDescription {
        name: "basic".to_owned(),
        description: "Basic examples.".to_owned(),
    }];
    let a = vec![
        ex("1", "Zeta", "basic", false),
        ex("2", "Alpha", "ui", false),
        ex("3", "Alpha", "basic", false),
    ];
    let b = vec![
        ex("2", "Alpha", "ui", false),
        ex("3", "Alpha", "basic", false),
        ex("1", "Zeta", "basic", false),
    ];
    assert_eq!(aggregate(&a, &cats), aggregate(&b, &cats));
}

#[test]
fn aggregation_groups_and_describes() {
    let cats = vec![
        CategoryDescription {
            name: "basic".to_owned(),
            description: "Basic examples.".to_owned(),
        },
        CategoryDescription {
            name: "ui".to_owned(),
            description: "Interface examples.".to_owned(),
        },
    ];
    let xs = vec![
        ex("1", "Zeta", "basic", false),
        ex("2", "Menu", "ui", true),
        ex("3", "Alpha", "basic", false),
    ];
    let catalog = aggregate(&xs, &cats);
    assert_eq!(catalog.entries.len(), 2);
    assert_eq!(catalog.entries[0].category, "basic");
    assert_eq!(catalog.entries[0].description.as_deref(), Some("Basic examples."));
    let names: Vec<&str> =
        catalog.entries[0].examples.iter().map(|e| e.name.as_str()).collect();
    assert_eq!(names, vec!["Alpha", "Zeta"]);
    assert_eq!(catalog.entries[1].category, "ui");
    assert_eq!(catalog.entries[1].description.as_deref(), Some("Interface examples."));
}

#[test]
fn duplicate_category_entries_keep_the_last_description() {
    let cats = vec![
        CategoryDescription { name: "basic".to_owned(), description: "Old.".to_owned() },
        CategoryDescription { name: "basic".to_owned(), description: "New.".to_owned() },
    ];
    let xs = vec![ex("1", "One", "basic", false)];
    let catalog = aggregate(&xs, &cats);
    assert_eq!(catalog.entries.len(), 1);
    assert_eq!(catalog.entries[0].description.as_deref(), Some("New."));
}

#[test]
fn lexicographic_comparison() {
    assert!(str_lex_le("Alpha", "Zeta"));
    assert!(!str_lex_le("Zeta", "Alpha"));
    assert!(str_lex_le("abc", "abc"));
    assert!(!str_lex_lt("abc", "abc"));
    assert!(str_lex_lt("ab", "abc"));
    assert!(!str_lex_le("abc", "ab"));
    assert!(str_lex_le("", "a"));
    assert!(str_lex_lt("A", "a"));
}

#[test]
fn example_comparison_breaks_ties() {
    let a = ex("1", "Same", "basic", false);
    let b = ex("2", "Same", "basic", false);
    assert!(example_le_exec(&a, &b));
    assert!(!example_le_exec(&b, &a));
}

#[test]
fn sort_names_ascending() {
    let v = vec!["ui".to_owned(), "basic".to_owned(), "advanced".to_owned()];
    let sorted = sort_names(v);
    let as_strs: Vec<&str> = sorted.iter().map(String::as_str).collect();
    assert_eq!(as_strs, vec!["advanced", "basic", "ui"]);
}

#[test]
fn parse_declarations_reads_the_manifest() {
    let mut t = String::new();
    t.push_str("[[example]]\n");
    t.push_str("name = \"alpha\"\n");
    t.push_str("path = \"examples/alpha.rs\"\n");
    t.push_str("doc-scrape-examples = true\n");
    t.push_str("\n[[example]]\n");
    t.push_str("name = \"beta\"\n");
    t.push_str("path = \"examples/beta.rs\"\n");
    let out = parse_declarations(&t).unwrap();
    assert_eq!(out.len(), 2);
    assert_eq!(out[0].technical_name, "alpha");
    assert_eq!(out[0].path, "examples/alpha.rs");
    assert!(out[0].doc_scrape);
    assert_eq!(out[1].technical_name, "beta");
    assert!(!out[1].doc_scrape);
}

#[test]
fn parse_declarations_requires_name_and_path() {
    let t = "[[example]]\npath = \"examples/x.rs\"\n".to_owned();
    assert_eq!(
        parse_declarations(&t),
        Err(CatalogError::MalformedField {
            entry: "example".to_owned(),
            field: "name".to_owned(),
        })
    );
    let t = "[[example]]\nname = \"x\"\n".to_owned();
    assert_eq!(
        parse_declarations(&t),
        Err(CatalogError::MalformedField { entry: "x".to_owned(), field: "path".to_owned() })
    );
    let t = "[[example]]\nname = \"x\"\npath = 7\n".to_owned();
    assert_eq!(
        parse_declarations(&t),
        Err(CatalogError::MalformedField { entry: "x".to_owned(), field: "path".to_owned() })
    );
}

#[test]
fn parse_metadata_reads_fields_and_flags() {
    let mut t = String::new();
    t.push_str("[package.metadata.example.ex1]\n");
    t.push_str("name = \"First\"\n");
    t.push_str("description = \"About.\"\n");
    t.push_str("category = \"basic\"\n");
    t.push_str("wasm = true\n");
    let out = parse_metadata(&t).unwrap();
    assert_eq!(out.len(), 1);
    assert_eq!(out[0].technical_name, "ex1");
    assert_eq!(out[0].name, "First");
    assert!(out[0].wasm);
    assert!(!out[0].hidden);
}

#[test]
fn parse_metadata_requires_every_field() {
    let mut t = String::new();
    t.push_str("[package.metadata.example.ex1]\n");
    t.push_str("name = \"First\"\n");
    t.push_str("description = \"About.\"\n");
    t.push_str("category = \"basic\"\n");
    assert_eq!(
        parse_metadata(&t),
        Err(CatalogError::MalformedField {
            entry: "ex1".to_owned(),
            field: "wasm".to_owned(),
        })
    );
}

#[test]
fn parse_categories_reads_and_validates() {
    let mut t = String::new();
    t.push_str("[[package.metadata.example_category]]\n");
    t.push_str("name = \"basic\"\n");
    t.push_str("description = \"Basic examples.\"\n");
    let out = parse_categories(&t).unwrap();
    assert_eq!(out.len(), 1);
    assert_eq!(out[0].name, "basic");
    assert_eq!(out[0].description, "Basic examples.");

    let t2 = "[[package.metadata.example_category]]\nname = \"basic\"\n".to_owned();
    assert_eq!(
        parse_categories(&t2),
        Err(CatalogError::MalformedField {
            entry: "basic".to_owned(),
            field: "description".to_owned(),
        })
    );
}

#[test]
fn duplicate_copies_every_field() {
    let a = ex("1", "One", "basic", true);
    let b = a.duplicate();
    assert_eq!(a, b);
}
