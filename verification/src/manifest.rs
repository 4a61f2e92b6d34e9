//! The manifest boundary: reading the three configuration tables out of the
//! manifest text, and validating their entries into typed records.
//!
//! Parsing the TOML text and walking the document tree is done by
//! `toml_edit` behind trusted readers; each reader's result is a function of
//! the text alone and is named by an uninterpreted spec function. Everything
//! a reader hands back is a raw record of plain values, and every
//! required-field rule is enforced here, in verified code.

use toml_edit::Item;
use vstd::prelude::*;

use crate::types::{CatalogError, CatalogErrorModel, CategoryDescription,
    CategoryDescriptionModel, ExampleDeclaration, ExampleDeclarationModel, MetadataEntry,
    MetadataEntryModel, RawCategory, RawCategoryModel, RawDeclaration, RawDeclarationModel,
    RawMetadata, RawMetadataModel, res_view};

verus! {

/// The `[[example]]` declarations the manifest text holds, or `None` when
/// the text does not parse or the table is absent or mis-shaped.
pub uninterp spec fn manifest_example_declarations(text: Seq<char>) -> Option<
    Seq<RawDeclarationModel>,
>;

/// The `[package.metadata.example]` entries the manifest text holds, in
/// table order, or `None` when the text does not parse or the table is
/// absent or mis-shaped.
pub uninterp spec fn manifest_example_metadata(text: Seq<char>) -> Option<Seq<RawMetadataModel>>;

/// The `[[package.metadata.example_category]]` entries the manifest text
/// holds, in table order, or `None` when the text does not parse or the
/// table is absent or mis-shaped.
pub uninterp spec fn manifest_category_table(text: Seq<char>) -> Option<Seq<RawCategoryModel>>;

/// Relies on toml_edit: `str::parse::<DocumentMut>`, `Item::get`,
/// `Item::as_array_of_tables`, `Table::get`, `Item::as_str`. Reads the
/// `[[example]]` array of tables; each table becomes one raw record, in
/// document order. The result depends on the text alone.
#[verifier::external_body]
fn read_declarations(text: &str) -> (r: Option<Vec<RawDeclaration>>)
    ensures
        r.deep_view() == manifest_example_declarations(text@),
{
    let doc: toml_edit::DocumentMut = text.parse().ok()?;
    let tables = doc.as_item().get("example")?.as_array_of_tables()?;
    Some(tables.iter().map(|t| RawDeclaration {
        name: t.get("name").and_then(Item::as_str).map(str::to_string),
        path: t.get("path").and_then(Item::as_str).map(str::to_string),
        doc_scrape: t.get("doc-scrape-examples").is_some(),
    }).collect())
}

/// Relies on toml_edit: `str::parse::<DocumentMut>`, `Item::get`,
/// `Item::as_table_like`, `Item::as_str`, `Item::as_bool`. Reads the
/// `[package.metadata.example]` table; each key/value pair becomes one raw
/// record, in table order. The result depends on the text alone.
#[verifier::external_body]
fn read_metadata(text: &str) -> (r: Option<Vec<RawMetadata>>)
    ensures
        r.deep_view() == manifest_example_metadata(text@),
{
    let doc: toml_edit::DocumentMut = text.parse().ok()?;
    let table = doc.as_item().get("package")?.get("metadata")?.get("example")?.as_table_like()?;
    Some(table.iter().map(|(key, m)| RawMetadata {
        technical_name: key.to_string(),
        name: m.get("name").and_then(Item::as_str).map(str::to_string),
        description: m.get("description").and_then(Item::as_str).map(str::to_string),
        category: m.get("category").and_then(Item::as_str).map(str::to_string),
        wasm: m.get("wasm").and_then(Item::as_bool),
        hidden: m.get("hidden").and_then(Item::as_bool),
    }).collect())
}

/// Relies on toml_edit: `str::parse::<DocumentMut>`, `Item::get`,
/// `Item::as_array_of_tables`, `Table::get`, `Item::as_str`. Reads the
/// `[[package.metadata.example_category]]` array of tables, in document
/// order. The result depends on the text alone.
#[verifier::external_body]
fn read_categories(text: &str) -> (r: Option<Vec<RawCategory>>)
    ensures
        r.deep_view() == manifest_category_table(text@),
{
    let doc: toml_edit::DocumentMut = text.parse().ok()?;
    let t = doc.as_item().get("package")?.get("metadata")?.get("example_category")?;
    Some(t.as_array_of_tables()?.iter().map(|t| RawCategory {
        name: t.get("name").and_then(Item::as_str).map(str::to_string),
        description: t.get("description").and_then(Item::as_str).map(str::to_string),
    }).collect())
}

// ---------------------------------------------------------------------------
// Validation: raw records to typed records, with exact error placement.
// ---------------------------------------------------------------------------

/// The validated form of one raw declaration, or the error its first missing
/// required field produces.
pub open spec fn validate_declaration(d: RawDeclarationModel) -> Result<
    ExampleDeclarationModel,
    CatalogErrorModel,
> {
    match d.name {
        None => Err(
            CatalogErrorModel::MalformedField { entry: "example"@, field: "name"@ },
        ),
        Some(n) => match d.path {
            None => Err(CatalogErrorModel::MalformedField { entry: n, field: "path"@ }),
            Some(p) => Ok(
                ExampleDeclarationModel { technical_name: n, path: p, doc_scrape: d.doc_scrape },
            ),
        },
    }
}

/// Validates raw declarations front to back; the first malformed entry
/// decides the error.
pub open spec fn validate_declarations(s: Seq<RawDeclarationModel>) -> Result<
    Seq<ExampleDeclarationModel>,
    CatalogErrorModel,
>
    decreases s.len(),
{
    if s.len() == 0 {
        Ok(Seq::empty())
    } else {
        match validate_declaration(s[0]) {
            Err(e) => Err(e),
            Ok(d) => match validate_declarations(s.drop_first()) {
                Err(e) => Err(e),
                Ok(rest) => Ok(seq![d] + rest),
            },
        }
    }
}

/// What `parse_declarations` returns, as a function of the manifest text.
pub open spec fn spec_parse_declarations(text: Seq<char>) -> Result<
    Seq<ExampleDeclarationModel>,
    CatalogErrorModel,
> {
    match manifest_example_declarations(text) {
        None => Err(CatalogErrorModel::MalformedTable("example"@)),
        Some(s) => validate_declarations(s),
    }
}

/// Reads and validates the example-declarations table of the manifest text.
pub fn parse_declarations(text: &str) -> (r: Result<Vec<ExampleDeclaration>, CatalogError>)
    ensures
        res_view(r) == spec_parse_declarations(text@),
{
    let opt = read_declarations(text);
    let ghost g = opt.deep_view();
    let raw = match opt {
        None => {
            return Err(CatalogError::MalformedTable("example".to_owned()));
        },
        Some(v) => v,
    };
    let ghost rm: Seq<RawDeclarationModel> = raw.deep_view();
    proof {
        assert(g == Some(rm));
        assert(manifest_example_declarations(text@) == Some(rm));
    }
    let mut out: Vec<ExampleDeclaration> = Vec::new();
    let mut i: usize = 0;
    proof {
        assert(rm.skip(0) =~= rm);
        assert(out.deep_view() =~= Seq::<ExampleDeclarationModel>::empty());
        if let Ok(rest) = validate_declarations(rm) {
            assert(out.deep_view() + rest =~= rest);
        }
    }
    while i < raw.len()
        invariant
            i <= raw.len(),
            rm == raw.deep_view(),
            rm.len() == raw.len(),
            manifest_example_declarations(text@) == Some(rm),
            validate_declarations(rm) == (match validate_declarations(rm.skip(i as int)) {
                Err(e) => Err::<Seq<ExampleDeclarationModel>, CatalogErrorModel>(e),
                Ok(rest) => Ok(out.deep_view() + rest),
            }),
        decreases raw.len() - i,
    {
        proof {
            assert(rm.skip(i as int).len() > 0);
            assert(rm.skip(i as int)[0] == rm[i as int]);
            assert(rm.skip(i as int).drop_first() =~= rm.skip(i + 1));
        }
        let d = &raw[i];
        proof {
            assert(rm[i as int] == d.deep_view());
        }
        let name = match &d.name {
            None => {
                proof {
                    assert(validate_declarations(rm.skip(i as int)) == Err::<
                        Seq<ExampleDeclarationModel>,
                        CatalogErrorModel,
                    >(CatalogErrorModel::MalformedField { entry: "example"@, field: "name"@ }));
                }
                proof {
                    assert(validate_declarations(rm.skip(i as int)) == Err::<
                        Seq<ExampleDeclarationModel>,
                        CatalogErrorModel,
                    >(CatalogErrorModel::MalformedField { entry: "example"@, field: "name"@ }));
                }
                return Err(
                    CatalogError::MalformedField {
                        entry: "example".to_owned(),
                        field: "name".to_owned(),
                    },
                );
            },
            Some(n) => n.clone(),
        };
        let path = match &d.path {
            None => {
                proof {
                    assert(validate_declarations(rm.skip(i as int)) == Err::<
                        Seq<ExampleDeclarationModel>,
                        CatalogErrorModel,
                    >(CatalogErrorModel::MalformedField { entry: name@, field: "path"@ }));
                }
                return Err(
                    CatalogError::MalformedField { entry: name, field: "path".to_owned() },
                );
            },
            Some(p) => p.clone(),
        };
        let decl = ExampleDeclaration { technical_name: name, path, doc_scrape: d.doc_scrape };
        proof {
            assert(validate_declaration(rm[i as int]) == Ok::<
                ExampleDeclarationModel,
                CatalogErrorModel,
            >(decl@));
        }
        let ghost pre = out.deep_view();
        let ghost m = decl@;
        out.push(decl);
        proof {
            assert(out.deep_view() =~= pre + seq![m]);
            if let Ok(rest) = validate_declarations(rm.skip(i + 1)) {
                assert(pre + (seq![m] + rest) =~= (pre + seq![m]) + rest);
            }
        }
        i += 1;
    }
    proof {
        assert(rm.skip(rm.len() as int) =~= Seq::<RawDeclarationModel>::empty());
    }
    Ok(out)
}

/// The validated form of one raw metadata entry, or the error its first
/// missing required field produces. An absent `hidden` flag means `false`.
pub open spec fn validate_metadata_entry(m: RawMetadataModel) -> Result<
    MetadataEntryModel,
    CatalogErrorModel,
> {
    if m.name is None {
        Err(CatalogErrorModel::MalformedField { entry: m.technical_name, field: "name"@ })
    } else if m.description is None {
        Err(CatalogErrorModel::MalformedField { entry: m.technical_name, field: "description"@ })
    } else if m.category is None {
        Err(CatalogErrorModel::MalformedField { entry: m.technical_name, field: "category"@ })
    } else if m.wasm is None {
        Err(CatalogErrorModel::MalformedField { entry: m.technical_name, field: "wasm"@ })
    } else {
        Ok(
            MetadataEntryModel {
                technical_name: m.technical_name,
                name: m.name->0,
                description: m.description->0,
                category: m.category->0,
                wasm: m.wasm->0,
                hidden: match m.hidden {
                    Some(b) => b,
                    None => false,
                },
            },
        )
    }
}

/// Validates raw metadata entries front to back; the first malformed entry
/// decides the error.
pub open spec fn validate_metadata(s: Seq<RawMetadataModel>) -> Result<
    Seq<MetadataEntryModel>,
    CatalogErrorModel,
>
    decreases s.len(),
{
    if s.len() == 0 {
        Ok(Seq::empty())
    } else {
        match validate_metadata_entry(s[0]) {
            Err(e) => Err(e),
            Ok(m) => match validate_metadata(s.drop_first()) {
                Err(e) => Err(e),
                Ok(rest) => Ok(seq![m] + rest),
            },
        }
    }
}

/// What `parse_metadata` returns, as a function of the manifest text.
pub open spec fn spec_parse_metadata(text: Seq<char>) -> Result<
    Seq<MetadataEntryModel>,
    CatalogErrorModel,
> {
    match manifest_example_metadata(text) {
        None => Err(CatalogErrorModel::MalformedTable("package.metadata.example"@)),
        Some(s) => validate_metadata(s),
    }
}

/// Reads and validates the example-metadata table of the manifest text.
pub fn parse_metadata(text: &str) -> (r: Result<Vec<MetadataEntry>, CatalogError>)
    ensures
        res_view(r) == spec_parse_metadata(text@),
{
    let opt = read_metadata(text);
    let ghost g = opt.deep_view();
    let raw = match opt {
        None => {
            return Err(CatalogError::MalformedTable("package.metadata.example".to_owned()));
        },
        Some(v) => v,
    };
    let ghost rm: Seq<RawMetadataModel> = raw.deep_view();
    let mut out: Vec<MetadataEntry> = Vec::new();
    let mut i: usize = 0;
    proof {
        assert(g == Some(rm));
        assert(rm.skip(0) =~= rm);
        assert(out.deep_view() =~= Seq::<MetadataEntryModel>::empty());
        if let Ok(rest) = validate_metadata(rm) {
            assert(out.deep_view() + rest =~= rest);
        }
    }
    while i < raw.len()
        invariant
            i <= raw.len(),
            rm == raw.deep_view(),
            rm.len() == raw.len(),
            manifest_example_metadata(text@) == Some(rm),
            validate_metadata(rm) == (match validate_metadata(rm.skip(i as int)) {
                Err(e) => Err::<Seq<MetadataEntryModel>, CatalogErrorModel>(e),
                Ok(rest) => Ok(out.deep_view() + rest),
            }),
        decreases raw.len() - i,
    {
        proof {
            assert(rm.skip(i as int).len() > 0);
            assert(rm.skip(i as int)[0] == rm[i as int]);
            assert(rm.skip(i as int).drop_first() =~= rm.skip(i + 1));
        }
        let m = &raw[i];
        proof {
            assert(rm[i as int] == m.deep_view());
        }
        let name = match &m.name {
            None => {
                return Err(
                    CatalogError::MalformedField {
                        entry: m.technical_name.clone(),
                        field: "name".to_owned(),
                    },
                );
            },
            Some(s) => s.clone(),
        };
        let description = match &m.description {
            None => {
                return Err(
                    CatalogError::MalformedField {
                        entry: m.technical_name.clone(),
                        field: "description".to_owned(),
                    },
                );
            },
            Some(s) => s.clone(),
        };
        let category = match &m.category {
            None => {
                return Err(
                    CatalogError::MalformedField {
                        entry: m.technical_name.clone(),
                        field: "category".to_owned(),
                    },
                );
            },
            Some(s) => s.clone(),
        };
        let wasm = match m.wasm {
            None => {
                return Err(
                    CatalogError::MalformedField {
                        entry: m.technical_name.clone(),
                        field: "wasm".to_owned(),
                    },
                );
            },
            Some(b) => b,
        };
        let hidden = match m.hidden {
            Some(b) => b,
            None => false,
        };
        let entry = MetadataEntry {
            technical_name: m.technical_name.clone(),
            name,
            description,
            category,
            wasm,
            hidden,
        };
        proof {
            assert(validate_metadata_entry(rm[i as int]) == Ok::<
                MetadataEntryModel,
                CatalogErrorModel,
            >(entry@));
        }
        let ghost pre = out.deep_view();
        let ghost em = entry@;
        out.push(entry);
        proof {
            assert(out.deep_view() =~= pre + seq![em]);
            if let Ok(rest) = validate_metadata(rm.skip(i + 1)) {
                assert(pre + (seq![em] + rest) =~= (pre + seq![em]) + rest);
            }
        }
        i += 1;
    }
    proof {
        assert(rm.skip(rm.len() as int) =~= Seq::<RawMetadataModel>::empty());
    }
    Ok(out)
}

/// The validated form of one raw category entry, or the error its first
/// missing required field produces.
pub open spec fn validate_category(c: RawCategoryModel) -> Result<
    CategoryDescriptionModel,
    CatalogErrorModel,
> {
    match c.name {
        None => Err(
            CatalogErrorModel::MalformedField { entry: "example_category"@, field: "name"@ },
        ),
        Some(n) => match c.description {
            None => Err(CatalogErrorModel::MalformedField { entry: n, field: "description"@ }),
            Some(d) => Ok(CategoryDescriptionModel { name: n, description: d }),
        },
    }
}

/// Validates raw category entries front to back; the first malformed entry
/// decides the error.
pub open spec fn validate_categories(s: Seq<RawCategoryModel>) -> Result<
    Seq<CategoryDescriptionModel>,
    CatalogErrorModel,
>
    decreases s.len(),
{
    if s.len() == 0 {
        Ok(Seq::empty())
    } else {
        match validate_category(s[0]) {
            Err(e) => Err(e),
            Ok(c) => match validate_categories(s.drop_first()) {
                Err(e) => Err(e),
                Ok(rest) => Ok(seq![c] + rest),
            },
        }
    }
}

/// What `parse_categories` returns, as a function of the manifest text.
pub open spec fn spec_parse_categories(text: Seq<char>) -> Result<
    Seq<CategoryDescriptionModel>,
    CatalogErrorModel,
> {
    match manifest_category_table(text) {
        None => Err(CatalogErrorModel::MalformedTable("package.metadata.example_category"@)),
        Some(s) => validate_categories(s),
    }
}

/// Reads and validates the category-description table of the manifest text.
pub fn parse_categories(text: &str) -> (r: Result<Vec<CategoryDescription>, CatalogError>)
    ensures
        res_view(r) == spec_parse_categories(text@),
{
    let opt = read_categories(text);
    let ghost g = opt.deep_view();
    let raw = match opt {
        None => {
            return Err(
                CatalogError::MalformedTable("package.metadata.example_category".to_owned()),
            );
        },
        Some(v) => v,
    };
    let ghost rm: Seq<RawCategoryModel> = raw.deep_view();
    let mut out: Vec<CategoryDescription> = Vec::new();
    let mut i: usize = 0;
    proof {
        assert(g == Some(rm));
        assert(rm.skip(0) =~= rm);
        assert(out.deep_view() =~= Seq::<CategoryDescriptionModel>::empty());
        if let Ok(rest) = validate_categories(rm) {
            assert(out.deep_view() + rest =~= rest);
        }
    }
    while i < raw.len()
        invariant
            i <= raw.len(),
            rm == raw.deep_view(),
            rm.len() == raw.len(),
            manifest_category_table(text@) == Some(rm),
            validate_categories(rm) == (match validate_categories(rm.skip(i as int)) {
                Err(e) => Err::<Seq<CategoryDescriptionModel>, CatalogErrorModel>(e),
                Ok(rest) => Ok(out.deep_view() + rest),
            }),
        decreases raw.len() - i,
    {
        proof {
            assert(rm.skip(i as int).len() > 0);
            assert(rm.skip(i as int)[0] == rm[i as int]);
            assert(rm.skip(i as int).drop_first() =~= rm.skip(i + 1));
        }
        let c = &raw[i];
        proof {
            assert(rm[i as int] == c.deep_view());
        }
        let name = match &c.name {
            None => {
                return Err(
                    CatalogError::MalformedField {
                        entry: "example_category".to_owned(),
                        field: "name".to_owned(),
                    },
                );
            },
            Some(n) => n.clone(),
        };
        let description = match &c.description {
            None => {
                return Err(
                    CatalogError::MalformedField { entry: name, field: "description".to_owned() },
                );
            },
            Some(d) => d.clone(),
        };
        let entry = CategoryDescription { name, description };
        proof {
            assert(validate_category(rm[i as int]) == Ok::<
                CategoryDescriptionModel,
                CatalogErrorModel,
            >(entry@));
        }
        let ghost pre = out.deep_view();
        let ghost cm = entry@;
        out.push(entry);
        proof {
            assert(out.deep_view() =~= pre + seq![cm]);
            if let Ok(rest) = validate_categories(rm.skip(i + 1)) {
                assert(pre + (seq![cm] + rest) =~= (pre + seq![cm]) + rest);
            }
        }
        i += 1;
    }
    proof {
        assert(rm.skip(rm.len() as int) =~= Seq::<RawCategoryModel>::empty());
    }
    Ok(out)
}

} // verus!
