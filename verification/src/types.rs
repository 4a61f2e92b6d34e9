//! Record types of the catalog pipeline and their mathematical models.
//!
//! Each executable record (holding `String`s and `bool`s) has a ghost model
//! over `Seq<char>`, reached through `View`/`DeepView`; every contract in the
//! crate is stated over these models.

use vstd::prelude::*;

verus! {

// ---------------------------------------------------------------------------
// Raw records: what the manifest reader hands over, before validation.
// A `None` field was absent or had the wrong type in the manifest.
// ---------------------------------------------------------------------------

/// One entry of the manifest's example-definitions table, unvalidated.
pub struct RawDeclaration {
    pub name: Option<String>,
    pub path: Option<String>,
    /// Whether the declaration carries the doc-scrape-examples marker key.
    pub doc_scrape: bool,
}

pub ghost struct RawDeclarationModel {
    pub name: Option<Seq<char>>,
    pub path: Option<Seq<char>>,
    pub doc_scrape: bool,
}

/// One entry of the manifest's example-metadata table, unvalidated.
pub struct RawMetadata {
    /// The key the entry is stored under: the example's technical name.
    pub technical_name: String,
    pub name: Option<String>,
    pub description: Option<String>,
    pub category: Option<String>,
    pub wasm: Option<bool>,
    pub hidden: Option<bool>,
}

pub ghost struct RawMetadataModel {
    pub technical_name: Seq<char>,
    pub name: Option<Seq<char>>,
    pub description: Option<Seq<char>>,
    pub category: Option<Seq<char>>,
    pub wasm: Option<bool>,
    pub hidden: Option<bool>,
}

/// One entry of the manifest's category table, unvalidated.
pub struct RawCategory {
    pub name: Option<String>,
    pub description: Option<String>,
}

pub ghost struct RawCategoryModel {
    pub name: Option<Seq<char>>,
    pub description: Option<Seq<char>>,
}

// ---------------------------------------------------------------------------
// Validated records.
// ---------------------------------------------------------------------------

/// A validated example declaration.
#[derive(Debug, PartialEq, Eq)]
pub struct ExampleDeclaration {
    pub technical_name: String,
    pub path: String,
    pub doc_scrape: bool,
}

pub ghost struct ExampleDeclarationModel {
    pub technical_name: Seq<char>,
    pub path: Seq<char>,
    pub doc_scrape: bool,
}

/// A validated example-metadata entry, keyed by technical name.
#[derive(Debug, PartialEq, Eq)]
pub struct MetadataEntry {
    pub technical_name: String,
    pub name: String,
    pub description: String,
    pub category: String,
    pub wasm: bool,
    /// Absent in the manifest means `false`.
    pub hidden: bool,
}

pub ghost struct MetadataEntryModel {
    pub technical_name: Seq<char>,
    pub name: Seq<char>,
    pub description: Seq<char>,
    pub category: Seq<char>,
    pub wasm: bool,
    pub hidden: bool,
}

/// A validated category description entry.
#[derive(Debug, PartialEq, Eq)]
pub struct CategoryDescription {
    pub name: String,
    pub description: String,
}

pub ghost struct CategoryDescriptionModel {
    pub name: Seq<char>,
    pub description: Seq<char>,
}

/// The merged record: a declaration joined with its metadata.
#[derive(Debug, PartialEq, Eq)]
pub struct Example {
    pub technical_name: String,
    pub path: String,
    pub name: String,
    pub description: String,
    pub category: String,
    pub wasm: bool,
}

pub ghost struct ExampleModel {
    pub technical_name: Seq<char>,
    pub path: Seq<char>,
    pub name: Seq<char>,
    pub description: Seq<char>,
    pub category: Seq<char>,
    pub wasm: bool,
}

/// One category of the final catalog: its name, its optional description,
/// and its examples in ascending name order.
#[derive(Debug, PartialEq, Eq)]
pub struct CatalogEntry {
    pub category: String,
    pub description: Option<String>,
    pub examples: Vec<Example>,
}

pub ghost struct CatalogEntryModel {
    pub category: Seq<char>,
    pub description: Option<Seq<char>>,
    pub examples: Seq<ExampleModel>,
}

/// The aggregated catalog: one entry per category, in ascending category
/// order.
#[derive(Debug, PartialEq, Eq)]
pub struct Catalog {
    pub entries: Vec<CatalogEntry>,
}

// ---------------------------------------------------------------------------
// Errors.
// ---------------------------------------------------------------------------

/// Why the pipeline rejected a manifest. Every variant carries the offending
/// identifier, so a caller can report it.
#[derive(Debug, PartialEq, Eq)]
pub enum CatalogError {
    /// A required table is absent or not of the expected shape; the payload
    /// names the table.
    MalformedTable(String),
    /// A required field of an entry is absent or has the wrong type.
    MalformedField { entry: String, field: String },
    /// Strict mode: a declared example has no metadata entry; the payload is
    /// its technical name.
    MissingMetadata(String),
    /// Strict mode: a declaration lacks the doc-scrape-examples marker; the
    /// payload is its technical name.
    MissingDocScrape(String),
}

pub ghost enum CatalogErrorModel {
    MalformedTable(Seq<char>),
    MalformedField { entry: Seq<char>, field: Seq<char> },
    MissingMetadata(Seq<char>),
    MissingDocScrape(Seq<char>),
}

// ---------------------------------------------------------------------------
// Views.
// ---------------------------------------------------------------------------

pub open spec fn opt_view(o: Option<String>) -> Option<Seq<char>> {
    match o {
        Some(s) => Some(s@),
        None => None,
    }
}

impl View for RawDeclaration {
    type V = RawDeclarationModel;

    open spec fn view(&self) -> RawDeclarationModel {
        RawDeclarationModel {
            name: opt_view(self.name),
            path: opt_view(self.path),
            doc_scrape: self.doc_scrape,
        }
    }
}

impl DeepView for RawDeclaration {
    type V = RawDeclarationModel;

    open spec fn deep_view(&self) -> RawDeclarationModel {
        self.view()
    }
}

impl View for RawMetadata {
    type V = RawMetadataModel;

    open spec fn view(&self) -> RawMetadataModel {
        RawMetadataModel {
            technical_name: self.technical_name@,
            name: opt_view(self.name),
            description: opt_view(self.description),
            category: opt_view(self.category),
            wasm: self.wasm,
            hidden: self.hidden,
        }
    }
}

impl DeepView for RawMetadata {
    type V = RawMetadataModel;

    open spec fn deep_view(&self) -> RawMetadataModel {
        self.view()
    }
}

impl View for RawCategory {
    type V = RawCategoryModel;

    open spec fn view(&self) -> RawCategoryModel {
        RawCategoryModel { name: opt_view(self.name), description: opt_view(self.description) }
    }
}

impl DeepView for RawCategory {
    type V = RawCategoryModel;

    open spec fn deep_view(&self) -> RawCategoryModel {
        self.view()
    }
}

impl View for ExampleDeclaration {
    type V = ExampleDeclarationModel;

    open spec fn view(&self) -> ExampleDeclarationModel {
        ExampleDeclarationModel {
            technical_name: self.technical_name@,
            path: self.path@,
            doc_scrape: self.doc_scrape,
        }
    }
}

impl DeepView for ExampleDeclaration {
    type V = ExampleDeclarationModel;

    open spec fn deep_view(&self) -> ExampleDeclarationModel {
        self.view()
    }
}

impl View for MetadataEntry {
    type V = MetadataEntryModel;

    open spec fn view(&self) -> MetadataEntryModel {
        MetadataEntryModel {
            technical_name: self.technical_name@,
            name: self.name@,
            description: self.description@,
            category: self.category@,
            wasm: self.wasm,
            hidden: self.hidden,
        }
    }
}

impl DeepView for MetadataEntry {
    type V = MetadataEntryModel;

    open spec fn deep_view(&self) -> MetadataEntryModel {
        self.view()
    }
}

impl View for CategoryDescription {
    type V = CategoryDescriptionModel;

    open spec fn view(&self) -> CategoryDescriptionModel {
        CategoryDescriptionModel { name: self.name@, description: self.description@ }
    }
}

impl DeepView for CategoryDescription {
    type V = CategoryDescriptionModel;

    open spec fn deep_view(&self) -> CategoryDescriptionModel {
        self.view()
    }
}

impl View for Example {
    type V = ExampleModel;

    open spec fn view(&self) -> ExampleModel {
        ExampleModel {
            technical_name: self.technical_name@,
            path: self.path@,
            name: self.name@,
            description: self.description@,
            category: self.category@,
            wasm: self.wasm,
        }
    }
}

impl DeepView for Example {
    type V = ExampleModel;

    open spec fn deep_view(&self) -> ExampleModel {
        self.view()
    }
}

impl View for CatalogEntry {
    type V = CatalogEntryModel;

    open spec fn view(&self) -> CatalogEntryModel {
        CatalogEntryModel {
            category: self.category@,
            description: opt_view(self.description),
            examples: self.examples.deep_view(),
        }
    }
}

impl DeepView for CatalogEntry {
    type V = CatalogEntryModel;

    open spec fn deep_view(&self) -> CatalogEntryModel {
        self.view()
    }
}

impl View for Catalog {
    type V = Seq<CatalogEntryModel>;

    open spec fn view(&self) -> Seq<CatalogEntryModel> {
        self.entries.deep_view()
    }
}

impl View for CatalogError {
    type V = CatalogErrorModel;

    open spec fn view(&self) -> CatalogErrorModel {
        match self {
            CatalogError::MalformedTable(t) => CatalogErrorModel::MalformedTable(t@),
            CatalogError::MalformedField { entry, field } => CatalogErrorModel::MalformedField {
                entry: entry@,
                field: field@,
            },
            CatalogError::MissingMetadata(t) => CatalogErrorModel::MissingMetadata(t@),
            CatalogError::MissingDocScrape(t) => CatalogErrorModel::MissingDocScrape(t@),
        }
    }
}

/// The model of a `Result` whose success side is a record (or sequence of
/// records) and whose error side is a `CatalogError`.
pub open spec fn res_view<T: DeepView>(r: Result<T, CatalogError>) -> Result<
    T::V,
    CatalogErrorModel,
> {
    match r {
        Ok(v) => Ok(v.deep_view()),
        Err(e) => Err(e@),
    }
}

impl Example {
    /// Field-for-field copy; the model is preserved.
    pub fn duplicate(&self) -> (r: Example)
        ensures
            r@ == self@,
    {
        Example {
            technical_name: self.technical_name.clone(),
            path: self.path.clone(),
            name: self.name.clone(),
            description: self.description.clone(),
            category: self.category.clone(),
            wasm: self.wasm,
        }
    }
}

} // verus!
