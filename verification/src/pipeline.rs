//! The command dispatcher: extraction always runs, strict when
//! `check_missing` is set; aggregation runs only when `update` is set, and
//! its catalog is handed back for rendering.
//!
//! Tables are validated in a fixed order — declarations, then metadata,
//! then (only under `update`) the category table — and the first violation
//! decides the error.

use vstd::prelude::*;

use crate::aggregate::{aggregate, catalog_matches};
use crate::extract::{extract_examples, spec_extract};
use crate::manifest::{parse_categories, parse_declarations, parse_metadata,
    spec_parse_categories, spec_parse_declarations, spec_parse_metadata};
use crate::types::{Catalog, CatalogError, CatalogErrorModel, ExampleModel};

verus! {

/// The example records the manifest text yields under the chosen validation
/// mode, or the first error on the way there.
pub open spec fn spec_run_examples(text: Seq<char>, strict: bool) -> Result<
    Seq<ExampleModel>,
    CatalogErrorModel,
> {
    match spec_parse_declarations(text) {
        Err(e) => Err(e),
        Ok(decls) => match spec_parse_metadata(text) {
            Err(e) => Err(e),
            Ok(meta) => spec_extract(decls, meta, strict),
        },
    }
}

/// Runs the pipeline on the manifest text. Extraction always runs, strict
/// exactly when `check_missing` is set. With `update` unset the call
/// returns `Ok(None)`; with it set, the category table is read and the
/// aggregated catalog is returned.
pub fn run(text: &str, check_missing: bool, update: bool) -> (r: Result<
    Option<Catalog>,
    CatalogError,
>)
    ensures
        (match r {
            Err(e) => ({
                ||| spec_run_examples(text@, check_missing) == Err::<
                    Seq<ExampleModel>,
                    CatalogErrorModel,
                >(e@)
                ||| (spec_run_examples(text@, check_missing) is Ok && update
                    && spec_parse_categories(text@) == Err::<
                    Seq<crate::types::CategoryDescriptionModel>,
                    CatalogErrorModel,
                >(e@))
            }),
            Ok(opt) => spec_run_examples(text@, check_missing) is Ok && (match opt {
                None => !update,
                Some(catalog) => update && spec_parse_categories(text@) is Ok
                    && catalog_matches(
                    catalog@,
                    spec_run_examples(text@, check_missing)->Ok_0,
                    spec_parse_categories(text@)->Ok_0,
                ),
            }),
        }),
{
    let decls = match parse_declarations(text) {
        Err(e) => {
            return Err(e);
        },
        Ok(v) => v,
    };
    let meta = match parse_metadata(text) {
        Err(e) => {
            return Err(e);
        },
        Ok(v) => v,
    };
    let examples = match extract_examples(&decls, &meta, check_missing) {
        Err(e) => {
            return Err(e);
        },
        Ok(v) => v,
    };
    if !update {
        return Ok(None);
    }
    let categories = match parse_categories(text) {
        Err(e) => {
            return Err(e);
        },
        Ok(v) => v,
    };
    let catalog = aggregate(&examples, &categories);
    Ok(Some(catalog))
}

} // verus!
