//! The metadata extractor: joins each example declaration with its metadata
//! entry, in declaration order, under two validation modes.
//!
//! In strict mode a declaration without a metadata entry, or without the
//! doc-scrape-examples marker, is an error naming the offending example. In
//! either mode a declaration whose metadata is hidden, or (non-strict)
//! absent, is silently omitted.

use vstd::prelude::*;

use crate::types::{CatalogError, CatalogErrorModel, Example, ExampleDeclaration,
    ExampleDeclarationModel, ExampleModel, MetadataEntry, MetadataEntryModel, res_view};

verus! {

/// The first metadata entry stored under `name`, scanning front to back.
pub open spec fn meta_lookup(meta: Seq<MetadataEntryModel>, name: Seq<char>) -> Option<
    MetadataEntryModel,
>
    decreases meta.len(),
{
    if meta.len() == 0 {
        None
    } else if meta[0].technical_name == name {
        Some(meta[0])
    } else {
        meta_lookup(meta.drop_first(), name)
    }
}

/// The merged record of a declaration and its metadata entry: the five
/// metadata fields plus the declaration's path, copied verbatim.
pub open spec fn merge_example(d: ExampleDeclarationModel, m: MetadataEntryModel) -> ExampleModel {
    ExampleModel {
        technical_name: d.technical_name,
        path: d.path,
        name: m.name,
        description: m.description,
        category: m.category,
        wasm: m.wasm,
    }
}

/// What extraction does with one declaration: an error, a record, or
/// nothing. Strict checks run before the hidden flag is consulted, so a
/// hidden example still needs its doc-scrape marker in strict mode.
pub open spec fn extract_one(
    d: ExampleDeclarationModel,
    meta: Seq<MetadataEntryModel>,
    strict: bool,
) -> Result<Option<ExampleModel>, CatalogErrorModel> {
    let found = meta_lookup(meta, d.technical_name);
    if strict && found is None {
        Err(CatalogErrorModel::MissingMetadata(d.technical_name))
    } else if strict && !d.doc_scrape {
        Err(CatalogErrorModel::MissingDocScrape(d.technical_name))
    } else {
        match found {
            None => Ok(None),
            Some(m) => if m.hidden {
                Ok(None)
            } else {
                Ok(Some(merge_example(d, m)))
            },
        }
    }
}

/// Extraction over the whole declaration list, front to back; the first
/// offending declaration decides the error.
pub open spec fn spec_extract(
    decls: Seq<ExampleDeclarationModel>,
    meta: Seq<MetadataEntryModel>,
    strict: bool,
) -> Result<Seq<ExampleModel>, CatalogErrorModel>
    decreases decls.len(),
{
    if decls.len() == 0 {
        Ok(Seq::empty())
    } else {
        match extract_one(decls[0], meta, strict) {
            Err(e) => Err(e),
            Ok(opt) => match spec_extract(decls.drop_first(), meta, strict) {
                Err(e) => Err(e),
                Ok(rest) => Ok(
                    match opt {
                        Some(x) => seq![x] + rest,
                        None => rest,
                    },
                ),
            },
        }
    }
}

/// The records non-strict extraction yields: one per declaration with a
/// visible (non-hidden) metadata entry, in declaration order.
pub open spec fn included_examples(
    decls: Seq<ExampleDeclarationModel>,
    meta: Seq<MetadataEntryModel>,
) -> Seq<ExampleModel>
    decreases decls.len(),
{
    if decls.len() == 0 {
        Seq::empty()
    } else {
        let rest = included_examples(decls.drop_first(), meta);
        match meta_lookup(meta, decls[0].technical_name) {
            Some(m) => if m.hidden {
                rest
            } else {
                seq![merge_example(decls[0], m)] + rest
            },
            None => rest,
        }
    }
}

/// Non-strict extraction never fails: it yields exactly one record, fields
/// copied verbatim, per declaration with a visible metadata entry, and
/// silently omits declarations whose metadata is absent or hidden.
pub proof fn lemma_extract_nonstrict(
    decls: Seq<ExampleDeclarationModel>,
    meta: Seq<MetadataEntryModel>,
)
    ensures
        spec_extract(decls, meta, false) == Ok::<Seq<ExampleModel>, CatalogErrorModel>(
            included_examples(decls, meta),
        ),
    decreases decls.len(),
{
    if decls.len() > 0 {
        lemma_extract_nonstrict(decls.drop_first(), meta);
    }
}

/// Every declaration with a visible metadata entry contributes its merged
/// record to the non-strict output.
pub proof fn lemma_nonstrict_includes(
    decls: Seq<ExampleDeclarationModel>,
    meta: Seq<MetadataEntryModel>,
    i: int,
    m: MetadataEntryModel,
)
    requires
        0 <= i < decls.len(),
        meta_lookup(meta, decls[i].technical_name) == Some(m),
        !m.hidden,
    ensures
        included_examples(decls, meta).contains(merge_example(decls[i], m)),
    decreases i,
{
    let inc = included_examples(decls, meta);
    let rest = included_examples(decls.drop_first(), meta);
    if i == 0 {
        assert(inc[0] == merge_example(decls[0], m));
    } else {
        lemma_nonstrict_includes(decls.drop_first(), meta, i - 1, m);
        assert(decls.drop_first()[i - 1] == decls[i]);
        let k = choose|k: int|
            0 <= k < rest.len() && rest[k] == merge_example(decls[i], m);
        match meta_lookup(meta, decls[0].technical_name) {
            Some(m0) => {
                if m0.hidden {
                    assert(inc[k] == rest[k]);
                } else {
                    assert(inc[k + 1] == rest[k]);
                }
            },
            None => {
                assert(inc[k] == rest[k]);
            },
        }
    }
}

/// No output record ever carries the technical name of a declaration whose
/// metadata entry is hidden, in either mode.
pub proof fn lemma_hidden_omitted(
    decls: Seq<ExampleDeclarationModel>,
    meta: Seq<MetadataEntryModel>,
    strict: bool,
    m: MetadataEntryModel,
    tn: Seq<char>,
)
    requires
        meta_lookup(meta, tn) == Some(m),
        m.hidden,
    ensures
        (match spec_extract(decls, meta, strict) {
            Ok(res) => forall|k: int| 0 <= k < res.len() ==> res[k].technical_name != tn,
            Err(_) => true,
        }),
    decreases decls.len(),
{
    if decls.len() > 0 {
        lemma_hidden_omitted(decls.drop_first(), meta, strict, m, tn);
    }
}

/// In strict mode, a hidden example must still carry the doc-scrape marker:
/// the hidden flag suppresses output, not marker validation.
pub proof fn lemma_hidden_still_checked(
    decls: Seq<ExampleDeclarationModel>,
    meta: Seq<MetadataEntryModel>,
    i: int,
)
    requires
        0 <= i < decls.len(),
        meta_lookup(meta, decls[i].technical_name) is Some,
        !decls[i].doc_scrape,
        forall|j: int|
            0 <= j < i ==> meta_lookup(meta, #[trigger] decls[j].technical_name) is Some
                && decls[j].doc_scrape,
    ensures
        spec_extract(decls, meta, true) == Err::<Seq<ExampleModel>, CatalogErrorModel>(
            CatalogErrorModel::MissingDocScrape(decls[i].technical_name),
        ),
    decreases i,
{
    if i > 0 {
        assert forall|j: int| 0 <= j < i - 1 implies meta_lookup(
            meta,
            #[trigger] decls.drop_first()[j].technical_name,
        ) is Some && decls.drop_first()[j].doc_scrape by {
            assert(decls.drop_first()[j] == decls[j + 1]);
        }
        lemma_hidden_still_checked(decls.drop_first(), meta, i - 1);
    }
}

/// A declaration without a metadata entry is a strict-mode error naming it,
/// and is silently omitted — along with every other declaration of that
/// name — outside strict mode.
pub proof fn lemma_missing_metadata(
    decls: Seq<ExampleDeclarationModel>,
    meta: Seq<MetadataEntryModel>,
    i: int,
)
    requires
        0 <= i < decls.len(),
        meta_lookup(meta, decls[i].technical_name) is None,
        forall|j: int|
            0 <= j < i ==> meta_lookup(meta, #[trigger] decls[j].technical_name) is Some
                && decls[j].doc_scrape,
    ensures
        spec_extract(decls, meta, true) == Err::<Seq<ExampleModel>, CatalogErrorModel>(
            CatalogErrorModel::MissingMetadata(decls[i].technical_name),
        ),
        spec_extract(decls, meta, false) == Ok::<Seq<ExampleModel>, CatalogErrorModel>(
            included_examples(decls, meta),
        ),
        forall|k: int|
            0 <= k < included_examples(decls, meta).len()
                ==> included_examples(decls, meta)[k].technical_name
                != decls[i].technical_name,
    decreases i,
{
    lemma_extract_nonstrict(decls, meta);
    lemma_no_record_without_metadata(decls, meta, decls[i].technical_name);
    if i > 0 {
        assert forall|j: int| 0 <= j < i - 1 implies meta_lookup(
            meta,
            #[trigger] decls.drop_first()[j].technical_name,
        ) is Some && decls.drop_first()[j].doc_scrape by {
            assert(decls.drop_first()[j] == decls[j + 1]);
        }
        lemma_missing_metadata(decls.drop_first(), meta, i - 1);
    }
}

/// Helper: a technical name without a metadata entry never reaches the
/// output.
proof fn lemma_no_record_without_metadata(
    decls: Seq<ExampleDeclarationModel>,
    meta: Seq<MetadataEntryModel>,
    tn: Seq<char>,
)
    requires
        meta_lookup(meta, tn) is None,
    ensures
        forall|k: int|
            0 <= k < included_examples(decls, meta).len()
                ==> included_examples(decls, meta)[k].technical_name != tn,
    decreases decls.len(),
{
    if decls.len() > 0 {
        lemma_no_record_without_metadata(decls.drop_first(), meta, tn);
        let inc = included_examples(decls, meta);
        let rest = included_examples(decls.drop_first(), meta);
        match meta_lookup(meta, decls[0].technical_name) {
            Some(m) => {
                if !m.hidden {
                    assert forall|k: int| 0 <= k < inc.len() implies inc[k].technical_name != tn by {
                        if k == 0 {
                            assert(inc[0] == merge_example(decls[0], m));
                        } else {
                            assert(inc[k] == rest[k - 1]);
                        }
                    }
                }
            },
            None => {},
        }
    }
}

/// Index of the first metadata entry stored under `name`, if any.
fn find_metadata(meta: &Vec<MetadataEntry>, name: &String) -> (r: Option<usize>)
    ensures
        (match r {
            Some(j) => j < meta.len() && meta_lookup(meta.deep_view(), name@) == Some(
                meta.deep_view()[j as int],
            ),
            None => meta_lookup(meta.deep_view(), name@) is None,
        }),
{
    let ghost mm = meta.deep_view();
    let mut i: usize = 0;
    proof {
        assert(mm.skip(0) =~= mm);
    }
    while i < meta.len()
        invariant
            i <= meta.len(),
            mm == meta.deep_view(),
            mm.len() == meta.len(),
            meta_lookup(mm, name@) == meta_lookup(mm.skip(i as int), name@),
        decreases meta.len() - i,
    {
        proof {
            assert(mm.skip(i as int).len() > 0);
            assert(mm.skip(i as int)[0] == mm[i as int]);
            assert(mm.skip(i as int).drop_first() =~= mm.skip(i + 1));
            assert(mm[i as int] == meta[i as int].deep_view());
        }
        if meta[i].technical_name == *name {
            return Some(i);
        }
        i += 1;
    }
    proof {
        assert(mm.skip(mm.len() as int) =~= Seq::<MetadataEntryModel>::empty());
    }
    None
}

/// Joins declarations with their metadata entries, in declaration order.
/// With `strict` set, the first declaration without a metadata entry or
/// without its doc-scrape marker decides the error.
pub fn extract_examples(
    decls: &Vec<ExampleDeclaration>,
    meta: &Vec<MetadataEntry>,
    strict: bool,
) -> (r: Result<Vec<Example>, CatalogError>)
    ensures
        res_view(r) == spec_extract(decls.deep_view(), meta.deep_view(), strict),
{
    let ghost dm = decls.deep_view();
    let ghost mm = meta.deep_view();
    let mut out: Vec<Example> = Vec::new();
    let mut i: usize = 0;
    proof {
        assert(dm.skip(0) =~= dm);
        assert(out.deep_view() =~= Seq::<ExampleModel>::empty());
        if let Ok(rest) = spec_extract(dm, mm, strict) {
            assert(out.deep_view() + rest =~= rest);
        }
    }
    while i < decls.len()
        invariant
            i <= decls.len(),
            dm == decls.deep_view(),
            mm == meta.deep_view(),
            dm.len() == decls.len(),
            spec_extract(dm, mm, strict) == (match spec_extract(dm.skip(i as int), mm, strict) {
                Err(e) => Err::<Seq<ExampleModel>, CatalogErrorModel>(e),
                Ok(rest) => Ok(out.deep_view() + rest),
            }),
        decreases decls.len() - i,
    {
        proof {
            assert(dm.skip(i as int).len() > 0);
            assert(dm.skip(i as int)[0] == dm[i as int]);
            assert(dm.skip(i as int).drop_first() =~= dm.skip(i + 1));
        }
        let d = &decls[i];
        proof {
            assert(dm[i as int] == d.deep_view());
        }
        let found = find_metadata(meta, &d.technical_name);
        if strict && found.is_none() {
            return Err(CatalogError::MissingMetadata(d.technical_name.clone()));
        }
        if strict && !d.doc_scrape {
            return Err(CatalogError::MissingDocScrape(d.technical_name.clone()));
        }
        match found {
            None => {},
            Some(j) => {
                let m = &meta[j];
                proof {
                    assert(mm[j as int] == m.deep_view());
                }
                if !m.hidden {
                    let x = Example {
                        technical_name: d.technical_name.clone(),
                        path: d.path.clone(),
                        name: m.name.clone(),
                        description: m.description.clone(),
                        category: m.category.clone(),
                        wasm: m.wasm,
                    };
                    proof {
                        assert(extract_one(dm[i as int], mm, strict) == Ok::<
                            Option<ExampleModel>,
                            CatalogErrorModel,
                        >(Some(x@)));
                    }
                    let ghost pre = out.deep_view();
                    let ghost xm = x@;
                    out.push(x);
                    proof {
                        assert(out.deep_view() =~= pre + seq![xm]);
                        if let Ok(rest) = spec_extract(dm.skip(i + 1), mm, strict) {
                            assert(pre + (seq![xm] + rest) =~= (pre + seq![xm]) + rest);
                        }
                    }
                }
            },
        }
        i += 1;
    }
    proof {
        assert(dm.skip(dm.len() as int) =~= Seq::<ExampleDeclarationModel>::empty());
    }
    Ok(out)
}

} // verus!
