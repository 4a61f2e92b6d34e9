//! The aggregator: groups example records by category, attaches category
//! descriptions, and orders everything deterministically.
//!
//! The catalog lists each category that at least one record names, in
//! ascending category order; within a category, examples are sorted by the
//! total order of `crate::sorting`. The description lookup is backed by a
//! `hashbrown::HashMap` behind trusted wrappers.

use vstd::prelude::*;
use vstd::relations::sorted_by;

use crate::order::lex_lt;
use crate::sorting::{example_leq, sort_examples, sort_names};
use crate::types::{Catalog, CatalogEntry, CatalogEntryModel, CategoryDescription,
    CategoryDescriptionModel, Example, ExampleModel};

verus! {

// ---------------------------------------------------------------------------
// Category-description lookup.
// ---------------------------------------------------------------------------

/// Name-to-description lookup. The backing map is a collaborator Verus does
/// not read; what it holds is named by `category_map_contents`.
#[verifier::external_body]
pub struct CategoryMap {
    map: hashbrown::HashMap<String, String>,
}

/// What a `CategoryMap` holds.
pub uninterp spec fn category_map_contents(m: CategoryMap) -> Map<Seq<char>, Seq<char>>;

/// The contents of a map with nothing in it.
pub open spec fn no_contents() -> Map<Seq<char>, Seq<char>> {
    Map::empty()
}

impl CategoryMap {
    /// Relies on hashbrown::HashMap::new: the new map is empty.
    #[verifier::external_body]
    pub(crate) fn new() -> (m: CategoryMap)
        ensures
            category_map_contents(m) == no_contents(),
    {
        CategoryMap { map: hashbrown::HashMap::new() }
    }

    /// Relies on hashbrown::HashMap::insert: the value is stored under the
    /// key, replacing any previous value for that key.
    #[verifier::external_body]
    pub(crate) fn insert(&mut self, key: String, value: String)
        ensures
            category_map_contents(*final(self)) == category_map_contents(*old(self)).insert(
                key@,
                value@,
            ),
    {
        self.map.insert(key, value);
    }

    /// Relies on hashbrown::HashMap::get: the value stored under the key, if
    /// any.
    #[verifier::external_body]
    pub(crate) fn get(&self, key: &String) -> (r: Option<&String>)
        ensures
            (match r {
                Some(v) => category_map_contents(*self).contains_key(key@)
                    && v@ == category_map_contents(*self)[key@],
                None => !category_map_contents(*self).contains_key(key@),
            }),
    {
        self.map.get(key)
    }
}

/// The mapping the category table denotes; a key that appears twice keeps
/// its last description.
pub open spec fn category_map_of(cats: Seq<CategoryDescriptionModel>) -> Map<Seq<char>, Seq<char>>
    decreases cats.len(),
{
    if cats.len() == 0 {
        Map::empty()
    } else {
        category_map_of(cats.drop_last()).insert(cats.last().name, cats.last().description)
    }
}

/// The description the category table gives a name, if any.
pub open spec fn description_of(cats: Seq<CategoryDescriptionModel>, c: Seq<char>) -> Option<
    Seq<char>,
> {
    if category_map_of(cats).contains_key(c) {
        Some(category_map_of(cats)[c])
    } else {
        None
    }
}

/// A category that no entry of the table names has no description. This is
/// not an error: such a category simply renders without one.
pub proof fn lemma_absent_category_description(cats: Seq<CategoryDescriptionModel>, c: Seq<char>)
    requires
        forall|k: int| 0 <= k < cats.len() ==> (#[trigger] cats[k].name) != c,
    ensures
        description_of(cats, c) is None,
    decreases cats.len(),
{
    if cats.len() > 0 {
        assert(cats.last() == cats[cats.len() - 1]);
        assert forall|k: int| 0 <= k < cats.drop_last().len() implies (#[trigger] cats.drop_last()[k].name)
            != c by {
            assert(cats.drop_last()[k] == cats[k]);
        }
        lemma_absent_category_description(cats.drop_last(), c);
    }
}

/// Builds the lookup from the validated category table; later entries win.
pub fn build_category_map(cats: &Vec<CategoryDescription>) -> (m: CategoryMap)
    ensures
        category_map_contents(m) == category_map_of(cats.deep_view()),
{
    let ghost cm = cats.deep_view();
    let mut m = CategoryMap::new();
    let mut i: usize = 0;
    proof {
        assert(cm.take(0) =~= Seq::<CategoryDescriptionModel>::empty());
    }
    while i < cats.len()
        invariant
            i <= cats.len(),
            cm == cats.deep_view(),
            cm.len() == cats.len(),
            category_map_contents(m) == category_map_of(cm.take(i as int)),
        decreases cats.len() - i,
    {
        let c = &cats[i];
        proof {
            assert(cm[i as int] == c.deep_view());
            assert(cm.take(i + 1).drop_last() =~= cm.take(i as int));
            assert(cm.take(i + 1).last() == cm[i as int]);
        }
        m.insert(c.name.clone(), c.description.clone());
        i += 1;
    }
    proof {
        assert(cm.take(cm.len() as int) =~= cm);
    }
    m
}

// ---------------------------------------------------------------------------
// Grouping.
// ---------------------------------------------------------------------------

/// Membership test for a category, as a first-class predicate.
pub open spec fn in_category(c: Seq<char>) -> spec_fn(ExampleModel) -> bool {
    |e: ExampleModel| e.category == c
}

/// The records of one category, in input order.
pub open spec fn group_of(xs: Seq<ExampleModel>, c: Seq<char>) -> Seq<ExampleModel> {
    xs.filter(in_category(c))
}

/// Whether at least one record names the category.
pub open spec fn category_present(xs: Seq<ExampleModel>, c: Seq<char>) -> bool {
    exists|k: int| 0 <= k < xs.len() && (#[trigger] xs[k].category) == c
}

/// Exactly the catalog that the records `xs` and the category table `cats`
/// determine: one entry per present category, in strictly ascending category
/// order, each holding that category's description and its records sorted by
/// the total example order.
pub open spec fn catalog_matches(
    entries: Seq<CatalogEntryModel>,
    xs: Seq<ExampleModel>,
    cats: Seq<CategoryDescriptionModel>,
) -> bool {
    &&& forall|i: int, j: int|
        0 <= i < j < entries.len() ==> lex_lt(
            #[trigger] entries[i].category,
            #[trigger] entries[j].category,
        )
    &&& forall|i: int|
        0 <= i < entries.len() ==> category_present(xs, #[trigger] entries[i].category)
    &&& forall|c: Seq<char>|
        category_present(xs, c) ==> exists|i: int|
            0 <= i < entries.len() && (#[trigger] entries[i].category) == c
    &&& forall|i: int|
        0 <= i < entries.len() ==> (#[trigger] entries[i].description) == description_of(
            cats,
            entries[i].category,
        )
    &&& forall|i: int| 0 <= i < entries.len() ==> sorted_by(#[trigger] entries[i].examples, example_leq())
    &&& forall|i: int|
        0 <= i < entries.len() ==> (#[trigger] entries[i].examples).to_multiset() == group_of(
            xs,
            entries[i].category,
        ).to_multiset()
}

/// Whether the vector holds the name, by character content.
fn contains_name(v: &Vec<String>, s: &String) -> (r: bool)
    ensures
        r == v.deep_view().contains(s@),
{
    let ghost vm = v.deep_view();
    let mut i: usize = 0;
    while i < v.len()
        invariant
            i <= v.len(),
            vm == v.deep_view(),
            vm.len() == v.len(),
            forall|k: int| 0 <= k < i ==> (#[trigger] vm[k]) != s@,
        decreases v.len() - i,
    {
        proof {
            assert(vm[i as int] == v[i as int].deep_view());
        }
        if v[i] == *s {
            return true;
        }
        i += 1;
    }
    false
}

/// The distinct category names of the records, in first-appearance order.
fn distinct_categories(examples: &Vec<Example>) -> (r: Vec<String>)
    ensures
        r.deep_view().no_duplicates(),
        forall|c: Seq<char>|
            #[trigger] r.deep_view().contains(c) <==> category_present(examples.deep_view(), c),
{
    let ghost xs = examples.deep_view();
    let mut out: Vec<String> = Vec::new();
    let mut i: usize = 0;
    proof {
        assert(out.deep_view() =~= Seq::<Seq<char>>::empty());
    }
    while i < examples.len()
        invariant
            i <= examples.len(),
            xs == examples.deep_view(),
            xs.len() == examples.len(),
            out.deep_view().no_duplicates(),
            forall|c: Seq<char>|
                #[trigger] out.deep_view().contains(c) <==> category_present(
                    xs.take(i as int),
                    c,
                ),
        decreases examples.len() - i,
    {
        let e = &examples[i];
        proof {
            assert(xs[i as int] == e.deep_view());
        }
        let ghost pre = out.deep_view();
        if !contains_name(&out, &e.category) {
            out.push(e.category.clone());
            proof {
                assert(out.deep_view() =~= pre.push(e.category@));
            }
        }
        proof {
            let now = out.deep_view();
            assert forall|c: Seq<char>| #[trigger] now.contains(c) implies category_present(
                xs.take(i + 1),
                c,
            ) by {
                let k = choose|k: int| 0 <= k < now.len() && now[k] == c;
                if k < pre.len() {
                    assert(pre.contains(c));
                    let w = choose|w: int|
                        0 <= w < xs.take(i as int).len() && (#[trigger] xs.take(
                            i as int,
                        )[w].category) == c;
                    assert(xs.take(i + 1)[w].category == c);
                } else {
                    assert(c == e.deep_view().category);
                    assert(xs.take(i + 1)[i as int].category == c);
                }
            }
            assert forall|c: Seq<char>| category_present(xs.take(i + 1), c) implies #[trigger] now
                .contains(c) by {
                let w = choose|w: int|
                    0 <= w < xs.take(i + 1).len() && (#[trigger] xs.take(i + 1)[w].category) == c;
                if w < i {
                    assert(xs.take(i as int)[w].category == c);
                    assert(category_present(xs.take(i as int), c));
                    assert(pre.contains(c));
                    let k = choose|k: int| 0 <= k < pre.len() && pre[k] == c;
                    assert(now[k] == c);
                } else {
                    assert(c == e.deep_view().category);
                    if pre.contains(c) {
                        let k = choose|k: int| 0 <= k < pre.len() && pre[k] == c;
                        assert(now[k] == c);
                    } else {
                        assert(now.last() == c);
                    }
                }
            }
        }
        i += 1;
    }
    proof {
        assert(xs.take(xs.len() as int) =~= xs);
    }
    out
}

/// The records of the category, copied in input order.
fn examples_in_category(examples: &Vec<Example>, cat: &String) -> (r: Vec<Example>)
    ensures
        r.deep_view() == group_of(examples.deep_view(), cat@),
{
    let ghost xs = examples.deep_view();
    let ghost pred = in_category(cat@);
    let mut out: Vec<Example> = Vec::new();
    let mut i: usize = 0;
    proof {
        reveal(Seq::filter);
        assert(xs.take(0) =~= Seq::<ExampleModel>::empty());
        assert(out.deep_view() =~= xs.take(0).filter(pred));
    }
    while i < examples.len()
        invariant
            i <= examples.len(),
            xs == examples.deep_view(),
            xs.len() == examples.len(),
            pred == in_category(cat@),
            out.deep_view() == xs.take(i as int).filter(pred),
        decreases examples.len() - i,
    {
        let e = &examples[i];
        proof {
            assert(xs[i as int] == e.deep_view());
            assert(xs.take(i + 1).drop_last() =~= xs.take(i as int));
            assert(xs.take(i + 1).last() == xs[i as int]);
        }
        let ghost pre = out.deep_view();
        if e.category == *cat {
            out.push(e.duplicate());
            proof {
                assert(out.deep_view() =~= pre.push(e.deep_view()));
            }
        }
        proof {
            reveal(Seq::filter);
            assert(out.deep_view() == xs.take(i + 1).filter(pred));
        }
        i += 1;
    }
    proof {
        assert(xs.take(xs.len() as int) =~= xs);
    }
    out
}

/// Groups the records by category and merges in the category descriptions,
/// producing the uniquely determined catalog.
pub fn aggregate(examples: &Vec<Example>, categories: &Vec<CategoryDescription>) -> (catalog:
    Catalog)
    ensures
        catalog_matches(catalog@, examples.deep_view(), categories.deep_view()),
{
    broadcast use vstd::seq_lib::group_to_multiset_ensures;

    let ghost xs = examples.deep_view();
    let ghost cats = categories.deep_view();
    let lookup = build_category_map(categories);
    let names0 = distinct_categories(examples);
    let names = sort_names(names0);
    proof {
        let n0 = names0.deep_view();
        let nm = names.deep_view();
        n0.lemma_multiset_has_no_duplicates();
        nm.lemma_multiset_has_no_duplicates_conv();
        assert forall|c: Seq<char>| #[trigger] nm.contains(c) <==> n0.contains(c) by {
            if nm.contains(c) {
                assert(nm.to_multiset().count(c) > 0);
                assert(n0.to_multiset().count(c) > 0);
            }
            if n0.contains(c) {
                assert(n0.to_multiset().count(c) > 0);
                assert(nm.to_multiset().count(c) > 0);
            }
        }
    }
    let mut entries: Vec<CatalogEntry> = Vec::new();
    let mut i: usize = 0;
    proof {
        assert(entries.deep_view() =~= Seq::<CatalogEntryModel>::empty());
    }
    while i < names.len()
        invariant
            i <= names.len(),
            xs == examples.deep_view(),
            cats == categories.deep_view(),
            names.deep_view().no_duplicates(),
            sorted_by(names.deep_view(), crate::sorting::name_leq()),
            forall|c: Seq<char>|
                #[trigger] names.deep_view().contains(c) <==> category_present(xs, c),
            category_map_contents(lookup) == category_map_of(cats),
            entries.deep_view().len() == i,
            forall|k: int|
                0 <= k < i ==> (#[trigger] entries.deep_view()[k].category)
                    == names.deep_view()[k],
            forall|k: int|
                0 <= k < i ==> (#[trigger] entries.deep_view()[k].description) == description_of(
                    cats,
                    names.deep_view()[k],
                ),
            forall|k: int|
                0 <= k < i ==> sorted_by(
                    (#[trigger] entries.deep_view()[k]).examples,
                    example_leq(),
                ),
            forall|k: int|
                0 <= k < i ==> ((#[trigger] entries.deep_view()[k]).examples).to_multiset()
                    == group_of(xs, names.deep_view()[k]).to_multiset(),
        decreases names.len() - i,
    {
        let c = &names[i];
        proof {
            assert(names.deep_view()[i as int] == c.deep_view());
        }
        let group = examples_in_category(examples, c);
        let group_sorted = sort_examples(group);
        let description = match lookup.get(c) {
            Some(d) => Some(d.clone()),
            None => None,
        };
        let entry = CatalogEntry { category: c.clone(), description, examples: group_sorted };
        let ghost pre = entries.deep_view();
        let ghost em = entry@;
        entries.push(entry);
        proof {
            assert(entries.deep_view() =~= pre.push(em));
        }
        i += 1;
    }
    let catalog = Catalog { entries };
    proof {
        let ev = catalog@;
        let nm = names.deep_view();
        assert(ev.len() == nm.len());
        assert forall|p: int, q: int| 0 <= p < q < ev.len() implies lex_lt(
            #[trigger] ev[p].category,
            #[trigger] ev[q].category,
        ) by {
            assert(crate::sorting::name_leq()(nm[p], nm[q]));
            assert(nm[p] != nm[q]);
        }
        assert forall|c: Seq<char>| category_present(xs, c) implies exists|i: int|
            0 <= i < ev.len() && (#[trigger] ev[i].category) == c by {
            assert(nm.contains(c));
            let k = choose|k: int| 0 <= k < nm.len() && nm[k] == c;
            assert(ev[k].category == c);
        }
        assert forall|i: int| 0 <= i < ev.len() implies category_present(
            xs,
            #[trigger] ev[i].category,
        ) by {
            assert(nm.contains(nm[i]));
        }
    }
    catalog
}

} // verus!
