//! Global laws of the aggregation: grouping is order-independent, and the
//! catalog is uniquely determined by the record set and the category table.

use vstd::prelude::*;
use vstd::multiset::Multiset;
use vstd::seq_lib::lemma_sorted_unique;

use crate::aggregate::{catalog_matches, category_present, group_of, in_category};
use crate::order::{lemma_lex_le_antisymmetric, lemma_lex_le_refl, lex_le, lex_lt};
use crate::sorting::{example_leq, lemma_example_le_total_ordering};
use crate::types::{CatalogEntryModel, CategoryDescriptionModel, ExampleModel};

verus! {

/// The records a filter keeps are the records the predicate admits,
/// counted with multiplicity.
pub proof fn lemma_filter_to_multiset<A>(s: Seq<A>, p: spec_fn(A) -> bool)
    ensures
        s.filter(p).to_multiset() == s.to_multiset().filter(p),
    decreases s.len(),
{
    broadcast use vstd::seq_lib::group_to_multiset_ensures;
    broadcast use vstd::multiset::group_multiset_axioms;

    reveal(Seq::filter);
    if s.len() == 0 {
        assert(s.filter(p) =~= s);
        assert(s.to_multiset() =~= Multiset::<A>::empty());
        assert(s.to_multiset().filter(p) =~= Multiset::<A>::empty());
    } else {
        let d = s.drop_last();
        let l = s.last();
        lemma_filter_to_multiset(d, p);
        assert(s =~= d.push(l));
        assert(d.push(l).to_multiset() =~= d.to_multiset().insert(l));
        if p(l) {
            assert(s.filter(p) == d.filter(p).push(l));
            assert(d.filter(p).push(l).to_multiset() =~= d.filter(p).to_multiset().insert(l));
            assert(d.to_multiset().insert(l).filter(p) =~= d.to_multiset().filter(p).insert(l));
        } else {
            assert(s.filter(p) == d.filter(p));
            assert(d.to_multiset().insert(l).filter(p) =~= d.to_multiset().filter(p));
        }
    }
}

/// Grouping is order-independent: two inputs holding the same records give
/// every category the same presence and the same group contents.
pub proof fn lemma_grouping_order_independent(
    xs1: Seq<ExampleModel>,
    xs2: Seq<ExampleModel>,
    c: Seq<char>,
)
    requires
        xs1.to_multiset() == xs2.to_multiset(),
    ensures
        category_present(xs1, c) == category_present(xs2, c),
        group_of(xs1, c).to_multiset() == group_of(xs2, c).to_multiset(),
{
    broadcast use vstd::seq_lib::group_to_multiset_ensures;
    broadcast use vstd::multiset::group_multiset_axioms;

    lemma_filter_to_multiset(xs1, in_category(c));
    lemma_filter_to_multiset(xs2, in_category(c));
    if category_present(xs1, c) {
        let k = choose|k: int| 0 <= k < xs1.len() && (#[trigger] xs1[k].category) == c;
        let e = xs1[k];
        assert(xs1.contains(e));
        assert(xs1.to_multiset().count(e) > 0);
        assert(xs2.to_multiset().count(e) > 0);
        assert(xs2.contains(e));
        let w = choose|w: int| 0 <= w < xs2.len() && xs2[w] == e;
        assert(xs2[w].category == c);
    }
    if category_present(xs2, c) {
        let k = choose|k: int| 0 <= k < xs2.len() && (#[trigger] xs2[k].category) == c;
        let e = xs2[k];
        assert(xs2.contains(e));
        assert(xs2.to_multiset().count(e) > 0);
        assert(xs1.to_multiset().count(e) > 0);
        assert(xs1.contains(e));
        let w = choose|w: int| 0 <= w < xs1.len() && xs1[w] == e;
        assert(xs1[w].category == c);
    }
}

/// Within a catalog entry, every record carries the entry's category, and
/// the records stand in ascending lexicographic order of display name.
pub proof fn lemma_entry_names_sorted(
    entries: Seq<CatalogEntryModel>,
    xs: Seq<ExampleModel>,
    cats: Seq<CategoryDescriptionModel>,
    i: int,
)
    requires
        catalog_matches(entries, xs, cats),
        0 <= i < entries.len(),
    ensures
        forall|p: int|
            0 <= p < entries[i].examples.len() ==> (#[trigger] entries[i].examples[p].category)
                == entries[i].category,
        forall|p: int, q: int|
            0 <= p < q < entries[i].examples.len() ==> lex_le(
                #[trigger] entries[i].examples[p].name,
                #[trigger] entries[i].examples[q].name,
            ),
{
    broadcast use vstd::seq_lib::group_to_multiset_ensures;
    broadcast use vstd::multiset::group_multiset_axioms;

    let ex = entries[i].examples;
    let c = entries[i].category;
    lemma_filter_to_multiset(xs, in_category(c));
    assert forall|p: int| 0 <= p < ex.len() implies (#[trigger] ex[p].category) == c by {
        assert(ex.contains(ex[p]));
        assert(ex.to_multiset().count(ex[p]) > 0);
        assert(in_category(c)(ex[p]));
    }
    assert forall|p: int, q: int| 0 <= p < q < ex.len() implies lex_le(
        #[trigger] ex[p].name,
        #[trigger] ex[q].name,
    ) by {
        assert(example_leq()(ex[p], ex[q]));
        if ex[p].name == ex[q].name {
            lemma_lex_le_refl(ex[p].name);
        }
    }
}

/// Two strictly ascending name sequences with the same members are equal.
proof fn lemma_sorted_distinct_names_unique(a: Seq<Seq<char>>, b: Seq<Seq<char>>)
    requires
        forall|i: int, j: int| 0 <= i < j < a.len() ==> lex_lt(#[trigger] a[i], #[trigger] a[j]),
        forall|i: int, j: int| 0 <= i < j < b.len() ==> lex_lt(#[trigger] b[i], #[trigger] b[j]),
        forall|c: Seq<char>| a.contains(c) <==> b.contains(c),
    ensures
        a =~= b,
    decreases a.len(),
{
    if a.len() == 0 {
        if b.len() > 0 {
            assert(b.contains(b[0]));
            assert(a.contains(b[0]));
        }
    } else if b.len() == 0 {
        assert(a.contains(a[0]));
        assert(b.contains(a[0]));
    } else {
        assert(a.contains(a[0]));
        assert(b.contains(a[0]));
        let j = choose|j: int| 0 <= j < b.len() && b[j] == a[0];
        if j > 0 {
            assert(lex_lt(b[0], b[j]));
        } else {
            lemma_lex_le_refl(b[0]);
        }
        assert(b.contains(b[0]));
        assert(a.contains(b[0]));
        let k = choose|k: int| 0 <= k < a.len() && a[k] == b[0];
        if k > 0 {
            assert(lex_lt(a[0], a[k]));
        } else {
            lemma_lex_le_refl(a[0]);
        }
        lemma_lex_le_antisymmetric(a[0], b[0]);
        let at = a.drop_first();
        let bt = b.drop_first();
        assert forall|c: Seq<char>| at.contains(c) implies bt.contains(c) by {
            let w = choose|w: int| 0 <= w < at.len() && at[w] == c;
            assert(a[w + 1] == c);
            assert(a.contains(c));
            assert(b.contains(c));
            let v = choose|v: int| 0 <= v < b.len() && b[v] == c;
            assert(lex_lt(a[0], a[w + 1]));
            assert(c != b[0]);
            assert(0 < v);
            assert(bt[v - 1] == c);
            assert(bt.contains(c));
        }
        assert forall|c: Seq<char>| bt.contains(c) implies at.contains(c) by {
            let w = choose|w: int| 0 <= w < bt.len() && bt[w] == c;
            assert(b[w + 1] == c);
            assert(b.contains(c));
            assert(a.contains(c));
            let v = choose|v: int| 0 <= v < a.len() && a[v] == c;
            assert(lex_lt(b[0], b[w + 1]));
            assert(c != a[0]);
            assert(0 < v);
            assert(at[v - 1] == c);
            assert(at.contains(c));
        }
        assert forall|i: int, j: int| 0 <= i < j < at.len() implies lex_lt(
            #[trigger] at[i],
            #[trigger] at[j],
        ) by {
            assert(at[i] == a[i + 1] && at[j] == a[j + 1]);
        }
        assert forall|i: int, j: int| 0 <= i < j < bt.len() implies lex_lt(
            #[trigger] bt[i],
            #[trigger] bt[j],
        ) by {
            assert(bt[i] == b[i + 1] && bt[j] == b[j + 1]);
        }
        lemma_sorted_distinct_names_unique(at, bt);
        assert(a.len() == b.len());
        assert forall|i: int| 0 <= i < a.len() implies a[i] == b[i] by {
            if i > 0 {
                assert(a[i] == at[i - 1] && b[i] == bt[i - 1]);
            }
        }
    }
}

/// Sorting and grouping are deterministic and total: any two catalogs that
/// match the same record set (up to input order) and the same category
/// table are equal.
pub proof fn lemma_catalog_deterministic(
    e1: Seq<CatalogEntryModel>,
    e2: Seq<CatalogEntryModel>,
    xs1: Seq<ExampleModel>,
    xs2: Seq<ExampleModel>,
    cats: Seq<CategoryDescriptionModel>,
)
    requires
        catalog_matches(e1, xs1, cats),
        catalog_matches(e2, xs2, cats),
        xs1.to_multiset() == xs2.to_multiset(),
    ensures
        e1 =~= e2,
{
    let c1 = Seq::new(e1.len(), |i: int| e1[i].category);
    let c2 = Seq::new(e2.len(), |i: int| e2[i].category);
    assert forall|c: Seq<char>| c1.contains(c) implies c2.contains(c) by {
        let k = choose|k: int| 0 <= k < c1.len() && c1[k] == c;
        assert(category_present(xs1, e1[k].category));
        lemma_grouping_order_independent(xs1, xs2, c);
        let w = choose|w: int| 0 <= w < e2.len() && (#[trigger] e2[w].category) == c;
        assert(c2[w] == c);
    }
    assert forall|c: Seq<char>| c2.contains(c) implies c1.contains(c) by {
        let k = choose|k: int| 0 <= k < c2.len() && c2[k] == c;
        assert(category_present(xs2, e2[k].category));
        lemma_grouping_order_independent(xs1, xs2, c);
        let w = choose|w: int| 0 <= w < e1.len() && (#[trigger] e1[w].category) == c;
        assert(c1[w] == c);
    }
    lemma_sorted_distinct_names_unique(c1, c2);
    lemma_example_le_total_ordering();
    assert forall|i: int| 0 <= i < e1.len() implies e1[i] == e2[i] by {
        assert(c1[i] == c2[i]);
        let c = e1[i].category;
        assert(e2[i].category == c);
        lemma_grouping_order_independent(xs1, xs2, c);
        lemma_sorted_unique(e1[i].examples, e2[i].examples, example_leq());
        assert(e1[i].examples == e2[i].examples);
        assert(e1[i].description == crate::aggregate::description_of(cats, c));
        assert(e2[i].description == crate::aggregate::description_of(cats, c));
    }
}

} // verus!
