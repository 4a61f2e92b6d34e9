//! The total order on example records, and verified insertion sorts.
//!
//! Examples are ordered by `(category, name)` first, with the remaining
//! fields breaking ties, so the order is total and the sorted sequence is a
//! pure function of the record set.

use vstd::prelude::*;
use vstd::relations::{sorted_by, total_ordering};

use crate::order::{lex_le, lemma_lex_le_antisymmetric, lemma_lex_le_refl, lemma_lex_le_total,
    lemma_lex_le_transitive, str_lex_le};
use crate::types::{Example, ExampleModel};

verus! {

pub open spec fn bool_le(x: bool, y: bool) -> bool {
    !x || y
}

/// Total order on example records: by category, then display name, then the
/// remaining fields.
pub open spec fn example_le(x: ExampleModel, y: ExampleModel) -> bool {
    if x.category != y.category {
        lex_le(x.category, y.category)
    } else if x.name != y.name {
        lex_le(x.name, y.name)
    } else if x.technical_name != y.technical_name {
        lex_le(x.technical_name, y.technical_name)
    } else if x.path != y.path {
        lex_le(x.path, y.path)
    } else if x.description != y.description {
        lex_le(x.description, y.description)
    } else {
        bool_le(x.wasm, y.wasm)
    }
}

/// `example_le` as a first-class relation.
pub open spec fn example_leq() -> spec_fn(ExampleModel, ExampleModel) -> bool {
    |x: ExampleModel, y: ExampleModel| example_le(x, y)
}

pub proof fn lemma_example_le_antisymmetric(x: ExampleModel, y: ExampleModel)
    requires
        example_le(x, y),
        example_le(y, x),
    ensures
        x == y,
{
    if x.category != y.category {
        lemma_lex_le_antisymmetric(x.category, y.category);
    } else if x.name != y.name {
        lemma_lex_le_antisymmetric(x.name, y.name);
    } else if x.technical_name != y.technical_name {
        lemma_lex_le_antisymmetric(x.technical_name, y.technical_name);
    } else if x.path != y.path {
        lemma_lex_le_antisymmetric(x.path, y.path);
    } else if x.description != y.description {
        lemma_lex_le_antisymmetric(x.description, y.description);
    }
}

pub proof fn lemma_example_le_total(x: ExampleModel, y: ExampleModel)
    ensures
        example_le(x, y) || example_le(y, x),
{
    if x.category != y.category {
        lemma_lex_le_total(x.category, y.category);
    } else if x.name != y.name {
        lemma_lex_le_total(x.name, y.name);
    } else if x.technical_name != y.technical_name {
        lemma_lex_le_total(x.technical_name, y.technical_name);
    } else if x.path != y.path {
        lemma_lex_le_total(x.path, y.path);
    } else if x.description != y.description {
        lemma_lex_le_total(x.description, y.description);
    }
}

pub proof fn lemma_example_le_transitive(x: ExampleModel, y: ExampleModel, z: ExampleModel)
    requires
        example_le(x, y),
        example_le(y, z),
    ensures
        example_le(x, z),
{
    lemma_lex_step(x.category, y.category, z.category);
    if x.category == z.category {
        lemma_lex_step(x.name, y.name, z.name);
        if x.name == z.name {
            lemma_lex_step(x.technical_name, y.technical_name, z.technical_name);
            if x.technical_name == z.technical_name {
                lemma_lex_step(x.path, y.path, z.path);
                if x.path == z.path {
                    lemma_lex_step(x.description, y.description, z.description);
                }
            }
        }
    }
}

/// One tie-breaking step of the chained comparison: from "less or equal at
/// this field" on both pairs, the outer pair compares, and a tie means both
/// pairs tied.
proof fn lemma_lex_step(a: Seq<char>, b: Seq<char>, c: Seq<char>)
    requires
        a != b ==> lex_le(a, b),
        b != c ==> lex_le(b, c),
    ensures
        a != c ==> lex_le(a, c),
        a == c ==> (a == b && b == c),
{
    lemma_lex_le_refl(a);
    lemma_lex_le_refl(b);
    lemma_lex_le_transitive(a, b, c);
    if a == c {
        lemma_lex_le_antisymmetric(a, b);
    }
}

/// `example_le` is a total order, in the sense of `vstd::relations`.
pub proof fn lemma_example_le_total_ordering()
    ensures
        total_ordering(example_leq()),
{
    let leq = example_leq();
    assert forall|x: ExampleModel| #[trigger] leq(x, x) by {
        lemma_lex_le_refl(x.category);
        lemma_lex_le_refl(x.name);
    }
    assert forall|x: ExampleModel, y: ExampleModel| #[trigger] leq(x, y) && #[trigger] leq(y, x)
        implies x == y by {
        lemma_example_le_antisymmetric(x, y);
    }
    assert forall|x: ExampleModel, y: ExampleModel, z: ExampleModel|
        #[trigger] leq(x, y) && #[trigger] leq(y, z) implies leq(x, z) by {
        lemma_example_le_transitive(x, y, z);
    }
    assert forall|x: ExampleModel, y: ExampleModel| #[trigger] leq(x, y) || #[trigger] leq(y, x) by {
        lemma_example_le_total(x, y);
    }
}

/// Executable comparison, proved equal to `example_le`.
pub fn example_le_exec(x: &Example, y: &Example) -> (r: bool)
    ensures
        r == example_le(x@, y@),
{
    if x.category != y.category {
        str_lex_le(x.category.as_str(), y.category.as_str())
    } else if x.name != y.name {
        str_lex_le(x.name.as_str(), y.name.as_str())
    } else if x.technical_name != y.technical_name {
        str_lex_le(x.technical_name.as_str(), y.technical_name.as_str())
    } else if x.path != y.path {
        str_lex_le(x.path.as_str(), y.path.as_str())
    } else if x.description != y.description {
        str_lex_le(x.description.as_str(), y.description.as_str())
    } else {
        !x.wasm || y.wasm
    }
}

/// Insertion sort: the result is ordered by `example_le` and holds exactly
/// the records of the input.
pub fn sort_examples(v: Vec<Example>) -> (r: Vec<Example>)
    ensures
        sorted_by(r.deep_view(), example_leq()),
        r.deep_view().to_multiset() == v.deep_view().to_multiset(),
{
    broadcast use vstd::seq_lib::group_to_multiset_ensures;
    broadcast use vstd::seq_lib::to_multiset_insert;
    broadcast use vstd::multiset::group_multiset_axioms;

    let ghost vm = v.deep_view();
    let mut src = v;
    let mut out: Vec<Example> = Vec::new();
    proof {
        assert(out.deep_view() =~= Seq::<ExampleModel>::empty());
        assert(out.deep_view().to_multiset().add(src.deep_view().to_multiset()) =~= vm.to_multiset());
    }
    while src.len() > 0
        invariant
            sorted_by(out.deep_view(), example_leq()),
            out.deep_view().to_multiset().add(src.deep_view().to_multiset()) == vm.to_multiset(),
        decreases src.len(),
    {
        let ghost src_pre = src.deep_view();
        let x = match src.pop() {
            Some(x) => x,
            None => {
                proof {
                    assert(false);
                }
                unreached()
            },
        };
        proof {
            assert(x.deep_view() == src_pre.last());
            assert(src.deep_view() =~= src_pre.drop_last());
            assert(src_pre =~= src_pre.drop_last().push(src_pre.last()));
            src_pre.drop_last().to_multiset_ensures();
            assert(src_pre.drop_last().push(x.deep_view()).to_multiset() =~= src_pre.drop_last()
                .to_multiset()
                .insert(x.deep_view()));
            assert(src_pre.to_multiset() =~= src_pre.drop_last().to_multiset().insert(
                x.deep_view(),
            ));
        }
        let ghost out_pre = out.deep_view();
        let mut j: usize = 0;
        while j < out.len()
            invariant
                j <= out.len(),
                out.deep_view() == out_pre,
                forall|k: int| 0 <= k < j ==> example_le(#[trigger] out_pre[k], x.deep_view()),
            ensures
                j <= out.len(),
                out.deep_view() == out_pre,
                forall|k: int| 0 <= k < j ==> example_le(#[trigger] out_pre[k], x.deep_view()),
                j < out.len() ==> !example_le(out_pre[j as int], x.deep_view()),
            decreases out.len() - j,
        {
            proof {
                assert(out_pre[j as int] == out[j as int].deep_view());
            }
            if !example_le_exec(&out[j], &x) {
                break;
            }
            j += 1;
        }
        proof {
            if j < out_pre.len() {
                lemma_example_le_total(out_pre[j as int], x.deep_view());
            }
        }
        let ghost xm = x.deep_view();
        out.insert(j, x);
        proof {
            assert(out.deep_view() =~= out_pre.insert(j as int, xm));
            let now = out.deep_view();
            vstd::seq_lib::to_multiset_insert(out_pre, j as int, xm);
            assert(out_pre.insert(j as int, xm).to_multiset() == out_pre.to_multiset().insert(xm));
            assert(now.to_multiset() == out_pre.to_multiset().insert(xm));
            assert forall|p: int, q: int| 0 <= p < q < now.len() implies #[trigger] example_leq()(
                now[p],
                now[q],
            ) by {
                let leq = example_leq();
                if q < j {
                    assert(now[p] == out_pre[p] && now[q] == out_pre[q]);
                } else if p < j && q == j {
                    assert(now[p] == out_pre[p] && now[q] == xm);
                    assert(example_le(out_pre[p], xm));
                } else if p < j && q > j {
                    assert(now[p] == out_pre[p] && now[q] == out_pre[q - 1]);
                } else if p == j {
                    assert(now[p] == xm && now[q] == out_pre[q - 1]);
                    if j < out_pre.len() {
                        assert(example_le(xm, out_pre[j as int]));
                        if q - 1 > j {
                            assert(example_leq()(out_pre[j as int], out_pre[q - 1]));
                            lemma_example_le_transitive(xm, out_pre[j as int], out_pre[q - 1]);
                        }
                    }
                } else {
                    assert(now[p] == out_pre[p - 1] && now[q] == out_pre[q - 1]);
                }
            }
            assert(out.deep_view().to_multiset().add(src.deep_view().to_multiset())
                =~= out_pre.to_multiset().add(src_pre.to_multiset()));
        }
    }
    proof {
        assert(src.deep_view() =~= Seq::<ExampleModel>::empty());
        assert(out.deep_view().to_multiset().add(src.deep_view().to_multiset())
            =~= out.deep_view().to_multiset());
    }
    out
}

/// `lex_le` as a first-class relation.
pub open spec fn name_leq() -> spec_fn(Seq<char>, Seq<char>) -> bool {
    |a: Seq<char>, b: Seq<char>| lex_le(a, b)
}

/// Insertion sort on category names: ordered by `lex_le`, holding exactly
/// the names of the input.
pub fn sort_names(v: Vec<String>) -> (r: Vec<String>)
    ensures
        sorted_by(r.deep_view(), name_leq()),
        r.deep_view().to_multiset() == v.deep_view().to_multiset(),
{
    broadcast use vstd::seq_lib::group_to_multiset_ensures;
    broadcast use vstd::seq_lib::to_multiset_insert;
    broadcast use vstd::multiset::group_multiset_axioms;

    let ghost vm = v.deep_view();
    let ghost leq = name_leq();
    let mut src = v;
    let mut out: Vec<String> = Vec::new();
    proof {
        assert(out.deep_view() =~= Seq::<Seq<char>>::empty());
        assert(out.deep_view().to_multiset().add(src.deep_view().to_multiset()) =~= vm.to_multiset());
    }
    while src.len() > 0
        invariant
            sorted_by(out.deep_view(), leq),
            leq == name_leq(),
            out.deep_view().to_multiset().add(src.deep_view().to_multiset()) == vm.to_multiset(),
        decreases src.len(),
    {
        let ghost src_pre = src.deep_view();
        let x = match src.pop() {
            Some(x) => x,
            None => {
                proof {
                    assert(false);
                }
                unreached()
            },
        };
        proof {
            assert(x.deep_view() == src_pre.last());
            assert(src.deep_view() =~= src_pre.drop_last());
            assert(src_pre =~= src_pre.drop_last().push(src_pre.last()));
            src_pre.drop_last().to_multiset_ensures();
            assert(src_pre.drop_last().push(x.deep_view()).to_multiset() =~= src_pre.drop_last()
                .to_multiset()
                .insert(x.deep_view()));
            assert(src_pre.to_multiset() =~= src_pre.drop_last().to_multiset().insert(
                x.deep_view(),
            ));
        }
        let ghost out_pre = out.deep_view();
        let mut j: usize = 0;
        while j < out.len()
            invariant
                j <= out.len(),
                out.deep_view() == out_pre,
                forall|k: int| 0 <= k < j ==> lex_le(#[trigger] out_pre[k], x.deep_view()),
            ensures
                j <= out.len(),
                out.deep_view() == out_pre,
                forall|k: int| 0 <= k < j ==> lex_le(#[trigger] out_pre[k], x.deep_view()),
                j < out.len() ==> !lex_le(out_pre[j as int], x.deep_view()),
            decreases out.len() - j,
        {
            proof {
                assert(out_pre[j as int] == out[j as int].deep_view());
            }
            if !str_lex_le(out[j].as_str(), x.as_str()) {
                break;
            }
            j += 1;
        }
        proof {
            if j < out_pre.len() {
                lemma_lex_le_total(out_pre[j as int], x.deep_view());
            }
        }
        let ghost xm = x.deep_view();
        out.insert(j, x);
        proof {
            assert(out.deep_view() =~= out_pre.insert(j as int, xm));
            let now = out.deep_view();
            vstd::seq_lib::to_multiset_insert(out_pre, j as int, xm);
            assert(out_pre.insert(j as int, xm).to_multiset() == out_pre.to_multiset().insert(xm));
            assert(now.to_multiset() == out_pre.to_multiset().insert(xm));
            assert forall|p: int, q: int| 0 <= p < q < now.len() implies #[trigger] leq(
                now[p],
                now[q],
            ) by {
                if q < j {
                    assert(now[p] == out_pre[p] && now[q] == out_pre[q]);
                } else if p < j && q == j {
                    assert(now[p] == out_pre[p] && now[q] == xm);
                } else if p < j && q > j {
                    assert(now[p] == out_pre[p] && now[q] == out_pre[q - 1]);
                } else if p == j {
                    assert(now[p] == xm && now[q] == out_pre[q - 1]);
                    if j < out_pre.len() {
                        assert(lex_le(xm, out_pre[j as int]));
                        if q - 1 > j {
                            assert(name_leq()(out_pre[j as int], out_pre[q - 1]));
                            lemma_lex_le_transitive(xm, out_pre[j as int], out_pre[q - 1]);
                        }
                    }
                } else {
                    assert(now[p] == out_pre[p - 1] && now[q] == out_pre[q - 1]);
                }
            }
            assert(out.deep_view().to_multiset().add(src.deep_view().to_multiset())
                =~= out_pre.to_multiset().add(src_pre.to_multiset()));
        }
    }
    proof {
        assert(src.deep_view() =~= Seq::<Seq<char>>::empty());
        assert(out.deep_view().to_multiset().add(src.deep_view().to_multiset())
            =~= out.deep_view().to_multiset());
    }
    out
}

} // verus!
