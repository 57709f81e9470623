//! What holds of the library as a whole: of parsing, validation and filtering together.
use vstd::prelude::*;
use crate::ast::AstView;
use crate::compat::{diagnostics, kind_accepted, operator_accepts, DiagnosticView};
use crate::grammar::{parse_expr, skip_spaces};
use crate::matcher::{
    evaluable, evaluable_on, holds, keeps, lemma_selected_push, selected, selects,
    StructMatcher, StructProperties,
};
use crate::parser::query_result;
use crate::value::ValueView;

verus! {

/// A tree without problems names known fields only.
proof fn lemma_no_diagnostics_resolved<P: StructProperties>(q: AstView<P>)
    requires
        diagnostics(q).len() == 0,
    ensures
        q.fields_resolved(),
    decreases q,
{
    match q {
        AstView::And(l, r) => {
            lemma_no_diagnostics_resolved(*l);
            lemma_no_diagnostics_resolved(*r);
        },
        AstView::Or(l, r) => {
            lemma_no_diagnostics_resolved(*l);
            lemma_no_diagnostics_resolved(*r);
        },
        AstView::Not(e) => lemma_no_diagnostics_resolved(*e),
        _ => {},
    }
}

/// A tree that names known fields only can be evaluated on any record.
proof fn lemma_resolved_evaluable<P>(values: spec_fn(P) -> Option<ValueView>, q: AstView<P>)
    requires
        q.fields_resolved(),
    ensures
        evaluable(values, q),
    decreases q,
{
    match q {
        AstView::And(l, r) => {
            lemma_resolved_evaluable(values, *l);
            lemma_resolved_evaluable(values, *r);
        },
        AstView::Or(l, r) => {
            lemma_resolved_evaluable(values, *l);
            lemma_resolved_evaluable(values, *r);
        },
        AstView::Not(e) => lemma_resolved_evaluable(values, *e),
        _ => {},
    }
}

/// A query that parses without problems filters any records: it can be
/// evaluated on each of them, it keeps exactly the records that satisfy it, and
/// it keeps them in their order, so that filtering two runs of records one
/// after the other gives the two results one after the other.
pub proof fn law_accepted_query_filters_in_order<P: StructProperties, F: StructMatcher<P>>(
    s: Seq<char>,
    a: Seq<F>,
    b: Seq<F>,
)
    requires
        query_result::<P>(s) is Ok,
    ensures
        ({
            let q = query_result::<P>(s)->Ok_0;
            &&& forall|i: int| 0 <= i < a.len() ==> #[trigger] evaluable_on(q, a[i])
            &&& forall|x: F| #[trigger]
                selected(q, a).contains(x) <==> (a.contains(x) && selects(q, x))
            &&& selected(q, a + b) == selected(q, a) + selected(q, b)
        }),
{
    let q = query_result::<P>(s)->Ok_0;
    lemma_no_diagnostics_resolved(q);
    assert forall|i: int| 0 <= i < a.len() implies #[trigger] evaluable_on(q, a[i]) by {
        lemma_resolved_evaluable(|p: P| a[i].property_value(p), q);
    }
    assert forall|x: F| #[trigger] selected(q, a).contains(x) <==> (a.contains(x) && selects(q, x)) by {
        if selected(q, a).contains(x) {
            a.lemma_filter_contains_rev(keeps(q), x);
            let k = choose|k: int| 0 <= k < selected(q, a).len() && selected(q, a)[k] == x;
            a.lemma_filter_pred(keeps(q), k);
        }
        if a.contains(x) && selects(q, x) {
            let k = choose|k: int| 0 <= k < a.len() && a[k] == x;
            a.lemma_filter_contains(keeps(q), k);
        }
    }
    Seq::filter_distributes_over_add(a, b, keeps(q));
}

/// Filtering the result of a filter by the same query changes nothing: a
/// record that was kept once is kept again.
pub proof fn law_filtering_twice_keeps_the_same<P, F: StructMatcher<P>>(q: AstView<P>, items: Seq<F>)
    ensures
        selected(q, selected(q, items)) == selected(q, items),
    decreases items.len(),
{
    if items.len() == 0 {
        reveal(Seq::filter);
    } else {
        let init = items.drop_last();
        let x = items.last();
        assert(init.push(x) =~= items);
        law_filtering_twice_keeps_the_same(q, init);
        lemma_selected_push(q, init, x);
        if selects(q, x) {
            lemma_selected_push(q, selected(q, init), x);
        }
    }
}

/// The number of problems in `q`: its unknown field names and its comparisons
/// whose literal does not fit the operator and the field.
pub open spec fn problem_count<P: StructProperties>(q: AstView<P>) -> nat
    decreases q,
{
    match q {
        AstView::And(l, r) => problem_count(*l) + problem_count(*r),
        AstView::Or(l, r) => problem_count(*l) + problem_count(*r),
        AstView::Not(e) => problem_count(*e),
        AstView::InvalidField { .. } => 1,
        _ => match q.comparison() {
            Some((op, field, v)) => if kind_accepted(operator_accepts(op, field.spec_value_type()), v) {
                0
            } else {
                1
            },
            None => 0,
        },
    }
}

/// Validation reports every problem, not only the first: a text whose parsed
/// query has problems is refused with one diagnostic for each of them.
pub proof fn law_every_problem_reported<P: StructProperties>(s: Seq<char>, q: AstView<P>, end: int)
    requires
        parse_expr::<P>(s, skip_spaces(s, 0)) == Some((q, end)),
        problem_count(q) > 0,
    ensures
        query_result::<P>(s) == Err::<AstView<P>, Seq<DiagnosticView<P>>>(diagnostics(q)),
        diagnostics(q).len() == problem_count(q),
{
    lemma_problems_counted(q);
}

/// Each problem of `q` gives one diagnostic.
pub proof fn lemma_problems_counted<P: StructProperties>(q: AstView<P>)
    ensures
        diagnostics(q).len() == problem_count(q),
    decreases q,
{
    match q {
        AstView::And(l, r) => {
            lemma_problems_counted(*l);
            lemma_problems_counted(*r);
        },
        AstView::Or(l, r) => {
            lemma_problems_counted(*l);
            lemma_problems_counted(*r);
        },
        AstView::Not(e) => lemma_problems_counted(*e),
        _ => {},
    }
}

/// `And` stops at a false left operand: the conjunction is false and can be
/// evaluated whatever its right operand is, even one that names an unknown field.
pub proof fn law_and_short_circuit<P>(
    values: spec_fn(P) -> Option<ValueView>,
    left: AstView<P>,
    right: AstView<P>,
)
    requires
        evaluable(values, left),
        !holds(values, left),
    ensures
        evaluable(values, AstView::And(Box::new(left), Box::new(right))),
        !holds(values, AstView::And(Box::new(left), Box::new(right))),
{
}

/// `Or` stops at a true left operand: the disjunction is true and can be
/// evaluated whatever its right operand is.
pub proof fn law_or_short_circuit<P>(
    values: spec_fn(P) -> Option<ValueView>,
    left: AstView<P>,
    right: AstView<P>,
)
    requires
        evaluable(values, left),
        holds(values, left),
    ensures
        evaluable(values, AstView::Or(Box::new(left), Box::new(right))),
        holds(values, AstView::Or(Box::new(left), Box::new(right))),
{
}

} // verus!
