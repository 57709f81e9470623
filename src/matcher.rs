use vstd::prelude::*;
use crate::ast::{AstView, Operator, AST};
use crate::pattern::{compile, is_match, pattern_compiles, pattern_finds, Pattern};
use crate::text::{
    contains_str, ends_with_str, is_prefix, is_substring, is_suffix, starts_with_str,
};
use crate::value::{strings_view, Value, ValueView};

verus! {

/// The field identifiers of a record type: how names resolve to fields, and
/// which kind of value each field holds.
pub trait StructProperties: Sized + Copy {
    /// The field that a name denotes, if any.
    spec fn spec_from_name(name: Seq<char>) -> Option<Self>;

    /// A value whose variant is the declared type of the field.
    spec fn spec_value_type(self) -> ValueView;

    /// Resolves a field name.
    fn from_name(name: &str) -> (r: Option<Self>)
        ensures
            r == Self::spec_from_name(name@),
    ;

    /// All the names that resolve to a field.
    fn valid_fields() -> (r: Vec<&'static str>)
        ensures
            forall|k: int| 0 <= k < r@.len() ==> (#[trigger] Self::spec_from_name(r@[k]@)) is Some,
    ;

    /// A value whose variant is the declared type of this field.
    fn get_value_type(&self) -> (r: Value)
        ensures
            r@ == self.spec_value_type(),
    ;
}

/// The content of an optional value.
pub open spec fn option_view(v: Option<Value>) -> Option<ValueView> {
    match v {
        Some(x) => Some(x@),
        None => None,
    }
}

/// Some string of `hay` contains `needle`.
pub open spec fn some_contains(hay: Seq<Seq<char>>, needle: Seq<char>) -> bool {
    exists|k: int| 0 <= k < hay.len() && is_substring(needle, #[trigger] hay[k])
}

/// Some string of `hay` begins with `prefix`.
pub open spec fn some_starts_with(hay: Seq<Seq<char>>, prefix: Seq<char>) -> bool {
    exists|k: int| 0 <= k < hay.len() && is_prefix(prefix, #[trigger] hay[k])
}

/// Some string of `hay` ends with `suffix`.
pub open spec fn some_ends_with(hay: Seq<Seq<char>>, suffix: Seq<char>) -> bool {
    exists|k: int| 0 <= k < hay.len() && is_suffix(suffix, #[trigger] hay[k])
}

/// Some string of `needles` occurs in `hay`.
pub open spec fn contains_some(hay: Seq<char>, needles: Seq<Seq<char>>) -> bool {
    exists|k: int| 0 <= k < needles.len() && is_substring(#[trigger] needles[k], hay)
}

/// Some string of `hay` contains some string of `needles`.
pub open spec fn some_contains_some(hay: Seq<Seq<char>>, needles: Seq<Seq<char>>) -> bool {
    exists|k: int| 0 <= k < hay.len() && contains_some(#[trigger] hay[k], needles)
}

/// Some string of `hay` is matched by the expression compiled from `pattern`.
pub open spec fn some_found(pattern: Seq<char>, hay: Seq<Seq<char>>) -> bool {
    exists|k: int| 0 <= k < hay.len() && pattern_finds(pattern, #[trigger] hay[k])
}

/// Whether a field holding `current` satisfies the comparison `op` against `literal`.
///
/// Equality is equality of content, and an absent value is unequal to every
/// literal, so `NotEquals` holds of it. Ordering compares integers only.
/// `Contains`, `StartsWith`, `EndsWith` and `RegexMatch` test a text field, or
/// any element of a list of texts, against a text literal. `In` is a substring
/// test between texts in either shape: the field (or one of its elements)
/// contains the literal (or one of its elements). Every other combination is false.
pub open spec fn compares(op: Operator, current: Option<ValueView>, literal: ValueView) -> bool {
    match op {
        Operator::Equals => current == Some(literal),
        Operator::NotEquals => current != Some(literal),
        Operator::GreaterThan => match (current, literal) {
            (Some(ValueView::Int(a)), ValueView::Int(b)) => a > b,
            _ => false,
        },
        Operator::LessThan => match (current, literal) {
            (Some(ValueView::Int(a)), ValueView::Int(b)) => a < b,
            _ => false,
        },
        Operator::GreaterThanOrEqual => match (current, literal) {
            (Some(ValueView::Int(a)), ValueView::Int(b)) => a >= b,
            _ => false,
        },
        Operator::LessThanOrEqual => match (current, literal) {
            (Some(ValueView::Int(a)), ValueView::Int(b)) => a <= b,
            _ => false,
        },
        Operator::Contains => match (current, literal) {
            (Some(ValueView::String(s)), ValueView::String(sub)) => is_substring(sub, s),
            (Some(ValueView::VecString(v)), ValueView::String(sub)) => some_contains(v, sub),
            _ => false,
        },
        Operator::StartsWith => match (current, literal) {
            (Some(ValueView::String(s)), ValueView::String(p)) => is_prefix(p, s),
            (Some(ValueView::VecString(v)), ValueView::String(p)) => some_starts_with(v, p),
            _ => false,
        },
        Operator::EndsWith => match (current, literal) {
            (Some(ValueView::String(s)), ValueView::String(p)) => is_suffix(p, s),
            (Some(ValueView::VecString(v)), ValueView::String(p)) => some_ends_with(v, p),
            _ => false,
        },
        Operator::RegexMatch => match (current, literal) {
            (Some(ValueView::String(s)), ValueView::String(p)) => pattern_compiles(p)
                && pattern_finds(p, s),
            (Some(ValueView::VecString(v)), ValueView::String(p)) => pattern_compiles(p)
                && some_found(p, v),
            _ => false,
        },
        Operator::In => match (current, literal) {
            (Some(ValueView::String(s)), ValueView::String(sub)) => is_substring(sub, s),
            (Some(ValueView::VecString(v)), ValueView::String(sub)) => some_contains(v, sub),
            (Some(ValueView::String(s)), ValueView::VecString(subs)) => contains_some(s, subs),
            (Some(ValueView::VecString(v)), ValueView::VecString(subs)) => some_contains_some(
                v,
                subs,
            ),
            _ => false,
        },
    }
}

/// Whether a record whose fields hold `values` satisfies the query `q`.
pub open spec fn holds<P>(values: spec_fn(P) -> Option<ValueView>, q: AstView<P>) -> bool
    decreases q,
{
    match q {
        AstView::And(l, r) => holds(values, *l) && holds(values, *r),
        AstView::Or(l, r) => holds(values, *l) || holds(values, *r),
        AstView::Not(e) => !holds(values, *e),
        AstView::InvalidField { .. } => false,
        _ => match q.comparison() {
            Some((op, field, literal)) => compares(op, values(field), literal),
            None => false,
        },
    }
}

/// Evaluating `q` on a record whose fields hold `values`, left operand first
/// and skipping the right operand once the left one decides, never reaches an
/// unknown field.
pub open spec fn evaluable<P>(values: spec_fn(P) -> Option<ValueView>, q: AstView<P>) -> bool
    decreases q,
{
    match q {
        AstView::And(l, r) => evaluable(values, *l) && (holds(values, *l) ==> evaluable(
            values,
            *r,
        )),
        AstView::Or(l, r) => evaluable(values, *l) && (!holds(values, *l) ==> evaluable(
            values,
            *r,
        )),
        AstView::Not(e) => evaluable(values, *e),
        AstView::InvalidField { .. } => false,
        _ => true,
    }
}

/// Whether some string of `hay` contains `needle`.
fn any_contains(hay: &Vec<String>, needle: &str) -> (r: bool)
    ensures
        r == some_contains(strings_view(hay@), needle@),
{
    let mut k: usize = 0;
    while k < hay.len()
        invariant
            k <= hay.len(),
            forall|j: int| 0 <= j < k ==> !is_substring(needle@, #[trigger] hay@[j]@),
        decreases hay.len() - k,
    {
        if contains_str(hay[k].as_str(), needle) {
            assert(strings_view(hay@)[k as int] == hay@[k as int]@);
            return true;
        }
        k = k + 1;
    }
    assert forall|j: int| 0 <= j < strings_view(hay@).len() implies !is_substring(
        needle@,
        #[trigger] strings_view(hay@)[j],
    ) by {
        assert(strings_view(hay@)[j] == hay@[j]@);
    }
    false
}

/// Whether some string of `hay` begins with `prefix`.
fn any_starts_with(hay: &Vec<String>, prefix: &str) -> (r: bool)
    ensures
        r == some_starts_with(strings_view(hay@), prefix@),
{
    let mut k: usize = 0;
    while k < hay.len()
        invariant
            k <= hay.len(),
            forall|j: int| 0 <= j < k ==> !is_prefix(prefix@, #[trigger] hay@[j]@),
        decreases hay.len() - k,
    {
        if starts_with_str(hay[k].as_str(), prefix) {
            assert(strings_view(hay@)[k as int] == hay@[k as int]@);
            return true;
        }
        k = k + 1;
    }
    assert forall|j: int| 0 <= j < strings_view(hay@).len() implies !is_prefix(
        prefix@,
        #[trigger] strings_view(hay@)[j],
    ) by {
        assert(strings_view(hay@)[j] == hay@[j]@);
    }
    false
}

/// Whether some string of `hay` ends with `suffix`.
fn any_ends_with(hay: &Vec<String>, suffix: &str) -> (r: bool)
    ensures
        r == some_ends_with(strings_view(hay@), suffix@),
{
    let mut k: usize = 0;
    while k < hay.len()
        invariant
            k <= hay.len(),
            forall|j: int| 0 <= j < k ==> !is_suffix(suffix@, #[trigger] hay@[j]@),
        decreases hay.len() - k,
    {
        if ends_with_str(hay[k].as_str(), suffix) {
            assert(strings_view(hay@)[k as int] == hay@[k as int]@);
            return true;
        }
        k = k + 1;
    }
    assert forall|j: int| 0 <= j < strings_view(hay@).len() implies !is_suffix(
        suffix@,
        #[trigger] strings_view(hay@)[j],
    ) by {
        assert(strings_view(hay@)[j] == hay@[j]@);
    }
    false
}

/// Whether some string of `needles` occurs in `hay`.
fn contains_any(hay: &str, needles: &Vec<String>) -> (r: bool)
    ensures
        r == contains_some(hay@, strings_view(needles@)),
{
    let mut k: usize = 0;
    while k < needles.len()
        invariant
            k <= needles.len(),
            forall|j: int| 0 <= j < k ==> !is_substring(#[trigger] needles@[j]@, hay@),
        decreases needles.len() - k,
    {
        if contains_str(hay, needles[k].as_str()) {
            assert(strings_view(needles@)[k as int] == needles@[k as int]@);
            return true;
        }
        k = k + 1;
    }
    assert forall|j: int| 0 <= j < strings_view(needles@).len() implies !is_substring(
        #[trigger] strings_view(needles@)[j],
        hay@,
    ) by {
        assert(strings_view(needles@)[j] == needles@[j]@);
    }
    false
}

/// Whether some string of `hay` contains some string of `needles`.
fn any_contains_any(hay: &Vec<String>, needles: &Vec<String>) -> (r: bool)
    ensures
        r == some_contains_some(strings_view(hay@), strings_view(needles@)),
{
    let mut k: usize = 0;
    while k < hay.len()
        invariant
            k <= hay.len(),
            forall|j: int| 0 <= j < k ==> !contains_some(#[trigger] hay@[j]@, strings_view(needles@)),
        decreases hay.len() - k,
    {
        if contains_any(hay[k].as_str(), needles) {
            assert(strings_view(hay@)[k as int] == hay@[k as int]@);
            return true;
        }
        k = k + 1;
    }
    assert forall|j: int| 0 <= j < strings_view(hay@).len() implies !contains_some(
        #[trigger] strings_view(hay@)[j],
        strings_view(needles@),
    ) by {
        assert(strings_view(hay@)[j] == hay@[j]@);
    }
    false
}

/// Whether the compiled expression matches some string of `hay`.
fn any_found(p: &Pattern, hay: &Vec<String>) -> (r: bool)
    ensures
        r == some_found(p.source(), strings_view(hay@)),
{
    let mut k: usize = 0;
    while k < hay.len()
        invariant
            k <= hay.len(),
            forall|j: int| 0 <= j < k ==> !pattern_finds(p.source(), #[trigger] hay@[j]@),
        decreases hay.len() - k,
    {
        if is_match(p, hay[k].as_str()) {
            assert(strings_view(hay@)[k as int] == hay@[k as int]@);
            return true;
        }
        k = k + 1;
    }
    assert forall|j: int| 0 <= j < strings_view(hay@).len() implies !pattern_finds(
        p.source(),
        #[trigger] strings_view(hay@)[j],
    ) by {
        assert(strings_view(hay@)[j] == hay@[j]@);
    }
    false
}

/// Whether a field holding `current` satisfies the comparison `op` against `literal`.
pub fn compare(op: Operator, current: &Option<Value>, literal: &Value) -> (r: bool)
    ensures
        r == compares(op, option_view(*current), literal@),
{
    match op {
        Operator::Equals => match current {
            Some(v) => v.equals(literal),
            None => false,
        },
        Operator::NotEquals => match current {
            Some(v) => !v.equals(literal),
            None => true,
        },
        Operator::GreaterThan => match (current, literal) {
            (Some(Value::Int(a)), Value::Int(b)) => *a > *b,
            _ => false,
        },
        Operator::LessThan => match (current, literal) {
            (Some(Value::Int(a)), Value::Int(b)) => *a < *b,
            _ => false,
        },
        Operator::GreaterThanOrEqual => match (current, literal) {
            (Some(Value::Int(a)), Value::Int(b)) => *a >= *b,
            _ => false,
        },
        Operator::LessThanOrEqual => match (current, literal) {
            (Some(Value::Int(a)), Value::Int(b)) => *a <= *b,
            _ => false,
        },
        Operator::Contains => match (current, literal) {
            (Some(Value::String(s)), Value::String(sub)) => contains_str(s.as_str(), sub.as_str()),
            (Some(Value::VecString(v)), Value::String(sub)) => any_contains(v, sub.as_str()),
            _ => false,
        },
        Operator::StartsWith => match (current, literal) {
            (Some(Value::String(s)), Value::String(p)) => starts_with_str(s.as_str(), p.as_str()),
            (Some(Value::VecString(v)), Value::String(p)) => any_starts_with(v, p.as_str()),
            _ => false,
        },
        Operator::EndsWith => match (current, literal) {
            (Some(Value::String(s)), Value::String(p)) => ends_with_str(s.as_str(), p.as_str()),
            (Some(Value::VecString(v)), Value::String(p)) => any_ends_with(v, p.as_str()),
            _ => false,
        },
        Operator::RegexMatch => match (current, literal) {
            (Some(Value::String(s)), Value::String(p)) => match compile(p.as_str()) {
                Some(re) => is_match(&re, s.as_str()),
                None => false,
            },
            (Some(Value::VecString(v)), Value::String(p)) => match compile(p.as_str()) {
                Some(re) => any_found(&re, v),
                None => false,
            },
            _ => false,
        },
        Operator::In => match (current, literal) {
            (Some(Value::String(s)), Value::String(sub)) => contains_str(s.as_str(), sub.as_str()),
            (Some(Value::VecString(v)), Value::String(sub)) => any_contains(v, sub.as_str()),
            (Some(Value::String(s)), Value::VecString(subs)) => contains_any(s.as_str(), subs),
            (Some(Value::VecString(v)), Value::VecString(subs)) => any_contains_any(v, subs),
            _ => false,
        },
    }
}

/// A record type that queries can filter: it yields the current value of each field.
pub trait StructMatcher<P>: Sized {
    /// The current value of a field of this record, if it has one.
    spec fn property_value(&self, property: P) -> Option<ValueView>;

    /// The current value of a field of this record, if it has one.
    fn get_property_value(&self, property: &P) -> (r: Option<Value>)
        ensures
            option_view(r) == self.property_value(*property),
    ;

}

/// Evaluation of a query on a record, for every record type that yields its field values.
pub trait MatchesAst<P>: StructMatcher<P> {
    /// Whether this record satisfies `ast`. `And` and `Or` evaluate their left
    /// operand first and the right one only when the left one does not decide.
    fn matches_ast(&self, ast: &AST<P>) -> (r: bool)
        requires
            evaluable(|p: P| self.property_value(p), ast@),
        ensures
            r == holds(|p: P| self.property_value(p), ast@),
    ;
}

impl<P, T: StructMatcher<P>> MatchesAst<P> for T {
    fn matches_ast(&self, ast: &AST<P>) -> (r: bool) {
        evaluate(self, ast)
    }
}

/// Whether `record` satisfies `ast`. `And` and `Or` evaluate their left operand
/// first and the right one only when the left one does not decide.
pub fn evaluate<P, R: StructMatcher<P>>(record: &R, ast: &AST<P>) -> (r: bool)
    requires
        evaluable(|p: P| record.property_value(p), ast@),
    ensures
        r == holds(|p: P| record.property_value(p), ast@),
    decreases ast,
{
    match ast {
        AST::And(l, r) => {
            proof {
                assert(ast@ == AstView::And(Box::new((**l)@), Box::new((**r)@)));
            }
            evaluate(record, l) && evaluate(record, r)
        },
        AST::Or(l, r) => {
            proof {
                assert(ast@ == AstView::Or(Box::new((**l)@), Box::new((**r)@)));
            }
            evaluate(record, l) || evaluate(record, r)
        },
        AST::Not(e) => {
            proof {
                assert(ast@ == AstView::Not(Box::new((**e)@)));
            }
            !evaluate(record, e)
        },
        AST::InvalidField { .. } => false,
        _ => match ast.as_comparison() {
            Some((op, field, literal)) => {
                let current = record.get_property_value(field);
                compare(op, &current, literal)
            },
            None => false,
        },
    }
}

/// Whether the query `q` keeps `record`.
pub open spec fn selects<P, F: StructMatcher<P>>(q: AstView<P>, record: F) -> bool {
    holds(|p: P| record.property_value(p), q)
}

/// The test by which `q` keeps a record.
pub open spec fn keeps<P, F: StructMatcher<P>>(q: AstView<P>) -> spec_fn(F) -> bool {
    |x: F| selects(q, x)
}

/// The records of `items` that `q` keeps, in their order.
pub open spec fn selected<P, F: StructMatcher<P>>(q: AstView<P>, items: Seq<F>) -> Seq<F> {
    items.filter(keeps(q))
}

/// Evaluating `q` on `record` never reaches an unknown field.
pub open spec fn evaluable_on<P, F: StructMatcher<P>>(q: AstView<P>, record: F) -> bool {
    evaluable(|p: P| record.property_value(p), q)
}

/// Keeping the records that satisfy `q` out of `s` and then `x` is keeping them
/// out of `s`, and then `x` if it satisfies `q`.
pub proof fn lemma_selected_push<P, F: StructMatcher<P>>(q: AstView<P>, s: Seq<F>, x: F)
    ensures
        selected(q, s.push(x)) == if selects(q, x) {
            selected(q, s).push(x)
        } else {
            selected(q, s)
        },
{
    reveal(Seq::filter);
    assert(s.push(x).drop_last() =~= s);
}

impl<P> AST<P> {
    /// The records of `items` that satisfy this query, copied, in their order.
    pub fn apply<F: StructMatcher<P> + Clone>(&self, items: &[F]) -> (r: Vec<F>)
        requires
            forall|i: int| 0 <= i < items@.len() ==> #[trigger] evaluable_on(self@, items@[i]),
        ensures
            r@.len() == selected(self@, items@).len(),
            forall|k: int| 0 <= k < r@.len() ==> cloned(selected(self@, items@)[k], #[trigger] r@[k]),
    {
        let mut r: Vec<F> = Vec::new();
        let mut i: usize = 0;
        while i < items.len()
            invariant
                i <= items@.len(),
                forall|j: int| 0 <= j < items@.len() ==> #[trigger] evaluable_on(self@, items@[j]),
                r@.len() == selected(self@, items@.subrange(0, i as int)).len(),
                forall|k: int|
                    0 <= k < r@.len() ==> cloned(
                        selected(self@, items@.subrange(0, i as int))[k],
                        #[trigger] r@[k],
                    ),
            decreases items@.len() - i,
        {
            let ghost before = items@.subrange(0, i as int);
            proof {
                assert(items@.subrange(0, i + 1) =~= before.push(items@[i as int]));
                lemma_selected_push(self@, before, items@[i as int]);
                assert(evaluable_on(self@, items@[i as int]));
            }
            if evaluate(&items[i], self) {
                r.push(items[i].clone());
            }
            i = i + 1;
        }
        assert(items@.subrange(0, items@.len() as int) =~= items@);
        r
    }
}

} // verus!
