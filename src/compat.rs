use vstd::prelude::*;
use crate::ast::{AstView, Operator, AST};
use crate::matcher::StructProperties;
use crate::value::{strings_view, Value, ValueView};

verus! {

/// What is wrong with a query, in content.
pub enum DiagnosticView<P> {
    /// The text is not a query.
    SyntaxError,
    /// A comparison names no field of the record type.
    UnknownField { name: Seq<char> },
    /// A comparison's literal is of a kind that its operator and field do not accept.
    TypeMismatch { node: AstView<P>, field: P, provided: ValueView, acceptable: Seq<ValueView> },
}

/// The contents of a list of values.
pub open spec fn values_view(v: Seq<Value>) -> Seq<ValueView> {
    v.map_values(|x: Value| x@)
}

/// Values whose kinds a literal may take when `op` compares it with a field whose
/// declared type is that of `sample`. Equality accepts the field's own kind;
/// ordering an integer against an integer field; the text tests a text against a
/// text field; `In` a text or a list of texts against a text field or a list of
/// texts, an integer or a list of integers against an integer field or a list of
/// integers.
pub open spec fn operator_accepts(op: Operator, sample: ValueView) -> Seq<ValueView> {
    match op {
        Operator::Equals | Operator::NotEquals => seq![sample],
        Operator::GreaterThan => match sample {
            ValueView::Int(n) => seq![ValueView::Int(n.wrapping_sub(1))],
            _ => seq![],
        },
        Operator::LessThan => match sample {
            ValueView::Int(n) => seq![ValueView::Int(n.wrapping_add(1))],
            _ => seq![],
        },
        Operator::GreaterThanOrEqual => match sample {
            ValueView::Int(n) => seq![sample, ValueView::Int(n.wrapping_sub(1))],
            _ => seq![],
        },
        Operator::LessThanOrEqual => match sample {
            ValueView::Int(n) => seq![sample, ValueView::Int(n.wrapping_add(1))],
            _ => seq![],
        },
        Operator::Contains | Operator::StartsWith | Operator::EndsWith | Operator::RegexMatch => {
            match sample {
                ValueView::String(s) => seq![ValueView::String(s)],
                _ => seq![],
            }
        },
        Operator::In => match sample {
            ValueView::String(_) | ValueView::VecString(_) => seq![
                ValueView::String(Seq::empty()),
                ValueView::VecString(Seq::empty()),
            ],
            ValueView::Int(_) | ValueView::VecInt(_) => seq![
                ValueView::Int(0),
                ValueView::VecInt(Seq::empty()),
            ],
        },
    }
}

/// The tree holds only comparisons, joined by `And` and `Or`.
pub open spec fn comparisons_only<P>(q: AstView<P>) -> bool
    decreases q,
{
    match q {
        AstView::And(l, r) => comparisons_only(*l) && comparisons_only(*r),
        AstView::Or(l, r) => comparisons_only(*l) && comparisons_only(*r),
        _ => q.comparison() is Some,
    }
}

/// The acceptable values of every comparison of `q`, from left to right, each
/// computed against `sample`.
pub open spec fn acceptable_values<P>(q: AstView<P>, sample: ValueView) -> Seq<ValueView>
    decreases q,
{
    match q {
        AstView::And(l, r) => acceptable_values(*l, sample) + acceptable_values(*r, sample),
        AstView::Or(l, r) => acceptable_values(*l, sample) + acceptable_values(*r, sample),
        _ => match q.comparison() {
            Some((op, _, _)) => operator_accepts(op, sample),
            None => seq![],
        },
    }
}

/// Some value of `acceptable` is of the kind of `v`.
pub open spec fn kind_accepted(acceptable: Seq<ValueView>, v: ValueView) -> bool {
    exists|k: int| 0 <= k < acceptable.len() && (#[trigger] acceptable[k]).same_kind(v)
}

/// Every problem of `q`, from left to right: each unknown field name, and each
/// comparison whose literal is of a kind that its operator and field do not accept.
pub open spec fn diagnostics<P: StructProperties>(q: AstView<P>) -> Seq<DiagnosticView<P>>
    decreases q,
{
    match q {
        AstView::And(l, r) => diagnostics(*l) + diagnostics(*r),
        AstView::Or(l, r) => diagnostics(*l) + diagnostics(*r),
        AstView::Not(e) => diagnostics(*e),
        AstView::InvalidField { field_name } => seq![DiagnosticView::UnknownField { name: field_name }],
        _ => match q.comparison() {
            Some((op, field, v)) => {
                let acceptable = operator_accepts(op, field.spec_value_type());
                if kind_accepted(acceptable, v) {
                    seq![]
                } else {
                    seq![DiagnosticView::TypeMismatch { node: q, field, provided: v, acceptable }]
                }
            },
            None => seq![],
        },
    }
}

/// A comparison whose literal is of a kind that its operator and field do not accept.
#[derive(Debug, PartialEq)]
pub struct CompatibilityError<P: StructProperties> {
    pub ast: AST<P>,
    pub field: P,
    pub provided_value: Value,
    pub valid_values: Vec<Value>,
}

impl<P: StructProperties> View for CompatibilityError<P> {
    type V = DiagnosticView<P>;

    open spec fn view(&self) -> DiagnosticView<P> {
        DiagnosticView::TypeMismatch {
            node: self.ast@,
            field: self.field,
            provided: self.provided_value@,
            acceptable: values_view(self.valid_values@),
        }
    }
}

/// The values that `operator_accepts` lists for `op` against `sample`.
fn operator_values(op: Operator, sample: &Value) -> (r: Vec<Value>)
    ensures
        values_view(r@) == operator_accepts(op, sample@),
{
    let r = match op {
        Operator::Equals | Operator::NotEquals => vec![sample.duplicate()],
        Operator::GreaterThan => match sample {
            Value::Int(n) => vec![Value::Int(n.wrapping_sub(1))],
            _ => vec![],
        },
        Operator::LessThan => match sample {
            Value::Int(n) => vec![Value::Int(n.wrapping_add(1))],
            _ => vec![],
        },
        Operator::GreaterThanOrEqual => match sample {
            Value::Int(n) => vec![Value::Int(*n), Value::Int(n.wrapping_sub(1))],
            _ => vec![],
        },
        Operator::LessThanOrEqual => match sample {
            Value::Int(n) => vec![Value::Int(*n), Value::Int(n.wrapping_add(1))],
            _ => vec![],
        },
        Operator::Contains | Operator::StartsWith | Operator::EndsWith | Operator::RegexMatch => {
            match sample {
                Value::String(s) => vec![Value::String(s.clone())],
                _ => vec![],
            }
        },
        Operator::In => match sample {
            Value::String(_) | Value::VecString(_) => {
                let texts: Vec<String> = Vec::new();
                assert(strings_view(texts@) =~= Seq::<Seq<char>>::empty());
                vec![Value::String(String::new()), Value::VecString(texts)]
            },
            Value::Int(_) | Value::VecInt(_) => {
                let ints: Vec<i32> = Vec::new();
                assert(ints@ =~= Seq::<i32>::empty());
                vec![Value::Int(0), Value::VecInt(ints)]
            },
        },
    };
    proof {
        assert(values_view(r@) =~= operator_accepts(op, sample@));
    }
    r
}

/// The acceptable values of every comparison of `ast`, from left to right, each
/// computed against the declared-type sample `value`.
fn valid_comparison_values<P>(ast: &AST<P>, value: &Value) -> (r: Vec<Value>)
    requires
        comparisons_only(ast@),
    ensures
        values_view(r@) == acceptable_values(ast@, value@),
    decreases ast,
{
    match ast {
        AST::And(left, right) | AST::Or(left, right) => {
            proof {
                assert(acceptable_values(ast@, value@) == acceptable_values((**left)@, value@)
                    + acceptable_values((**right)@, value@));
            }
            let mut values = valid_comparison_values(left, value);
            let mut more = valid_comparison_values(right, value);
            let ghost a = values@;
            let ghost b = more@;
            values.append(&mut more);
            proof {
                assert(values@ == a + b);
                assert(values_view(values@) =~= values_view(a) + values_view(b));
            }
            values
        },
        _ => {
            let (op, _, _) = ast.as_comparison().unwrap();
            operator_values(op, value)
        },
    }
}

/// Whether a value of `acceptable` is of the kind of `v`.
fn accepts_kind(acceptable: &Vec<Value>, v: &Value) -> (r: bool)
    ensures
        r == kind_accepted(values_view(acceptable@), v@),
{
    let mut k: usize = 0;
    while k < acceptable.len()
        invariant
            k <= acceptable.len(),
            forall|j: int| 0 <= j < k ==> !(#[trigger] acceptable@[j]@).same_kind(v@),
        decreases acceptable.len() - k,
    {
        let same = match (&acceptable[k], v) {
            (Value::String(_), Value::String(_)) => true,
            (Value::Int(_), Value::Int(_)) => true,
            (Value::VecString(_), Value::VecString(_)) => true,
            (Value::VecInt(_), Value::VecInt(_)) => true,
            _ => false,
        };
        if same {
            assert(values_view(acceptable@)[k as int] == acceptable@[k as int]@);
            return true;
        }
        k = k + 1;
    }
    assert forall|j: int| 0 <= j < values_view(acceptable@).len() implies !(
    #[trigger] values_view(acceptable@)[j]).same_kind(v@) by {
        assert(values_view(acceptable@)[j] == acceptable@[j]@);
    }
    false
}

/// Checks the literal `parsed_value` of the comparison `ast` against the declared
/// type of its field: it passes when a value that the operator accepts for that
/// field is of the literal's kind, and otherwise the error records the comparison,
/// the field, the literal and the acceptable values.
pub fn is_compatible<P: StructProperties>(ast: &AST<P>, parsed_value: &Value) -> (r: Result<
    (),
    CompatibilityError<P>,
>)
    requires
        ast@.comparison() is Some,
    ensures
        ({
            let (op, field, _) = ast@.comparison()->0;
            let acceptable = operator_accepts(op, field.spec_value_type());
            &&& r is Ok <==> kind_accepted(acceptable, parsed_value@)
            &&& r matches Err(e) ==> e@ == DiagnosticView::TypeMismatch {
                node: ast@,
                field,
                provided: parsed_value@,
                acceptable,
            }
        }),
{
    let (_, field, _) = ast.as_comparison().unwrap();
    let field_value_type = field.get_value_type();
    let valid_values = valid_comparison_values(ast, &field_value_type);
    if accepts_kind(&valid_values, parsed_value) {
        Ok(())
    } else {
        Err(
            CompatibilityError {
                ast: ast.duplicate(),
                field: *field,
                provided_value: parsed_value.duplicate(),
                valid_values,
            },
        )
    }
}

} // verus!
