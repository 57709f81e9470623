use vstd::prelude::*;
use crate::value::{Value, ValueView};

verus! {

/// The comparison that a leaf of a query applies between a field and a literal.
#[derive(Debug, Clone, Copy, PartialEq, Eq, Structural)]
pub enum Operator {
    Equals,
    NotEquals,
    In,
    Contains,
    GreaterThan,
    LessThan,
    GreaterThanOrEqual,
    LessThanOrEqual,
    StartsWith,
    EndsWith,
    RegexMatch,
}

/// A parsed query. `P` identifies the fields of the records that it filters.
#[derive(Debug, PartialEq)]
pub enum AST<P> {
    /// field == value
    Equals { field: P, value: Value },
    /// field != value
    NotEquals { field: P, value: Value },
    /// field in value: substring or membership, see the evaluator
    In { field: P, value: Value },
    /// field contains value
    Contains { field: P, value: Value },
    /// field > value
    GreaterThan { field: P, value: Value },
    /// field < value
    LessThan { field: P, value: Value },
    /// field >= value
    GreaterThanOrEqual { field: P, value: Value },
    /// field <= value
    LessThanOrEqual { field: P, value: Value },
    /// field startswith value
    StartsWith { field: P, value: Value },
    /// field endswith value
    EndsWith { field: P, value: Value },
    /// field regexmatch value
    RegexMatch { field: P, value: Value },
    /// A comparison on a name that is no field of the record type.
    InvalidField { field_name: String },
    /// Both operands hold.
    And(Box<AST<P>>, Box<AST<P>>),
    /// At least one operand holds.
    Or(Box<AST<P>>, Box<AST<P>>),
    /// The operand does not hold.
    Not(Box<AST<P>>),
}

/// The mathematical content of an [`AST`].
pub enum AstView<P> {
    Equals { field: P, value: ValueView },
    NotEquals { field: P, value: ValueView },
    In { field: P, value: ValueView },
    Contains { field: P, value: ValueView },
    GreaterThan { field: P, value: ValueView },
    LessThan { field: P, value: ValueView },
    GreaterThanOrEqual { field: P, value: ValueView },
    LessThanOrEqual { field: P, value: ValueView },
    StartsWith { field: P, value: ValueView },
    EndsWith { field: P, value: ValueView },
    RegexMatch { field: P, value: ValueView },
    InvalidField { field_name: Seq<char> },
    And(Box<AstView<P>>, Box<AstView<P>>),
    Or(Box<AstView<P>>, Box<AstView<P>>),
    Not(Box<AstView<P>>),
}

impl<P> View for AST<P> {
    type V = AstView<P>;

    open spec fn view(&self) -> AstView<P>
        decreases self,
    {
        match self {
            AST::Equals { field, value } => AstView::Equals { field: *field, value: value@ },
            AST::NotEquals { field, value } => AstView::NotEquals { field: *field, value: value@ },
            AST::In { field, value } => AstView::In { field: *field, value: value@ },
            AST::Contains { field, value } => AstView::Contains { field: *field, value: value@ },
            AST::GreaterThan { field, value } => AstView::GreaterThan { field: *field, value: value@ },
            AST::LessThan { field, value } => AstView::LessThan { field: *field, value: value@ },
            AST::GreaterThanOrEqual { field, value } => AstView::GreaterThanOrEqual {
                field: *field,
                value: value@,
            },
            AST::LessThanOrEqual { field, value } => AstView::LessThanOrEqual {
                field: *field,
                value: value@,
            },
            AST::StartsWith { field, value } => AstView::StartsWith { field: *field, value: value@ },
            AST::EndsWith { field, value } => AstView::EndsWith { field: *field, value: value@ },
            AST::RegexMatch { field, value } => AstView::RegexMatch { field: *field, value: value@ },
            AST::InvalidField { field_name } => AstView::InvalidField { field_name: field_name@ },
            AST::And(l, r) => AstView::And(Box::new((**l).view()), Box::new((**r).view())),
            AST::Or(l, r) => AstView::Or(Box::new((**l).view()), Box::new((**r).view())),
            AST::Not(e) => AstView::Not(Box::new((**e).view())),
        }
    }
}

impl<P> AstView<P> {
    /// The leaf that compares `field` with `value` by `op`.
    pub open spec fn leaf(op: Operator, field: P, value: ValueView) -> AstView<P> {
        match op {
            Operator::Equals => AstView::Equals { field, value },
            Operator::NotEquals => AstView::NotEquals { field, value },
            Operator::In => AstView::In { field, value },
            Operator::Contains => AstView::Contains { field, value },
            Operator::GreaterThan => AstView::GreaterThan { field, value },
            Operator::LessThan => AstView::LessThan { field, value },
            Operator::GreaterThanOrEqual => AstView::GreaterThanOrEqual { field, value },
            Operator::LessThanOrEqual => AstView::LessThanOrEqual { field, value },
            Operator::StartsWith => AstView::StartsWith { field, value },
            Operator::EndsWith => AstView::EndsWith { field, value },
            Operator::RegexMatch => AstView::RegexMatch { field, value },
        }
    }

    /// The operator, field and literal of a comparison leaf; `None` for any other node.
    pub open spec fn comparison(self) -> Option<(Operator, P, ValueView)> {
        match self {
            AstView::Equals { field, value } => Some((Operator::Equals, field, value)),
            AstView::NotEquals { field, value } => Some((Operator::NotEquals, field, value)),
            AstView::In { field, value } => Some((Operator::In, field, value)),
            AstView::Contains { field, value } => Some((Operator::Contains, field, value)),
            AstView::GreaterThan { field, value } => Some((Operator::GreaterThan, field, value)),
            AstView::LessThan { field, value } => Some((Operator::LessThan, field, value)),
            AstView::GreaterThanOrEqual { field, value } => Some(
                (Operator::GreaterThanOrEqual, field, value),
            ),
            AstView::LessThanOrEqual { field, value } => Some(
                (Operator::LessThanOrEqual, field, value),
            ),
            AstView::StartsWith { field, value } => Some((Operator::StartsWith, field, value)),
            AstView::EndsWith { field, value } => Some((Operator::EndsWith, field, value)),
            AstView::RegexMatch { field, value } => Some((Operator::RegexMatch, field, value)),
            _ => None,
        }
    }

    /// No node of the tree records an unknown field name.
    pub open spec fn fields_resolved(self) -> bool
        decreases self,
    {
        match self {
            AstView::InvalidField { .. } => false,
            AstView::And(l, r) => l.fields_resolved() && r.fields_resolved(),
            AstView::Or(l, r) => l.fields_resolved() && r.fields_resolved(),
            AstView::Not(e) => e.fields_resolved(),
            _ => true,
        }
    }
}

impl<P> AST<P> {
    /// The operator, field and literal of a comparison leaf; `None` for any other node.
    pub fn as_comparison(&self) -> (r: Option<(Operator, &P, &Value)>)
        ensures
            match r {
                Some((op, field, value)) => self@.comparison() == Some((op, *field, value@)),
                None => self@.comparison() is None,
            },
    {
        match self {
            AST::Equals { field, value } => Some((Operator::Equals, field, value)),
            AST::NotEquals { field, value } => Some((Operator::NotEquals, field, value)),
            AST::In { field, value } => Some((Operator::In, field, value)),
            AST::Contains { field, value } => Some((Operator::Contains, field, value)),
            AST::GreaterThan { field, value } => Some((Operator::GreaterThan, field, value)),
            AST::LessThan { field, value } => Some((Operator::LessThan, field, value)),
            AST::GreaterThanOrEqual { field, value } => Some(
                (Operator::GreaterThanOrEqual, field, value),
            ),
            AST::LessThanOrEqual { field, value } => Some(
                (Operator::LessThanOrEqual, field, value),
            ),
            AST::StartsWith { field, value } => Some((Operator::StartsWith, field, value)),
            AST::EndsWith { field, value } => Some((Operator::EndsWith, field, value)),
            AST::RegexMatch { field, value } => Some((Operator::RegexMatch, field, value)),
            _ => None,
        }
    }
}

impl<P: Copy> AST<P> {
    /// The leaf that compares `field` with `value` by `op`.
    pub fn comparison_node(op: Operator, field: P, value: Value) -> (r: AST<P>)
        ensures
            r@ == AstView::leaf(op, field, value@),
    {
        match op {
            Operator::Equals => AST::Equals { field, value },
            Operator::NotEquals => AST::NotEquals { field, value },
            Operator::In => AST::In { field, value },
            Operator::Contains => AST::Contains { field, value },
            Operator::GreaterThan => AST::GreaterThan { field, value },
            Operator::LessThan => AST::LessThan { field, value },
            Operator::GreaterThanOrEqual => AST::GreaterThanOrEqual { field, value },
            Operator::LessThanOrEqual => AST::LessThanOrEqual { field, value },
            Operator::StartsWith => AST::StartsWith { field, value },
            Operator::EndsWith => AST::EndsWith { field, value },
            Operator::RegexMatch => AST::RegexMatch { field, value },
        }
    }

    /// A copy of this tree with the same content.
    pub fn duplicate(&self) -> (r: AST<P>)
        ensures
            r@ == self@,
        decreases self,
    {
        match self {
            AST::InvalidField { field_name } => AST::InvalidField { field_name: field_name.clone() },
            AST::And(l, r) => AST::And(Box::new(l.duplicate()), Box::new(r.duplicate())),
            AST::Or(l, r) => AST::Or(Box::new(l.duplicate()), Box::new(r.duplicate())),
            AST::Not(e) => AST::Not(Box::new(e.duplicate())),
            _ => {
                let (op, field, value) = self.as_comparison().unwrap();
                AST::comparison_node(op, *field, value.duplicate())
            },
        }
    }
}

} // verus!
