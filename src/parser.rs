use vstd::prelude::*;
use vstd::string::StrSliceExecFns;
use crate::ast::{AstView, Operator, AST};
use crate::compat::{diagnostics, is_compatible, CompatibilityError, DiagnosticView};
use crate::text::chars_of;
use vstd::string::StringExecFns;
use crate::grammar::{
    has_at, in_class, lemma_run_end_bounds, parse_chain, parse_comparison, parse_expr, parse_field,
    parse_group, parse_int, parse_ints, parse_list, parse_membership, parse_operator, parse_text,
    parse_texts, parse_value, run_end, skip_spaces, node_for, digits_value, blank_from, is_whitespace,
    CharClass,
};
use crate::matcher::StructProperties;
use crate::value::{strings_view, Value};

verus! {

/// A field name that denotes no field of a record type.
#[derive(Debug)]
pub struct FieldNotFound {
    field: String,
}

impl FieldNotFound {
    /// The name that was not found.
    pub closed spec fn name(&self) -> Seq<char> {
        self.field@
    }

    pub fn new(field: &str) -> (r: Self)
        ensures
            r.name() == field@,
    {
        FieldNotFound { field: field.to_owned() }
    }

    /// "Field not found: " and the name.
    pub fn message(&self) -> (r: String)
        ensures
            r@ == "Field not found: "@ + self.name(),
    {
        "Field not found: ".to_owned().concat(self.field.as_str())
    }
}

/// A problem found in a query text.
#[derive(Debug, PartialEq)]
pub enum ASTValidationError<P: StructProperties> {
    /// The text is not a query.
    InvalidSyntax,
    /// A comparison names no field of the record type.
    InvalidField { field_name: String },
    /// A comparison's literal does not fit its operator and field.
    CompatibilityError(CompatibilityError<P>),
}

impl<P: StructProperties> View for ASTValidationError<P> {
    type V = DiagnosticView<P>;

    open spec fn view(&self) -> DiagnosticView<P> {
        match self {
            ASTValidationError::InvalidSyntax => DiagnosticView::SyntaxError,
            ASTValidationError::InvalidField { field_name } => DiagnosticView::UnknownField {
                name: field_name@,
            },
            ASTValidationError::CompatibilityError(e) => e@,
        }
    }
}

impl<P: StructProperties> From<CompatibilityError<P>> for ASTValidationError<P> {
    fn from(error: CompatibilityError<P>) -> (r: Self) {
        ASTValidationError::CompatibilityError(error)
    }
}

impl<P: StructProperties> vstd::std_specs::convert::FromSpecImpl<CompatibilityError<P>> for ASTValidationError<P> {
    open spec fn obeys_from_spec() -> bool {
        true
    }

    open spec fn from_spec(v: CompatibilityError<P>) -> ASTValidationError<P> {
        ASTValidationError::CompatibilityError(v)
    }
}

/// The contents of a list of problems.
pub open spec fn errors_view<P: StructProperties>(v: Seq<ASTValidationError<P>>) -> Seq<DiagnosticView<P>> {
    v.map_values(|e: ASTValidationError<P>| e@)
}

/// What reading `s` as a query gives: the query, when it parses with only
/// whitespace after it, names known fields only and has literals that fit; else
/// every problem of the parsed query, or a syntax error alone when the text does
/// not parse or when a parsed query without problems is followed by more text.
pub open spec fn query_result<P: StructProperties>(s: Seq<char>) -> Result<AstView<P>, Seq<DiagnosticView<P>>> {
    match parse_expr::<P>(s, skip_spaces(s, 0)) {
        None => Err(seq![DiagnosticView::SyntaxError]),
        Some((q, j)) => {
            let found = diagnostics(q);
            if found.len() > 0 {
                Err(found)
            } else if !blank_from(s, j) {
                Err(seq![DiagnosticView::SyntaxError])
            } else {
                Ok(q)
            }
        },
    }
}

/// The content of a parse result.
pub open spec fn parsed_view<P>(r: Option<(AST<P>, usize)>) -> Option<(AstView<P>, int)> {
    match r {
        Some((a, j)) => Some((a@, j as int)),
        None => None,
    }
}

/// The end of the run of characters of class `k` that starts at `i`.
fn scan(s: &Vec<char>, i: usize, k: CharClass) -> (r: usize)
    requires
        i <= s@.len(),
    ensures
        r == run_end(s@, i as int, k),
        i <= r <= s@.len(),
{
    let mut j = i;
    while j < s.len() && char_in_class(s[j], k)
        invariant
            i <= j <= s@.len(),
            run_end(s@, j as int, k) == run_end(s@, i as int, k),
        decreases s@.len() - j,
    {
        j = j + 1;
    }
    proof {
        lemma_run_end_bounds(s@, i as int, k);
    }
    j
}

fn char_in_class(c: char, k: CharClass) -> (r: bool)
    ensures
        r == in_class(c, k),
{
    match k {
        CharClass::Space => c == ' ' || c == '\t',
        CharClass::Alnum => ('a' <= c && c <= 'z') || ('A' <= c && c <= 'Z') || ('0' <= c && c
            <= '9'),
        CharClass::Digit => '0' <= c && c <= '9',
        CharClass::NotQuote => c != '"',
    }
}

/// Whether `t` stands in `s` at position `i`.
fn looking_at(s: &Vec<char>, i: usize, t: &[char]) -> (r: bool)
    ensures
        r == has_at(s@, i as int, t@),
        r ==> i + t@.len() <= s.len(),
{
    if i > s.len() || t.len() > s.len() - i {
        return false;
    }
    let mut k: usize = 0;
    while k < t.len()
        invariant
            i + t@.len() <= s@.len(),
            k <= t@.len(),
            forall|j: int| 0 <= j < k ==> s@[i + j] == t@[j],
        decreases t@.len() - k,
    {
        assert(i + k < s.len());
        if s[i + k] != t[k] {
            assert(s@.subrange(i as int, i + t@.len())[k as int] != t@[k as int]);
            return false;
        }
        k = k + 1;
    }
    assert(s@.subrange(i as int, i + t@.len()) =~= t@);
    true
}

/// Appending a digit multiplies the number by ten and adds the digit, so it never shrinks.
proof fn lemma_digits_grow(d: Seq<char>, n: int)
    requires
        0 <= n <= d.len(),
        forall|k: int| 0 <= k < d.len() ==> in_class(#[trigger] d[k], CharClass::Digit),
    ensures
        digits_value(d.subrange(0, n)) <= digits_value(d),
        0 <= digits_value(d.subrange(0, n)),
    decreases d.len(),
{
    if d.len() == 0 {
        assert(d.subrange(0, n) =~= d);
    } else if n == d.len() {
        assert(d.subrange(0, n) =~= d);
        lemma_digits_grow(d.drop_last(), 0);
        assert(d.drop_last().subrange(0, 0) =~= d.subrange(0, 0));
    } else {
        lemma_digits_grow(d.drop_last(), n);
        assert(d.drop_last().subrange(0, n) =~= d.subrange(0, n));
        lemma_digits_grow(d.drop_last(), d.len() - 1);
        assert(d.drop_last().subrange(0, d.len() - 1) =~= d.drop_last());
    }
}

/// An integer literal at `i`.
fn int_at(s: &Vec<char>, i: usize) -> (r: Option<(i32, usize)>)
    requires
        i <= s@.len(),
    ensures
        match r {
            Some((n, j)) => parse_int(s@, i as int) == Some((n, j as int)),
            None => parse_int(s@, i as int) is None,
        },
        r matches Some((_, j)) ==> i < j <= s@.len(),
{
    let e = scan(s, i, CharClass::Digit);
    if e == i {
        return None;
    }
    proof {
        lemma_run_end_bounds(s@, i as int, CharClass::Digit);
    }
    let ghost digits = s@.subrange(i as int, e as int);
    let mut v: u32 = 0;
    let mut j = i;
    while j < e
        invariant
            i <= j <= e <= s@.len(),
            digits == s@.subrange(i as int, e as int),
            e == run_end(s@, i as int, CharClass::Digit),
            forall|k: int| i <= k < e ==> in_class(#[trigger] s@[k], CharClass::Digit),
            v as int == digits_value(s@.subrange(i as int, j as int)),
            v <= i32::MAX,
        decreases e - j,
    {
        let ghost prefix = s@.subrange(i as int, j as int);
        let d = (s[j] as u32) - ('0' as u32);
        proof {
            assert(s@.subrange(i as int, j + 1).drop_last() =~= prefix);
        }
        if v > 214748364 || (v == 214748364 && d > 7) {
            proof {
                assert(digits_value(s@.subrange(i as int, j + 1)) > i32::MAX);
                assert(digits.subrange(0, j + 1 - i) =~= s@.subrange(i as int, j + 1));
                assert forall|k: int| 0 <= k < digits.len() implies in_class(
                    #[trigger] digits[k],
                    CharClass::Digit,
                ) by {
                    assert(digits[k] == s@[i + k]);
                }
                lemma_digits_grow(digits, j + 1 - i);
            }
            return None;
        }
        v = v * 10 + d;
        j = j + 1;
    }
    Some((v as i32, e))
}

/// A text literal at `i`.
fn text_at(s: &Vec<char>, input: &str, i: usize) -> (r: Option<(String, usize)>)
    requires
        s@ == input@,
        i <= s@.len(),
    ensures
        match r {
            Some((t, j)) => parse_text(s@, i as int) == Some((t@, j as int)),
            None => parse_text(s@, i as int) is None,
        },
        r matches Some((_, j)) ==> i < j <= s@.len(),
{
    if i < s.len() && s[i] == '"' {
        let e = scan(s, i + 1, CharClass::NotQuote);
        if i + 1 < e && e < s.len() {
            let t = input.substring_char(i + 1, e).to_owned();
            Some((t, e + 1))
        } else {
            None
        }
    } else {
        None
    }
}

/// An integer literal, or else a text literal, at `i`.
fn value_at(s: &Vec<char>, input: &str, i: usize) -> (r: Option<(Value, usize)>)
    requires
        s@ == input@,
        i <= s@.len(),
    ensures
        match r {
            Some((v, j)) => parse_value(s@, i as int) == Some((v@, j as int)),
            None => parse_value(s@, i as int) is None,
        },
        r matches Some((_, j)) ==> i < j <= s@.len(),
{
    match int_at(s, i) {
        Some((n, j)) => Some((Value::Int(n), j)),
        None => match text_at(s, input, i) {
            Some((t, j)) => Some((Value::String(t), j)),
            None => None,
        },
    }
}

/// Text literals separated by commas at `i`.
fn texts_at(s: &Vec<char>, input: &str, i: usize) -> (r: Option<(Vec<String>, usize)>)
    requires
        s@ == input@,
        i <= s@.len(),
    ensures
        match r {
            Some((ts, j)) => parse_texts(s@, i as int) == Some((strings_view(ts@), j as int)),
            None => parse_texts(s@, i as int) is None,
        },
        r matches Some((_, j)) ==> i < j <= s@.len(),
    decreases s@.len() - i,
{
    match text_at(s, input, i) {
        Some((t, j)) => {
            let comma = [','];
            proof {
                assert(comma@ =~= seq![',']);
            }
            if looking_at(s, j, &comma) {
                assert(j < s.len());
                match texts_at(s, input, j + 1) {
                    Some((mut ts, k)) => {
                        let ghost tail = ts@;
                        ts.insert(0, t);
                        proof {
                            assert(strings_view(ts@) =~= seq![t@] + strings_view(tail));
                        }
                        Some((ts, k))
                    },
                    None => {
                        let ts = vec![t];
                        proof {
                            assert(strings_view(ts@) =~= seq![t@]);
                        }
                        Some((ts, j))
                    },
                }
            } else {
                let ts = vec![t];
                proof {
                    assert(strings_view(ts@) =~= seq![t@]);
                }
                Some((ts, j))
            }
        },
        None => None,
    }
}

/// Integer literals separated by commas at `i`.
fn ints_at(s: &Vec<char>, i: usize) -> (r: Option<(Vec<i32>, usize)>)
    requires
        i <= s@.len(),
    ensures
        match r {
            Some((ns, j)) => parse_ints(s@, i as int) == Some((ns@, j as int)),
            None => parse_ints(s@, i as int) is None,
        },
        r matches Some((_, j)) ==> i < j <= s@.len(),
    decreases s@.len() - i,
{
    match int_at(s, i) {
        Some((n, j)) => {
            let comma = [','];
            proof {
                assert(comma@ =~= seq![',']);
            }
            if looking_at(s, j, &comma) {
                assert(j < s.len());
                match ints_at(s, j + 1) {
                    Some((mut ns, k)) => {
                        let ghost tail = ns@;
                        ns.insert(0, n);
                        proof {
                            assert(ns@ =~= seq![n] + tail);
                        }
                        Some((ns, k))
                    },
                    None => {
                        let ns = vec![n];
                        proof {
                            assert(ns@ =~= seq![n]);
                        }
                        Some((ns, j))
                    },
                }
            } else {
                let ns = vec![n];
                proof {
                    assert(ns@ =~= seq![n]);
                }
                Some((ns, j))
            }
        },
        None => None,
    }
}

/// A bracketed list of text literals, or else of integer literals, at `i`.
fn list_at(s: &Vec<char>, input: &str, i: usize) -> (r: Option<(Value, usize)>)
    requires
        s@ == input@,
        i <= s@.len(),
    ensures
        match r {
            Some((v, j)) => parse_list(s@, i as int) == Some((v@, j as int)),
            None => parse_list(s@, i as int) is None,
        },
        r matches Some((_, j)) ==> i < j <= s@.len(),
{
    let open = ['['];
    let close = [']'];
    proof {
        assert(open@ =~= seq!['[']);
        assert(close@ =~= seq![']']);
    }
    if !looking_at(s, i, &open) {
        return None;
    }
    assert(i < s.len());
    match texts_at(s, input, i + 1) {
        Some((ts, j)) => {
            if looking_at(s, j, &close) {
                assert(j < s.len());
                return Some((Value::VecString(ts), j + 1));
            }
        },
        None => {},
    }
    match ints_at(s, i + 1) {
        Some((ns, j)) => {
            if looking_at(s, j, &close) {
                assert(j < s.len());
                return Some((Value::VecInt(ns), j + 1));
            }
            None
        },
        None => None,
    }
}

/// A field name and the spaces after it, at `i`.
fn field_at(s: &Vec<char>, input: &str, i: usize) -> (r: Option<(String, usize)>)
    requires
        s@ == input@,
        i <= s@.len(),
    ensures
        match r {
            Some((name, j)) => parse_field(s@, i as int) == Some((name@, j as int)),
            None => parse_field(s@, i as int) is None,
        },
        r matches Some((_, j)) ==> i < j <= s@.len(),
{
    let e = scan(s, i, CharClass::Alnum);
    if e == i {
        return None;
    }
    let name = input.substring_char(i, e).to_owned();
    let j = scan(s, e, CharClass::Space);
    Some((name, j))
}

/// A comparison operator other than `in`, at `i`.
fn operator_at(s: &Vec<char>, i: usize) -> (r: Option<(Operator, usize)>)
    requires
        i <= s@.len(),
    ensures
        match r {
            Some((op, j)) => parse_operator(s@, i as int) == Some((op, j as int)),
            None => parse_operator(s@, i as int) is None,
        },
        r matches Some((_, j)) ==> i < j <= s@.len(),
{
    let eq = ['=', '='];
    let ne = ['!', '='];
    let ge = ['>', '='];
    let gt = ['>'];
    let le = ['<', '='];
    let lt = ['<'];
    let contains = ['c', 'o', 'n', 't', 'a', 'i', 'n', 's'];
    let starts = ['s', 't', 'a', 'r', 't', 's', 'w', 'i', 't', 'h'];
    let ends = ['e', 'n', 'd', 's', 'w', 'i', 't', 'h'];
    let regex = ['r', 'e', 'g', 'e', 'x', 'm', 'a', 't', 'c', 'h'];
    proof {
        assert(eq@ =~= seq!['=', '=']);
        assert(ne@ =~= seq!['!', '=']);
        assert(ge@ =~= seq!['>', '=']);
        assert(gt@ =~= seq!['>']);
        assert(le@ =~= seq!['<', '=']);
        assert(lt@ =~= seq!['<']);
        assert(contains@ =~= seq!['c', 'o', 'n', 't', 'a', 'i', 'n', 's']);
        assert(starts@ =~= seq!['s', 't', 'a', 'r', 't', 's', 'w', 'i', 't', 'h']);
        assert(ends@ =~= seq!['e', 'n', 'd', 's', 'w', 'i', 't', 'h']);
        assert(regex@ =~= seq!['r', 'e', 'g', 'e', 'x', 'm', 'a', 't', 'c', 'h']);
    }
    if looking_at(s, i, &eq) {
        Some((Operator::Equals, i + 2))
    } else if looking_at(s, i, &ne) {
        Some((Operator::NotEquals, i + 2))
    } else if looking_at(s, i, &ge) {
        Some((Operator::GreaterThanOrEqual, i + 2))
    } else if looking_at(s, i, &gt) {
        Some((Operator::GreaterThan, i + 1))
    } else if looking_at(s, i, &le) {
        Some((Operator::LessThanOrEqual, i + 2))
    } else if looking_at(s, i, &lt) {
        Some((Operator::LessThan, i + 1))
    } else if looking_at(s, i, &contains) {
        Some((Operator::Contains, i + 8))
    } else if looking_at(s, i, &starts) {
        Some((Operator::StartsWith, i + 10))
    } else if looking_at(s, i, &ends) {
        Some((Operator::EndsWith, i + 8))
    } else if looking_at(s, i, &regex) {
        Some((Operator::RegexMatch, i + 10))
    } else {
        None
    }
}

/// The node for a comparison on the field named `name`.
fn node_named<P: StructProperties>(name: String, op: Operator, v: Value) -> (r: AST<P>)
    ensures
        r@ == node_for::<P>(name@, op, v@),
{
    match P::from_name(name.as_str()) {
        Some(field) => AST::comparison_node(op, field, v),
        None => AST::InvalidField { field_name: name },
    }
}

/// `field op value` at `i`.
fn comparison_at<P: StructProperties>(s: &Vec<char>, input: &str, i: usize) -> (r: Option<(AST<P>, usize)>)
    requires
        s@ == input@,
        i <= s@.len(),
    ensures
        parsed_view(r) == parse_comparison::<P>(s@, i as int),
        r matches Some((_, j)) ==> i < j <= s@.len(),
{
    let (name, j) = match field_at(s, input, i) {
        Some(found) => found,
        None => return None,
    };
    let (op, k) = match operator_at(s, j) {
        Some(found) => found,
        None => return None,
    };
    let k = scan(s, k, CharClass::Space);
    match value_at(s, input, k) {
        Some((v, m)) => Some((node_named(name, op, v), m)),
        None => None,
    }
}

/// `field in literal` at `i`.
fn membership_at<P: StructProperties>(s: &Vec<char>, input: &str, i: usize) -> (r: Option<(AST<P>, usize)>)
    requires
        s@ == input@,
        i <= s@.len(),
    ensures
        parsed_view(r) == parse_membership::<P>(s@, i as int),
        r matches Some((_, j)) ==> i < j <= s@.len(),
{
    let (name, j) = match field_at(s, input, i) {
        Some(found) => found,
        None => return None,
    };
    let word = ['i', 'n'];
    proof {
        assert(word@ =~= seq!['i', 'n']);
    }
    if !looking_at(s, j, &word) {
        return None;
    }
    assert(j + 2 <= s.len());
    let k = scan(s, j + 2, CharClass::Space);
    let literal = match list_at(s, input, k) {
        Some(found) => Some(found),
        None => value_at(s, input, k),
    };
    match literal {
        Some((v, m)) => Some((node_named(name, Operator::In, v), m)),
        None => None,
    }
}

/// A query at `i`.
fn expr_at<P: StructProperties>(s: &Vec<char>, input: &str, i: usize) -> (r: Option<(AST<P>, usize)>)
    requires
        s@ == input@,
        i <= s@.len(),
    ensures
        parsed_view(r) == parse_expr::<P>(s@, i as int),
        r matches Some((_, j)) ==> i < j <= s@.len(),
    decreases s@.len() - i, 2int,
{
    match comparison_at(s, input, i) {
        Some(found) => return Some(found),
        None => {},
    }
    match membership_at(s, input, i) {
        Some(found) => return Some(found),
        None => {},
    }
    match group_at(s, input, i) {
        Some((first, j)) => Some(chain_at(s, input, j, first)),
        None => None,
    }
}

/// `(query)` or `!(query)` at `i`.
fn group_at<P: StructProperties>(s: &Vec<char>, input: &str, i: usize) -> (r: Option<(AST<P>, usize)>)
    requires
        s@ == input@,
        i <= s@.len(),
    ensures
        parsed_view(r) == parse_group::<P>(s@, i as int),
        r matches Some((_, j)) ==> i < j <= s@.len(),
    decreases s@.len() - i, 1int,
{
    let negated = ['!', '('];
    let open = ['('];
    let close = [')'];
    proof {
        assert(negated@ =~= seq!['!', '(']);
        assert(open@ =~= seq!['(']);
        assert(close@ =~= seq![')']);
    }
    if looking_at(s, i, &negated) {
        match expr_at(s, input, i + 2) {
            Some((q, j)) => if looking_at(s, j, &close) {
                Some((AST::Not(Box::new(q)), j + 1))
            } else {
                None
            },
            None => None,
        }
    } else if looking_at(s, i, &open) {
        match expr_at(s, input, i + 1) {
            Some((q, j)) => if looking_at(s, j, &close) {
                Some((q, j + 1))
            } else {
                None
            },
            None => None,
        }
    } else {
        None
    }
}

/// The `&&` and `||` operands after the query `acc` that ends at `i`, joined from the left.
fn chain_at<P: StructProperties>(s: &Vec<char>, input: &str, i: usize, acc: AST<P>) -> (r: (AST<P>, usize))
    requires
        s@ == input@,
        i <= s@.len(),
    ensures
        (r.0@, r.1 as int) == parse_chain::<P>(s@, i as int, acc@),
        i <= r.1 <= s@.len(),
    decreases s@.len() - i, 0int,
{
    let conj_word = ['&', '&'];
    let disj_word = ['|', '|'];
    proof {
        assert(conj_word@ =~= seq!['&', '&']);
        assert(disj_word@ =~= seq!['|', '|']);
    }
    let a = scan(s, i, CharClass::Space);
    let conj = looking_at(s, a, &conj_word);
    let disj = looking_at(s, a, &disj_word);
    if conj || disj {
        let b = scan(s, a + 2, CharClass::Space);
        match group_at(s, input, b) {
            Some((rhs, c)) => {
                let ghost acc_view = acc@;
                let joined = if conj {
                    AST::And(Box::new(acc), Box::new(rhs))
                } else {
                    AST::Or(Box::new(acc), Box::new(rhs))
                };
                proof {
                    if conj {
                        assert(joined@ == AstView::And(Box::new(acc_view), Box::new(rhs@)));
                    } else {
                        assert(joined@ == AstView::Or(Box::new(acc_view), Box::new(rhs@)));
                    }
                }
                chain_at(s, input, c, joined)
            },
            None => (acc, i),
        }
    } else {
        (acc, i)
    }
}

/// Appends every problem of `ast` to `errors`, from left to right.
fn validate_ast<P: StructProperties>(ast: &AST<P>, errors: &mut Vec<ASTValidationError<P>>)
    ensures
        errors_view(final(errors)@) == errors_view(old(errors)@) + diagnostics(ast@),
    decreases ast,
{
    let ghost before = errors@;
    match ast {
        AST::And(left, right) | AST::Or(left, right) => {
            proof {
                assert(diagnostics(ast@) == diagnostics((**left)@) + diagnostics((**right)@));
            }
            validate_ast(left, errors);
            let ghost middle = errors@;
            validate_ast(right, errors);
            proof {
                assert(errors_view(errors@) =~= errors_view(before) + diagnostics(ast@));
            }
        },
        AST::Not(expr) => {
            proof {
                assert(diagnostics(ast@) == diagnostics((**expr)@));
            }
            validate_ast(expr, errors);
        },
        AST::InvalidField { field_name } => {
            errors.push(ASTValidationError::InvalidField { field_name: field_name.clone() });
            proof {
                assert(errors_view(errors@) =~= errors_view(before) + diagnostics(ast@));
            }
        },
        _ => {
            let (_, _, value) = ast.as_comparison().unwrap();
            match is_compatible(ast, &value.duplicate()) {
                Ok(()) => {
                    proof {
                        assert(errors_view(errors@) =~= errors_view(before) + diagnostics(ast@));
                    }
                },
                Err(e) => {
                    errors.push(ASTValidationError::CompatibilityError(e));
                    proof {
                        assert(errors_view(errors@) =~= errors_view(before) + diagnostics(ast@));
                    }
                },
            }
        },
    }
}

/// Whether nothing but whitespace stands in `s` from `i` on.
fn blank_after(s: &Vec<char>, i: usize) -> (r: bool)
    requires
        i <= s@.len(),
    ensures
        r == blank_from(s@, i as int),
{
    let mut k = i;
    while k < s.len()
        invariant
            i <= k <= s@.len(),
            forall|j: int| i <= j < k ==> is_whitespace(#[trigger] s@[j]),
        decreases s@.len() - k,
    {
        let c = s[k];
        let white = c == ' ' || ('\t' <= c && c <= '\r') || c == '\u{85}' || c == '\u{a0}' || c
            == '\u{1680}' || ('\u{2000}' <= c && c <= '\u{200a}') || c == '\u{2028}' || c
            == '\u{2029}' || c == '\u{202f}' || c == '\u{205f}' || c == '\u{3000}';
        if !white {
            return false;
        }
        k = k + 1;
    }
    true
}

/// Reads `input` as a query over the fields that `P` identifies. The query is
/// returned when it parses, names known fields only, has literals that fit, and
/// nothing but whitespace follows it; otherwise every problem found, see
/// `query_result`.
pub fn parse_query<P: StructProperties>(input: &str) -> (r: Result<AST<P>, Vec<ASTValidationError<P>>>)
    ensures
        match r {
            Ok(ast) => query_result::<P>(input@) == Ok::<AstView<P>, Seq<DiagnosticView<P>>>(ast@),
            Err(errors) => query_result::<P>(input@) == Err::<AstView<P>, Seq<DiagnosticView<P>>>(
                errors_view(errors@),
            ),
        },
{
    let s = chars_of(input);
    let start = scan(&s, 0, CharClass::Space);
    let (ast, end) = match expr_at(&s, input, start) {
        Some(found) => found,
        None => {
            let errors = vec![ASTValidationError::InvalidSyntax];
            proof {
                assert(errors_view(errors@) =~= seq![DiagnosticView::<P>::SyntaxError]);
            }
            return Err(errors);
        },
    };
    let mut errors: Vec<ASTValidationError<P>> = Vec::new();
    validate_ast(&ast, &mut errors);
    proof {
        assert(errors_view(errors@) =~= diagnostics(ast@));
    }
    if errors.len() == 0 && !blank_after(&s, end) {
        errors.push(ASTValidationError::InvalidSyntax);
        proof {
            assert(errors_view(errors@) =~= seq![DiagnosticView::<P>::SyntaxError]);
        }
    }
    if errors.len() == 0 {
        Ok(ast)
    } else {
        Err(errors)
    }
}

} // verus!
