//! The query language, stated as functions from a text and a position to what
//! is read there and the position after it. Alternatives are tried in order and
//! the first that succeeds is taken.
use vstd::prelude::*;
use crate::ast::{AstView, Operator};
use crate::matcher::StructProperties;
use crate::value::ValueView;

verus! {

/// The classes of characters that the lexical rules read runs of.
#[derive(Clone, Copy, PartialEq, Eq, Structural)]
pub enum CharClass {
    /// A space or a tab.
    Space,
    /// An ASCII letter or digit.
    Alnum,
    /// An ASCII digit.
    Digit,
    /// Anything but a double quote.
    NotQuote,
}

/// `c` belongs to the class `k`.
pub open spec fn in_class(c: char, k: CharClass) -> bool {
    match k {
        CharClass::Space => c == ' ' || c == '\t',
        CharClass::Alnum => ('a' <= c && c <= 'z') || ('A' <= c && c <= 'Z') || ('0' <= c && c
            <= '9'),
        CharClass::Digit => '0' <= c && c <= '9',
        CharClass::NotQuote => c != '"',
    }
}

/// The end of the run of characters of class `k` that starts at `i`.
pub open spec fn run_end(s: Seq<char>, i: int, k: CharClass) -> int
    decreases s.len() - i,
{
    if 0 <= i < s.len() && in_class(s[i], k) {
        run_end(s, i + 1, k)
    } else {
        i
    }
}

/// A run starts where it is asked for and ends within the text.
pub proof fn lemma_run_end_bounds(s: Seq<char>, i: int, k: CharClass)
    ensures
        i <= run_end(s, i, k),
        0 <= i <= s.len() ==> run_end(s, i, k) <= s.len(),
        forall|j: int| i <= j < run_end(s, i, k) ==> in_class(#[trigger] s[j], k),
        0 <= run_end(s, i, k) < s.len() ==> !in_class(s[run_end(s, i, k)], k),
    decreases s.len() - i,
{
    if 0 <= i < s.len() && in_class(s[i], k) {
        lemma_run_end_bounds(s, i + 1, k);
    }
}

/// The position after the spaces and tabs at `i`.
pub open spec fn skip_spaces(s: Seq<char>, i: int) -> int {
    run_end(s, i, CharClass::Space)
}

/// `t` stands in `s` at position `i`.
pub open spec fn has_at(s: Seq<char>, i: int, t: Seq<char>) -> bool {
    0 <= i && i + t.len() <= s.len() && s.subrange(i, i + t.len()) == t
}

/// A character that `char::is_whitespace` accepts: the Unicode White_Space property.
pub open spec fn is_whitespace(c: char) -> bool {
    ||| c == ' '
    ||| ('\t' <= c && c <= '\r')
    ||| c == '\u{85}'
    ||| c == '\u{a0}'
    ||| c == '\u{1680}'
    ||| ('\u{2000}' <= c && c <= '\u{200a}')
    ||| c == '\u{2028}'
    ||| c == '\u{2029}'
    ||| c == '\u{202f}'
    ||| c == '\u{205f}'
    ||| c == '\u{3000}'
}

/// Nothing but whitespace stands in `s` from `i` on.
pub open spec fn blank_from(s: Seq<char>, i: int) -> bool {
    forall|k: int| i <= k < s.len() ==> is_whitespace(#[trigger] s[k])
}

/// The number written by a run of decimal digits.
pub open spec fn digits_value(d: Seq<char>) -> int
    decreases d.len(),
{
    if d.len() == 0 {
        0
    } else {
        digits_value(d.drop_last()) * 10 + (d.last() as int - '0' as int)
    }
}

/// An integer literal: decimal digits whose number fits an `i32`.
pub open spec fn parse_int(s: Seq<char>, i: int) -> Option<(i32, int)> {
    let e = run_end(s, i, CharClass::Digit);
    if i < e && digits_value(s.subrange(i, e)) <= i32::MAX {
        Some((digits_value(s.subrange(i, e)) as i32, e))
    } else {
        None
    }
}

/// A text literal: a double quote, one or more other characters, a double quote.
pub open spec fn parse_text(s: Seq<char>, i: int) -> Option<(Seq<char>, int)> {
    if 0 <= i < s.len() && s[i] == '"' {
        let e = run_end(s, i + 1, CharClass::NotQuote);
        if i + 1 < e < s.len() {
            Some((s.subrange(i + 1, e), e + 1))
        } else {
            None
        }
    } else {
        None
    }
}

/// An integer literal, or else a text literal.
pub open spec fn parse_value(s: Seq<char>, i: int) -> Option<(ValueView, int)> {
    match parse_int(s, i) {
        Some((n, j)) => Some((ValueView::Int(n), j)),
        None => match parse_text(s, i) {
            Some((t, j)) => Some((ValueView::String(t), j)),
            None => None,
        },
    }
}

/// Text literals separated by commas, as many as stand there.
pub open spec fn parse_texts(s: Seq<char>, i: int) -> Option<(Seq<Seq<char>>, int)>
    decreases s.len() - i,
{
    match parse_text(s, i) {
        Some((t, j)) => if has_at(s, j, seq![',']) {
            match parse_texts(s, j + 1) {
                Some((ts, k)) => Some((seq![t] + ts, k)),
                None => Some((seq![t], j)),
            }
        } else {
            Some((seq![t], j))
        },
        None => None,
    }
}

/// Integer literals separated by commas, as many as stand there.
pub open spec fn parse_ints(s: Seq<char>, i: int) -> Option<(Seq<i32>, int)>
    decreases s.len() - i,
{
    match parse_int(s, i) {
        Some((n, j)) => if has_at(s, j, seq![',']) {
            match parse_ints(s, j + 1) {
                Some((ns, k)) => Some((seq![n] + ns, k)),
                None => Some((seq![n], j)),
            }
        } else {
            Some((seq![n], j))
        },
        None => None,
    }
}

/// A bracketed list of text literals, or else of integer literals.
pub open spec fn parse_list(s: Seq<char>, i: int) -> Option<(ValueView, int)> {
    if has_at(s, i, seq!['[']) {
        match parse_texts(s, i + 1) {
            Some((ts, j)) if has_at(s, j, seq![']']) => Some((ValueView::VecString(ts), j + 1)),
            _ => match parse_ints(s, i + 1) {
                Some((ns, j)) if has_at(s, j, seq![']']) => Some((ValueView::VecInt(ns), j + 1)),
                _ => None,
            },
        }
    } else {
        None
    }
}

/// A field name: letters and digits, and the spaces after them.
pub open spec fn parse_field(s: Seq<char>, i: int) -> Option<(Seq<char>, int)> {
    let e = run_end(s, i, CharClass::Alnum);
    if i < e {
        Some((s.subrange(i, e), skip_spaces(s, e)))
    } else {
        None
    }
}

/// A comparison operator other than `in`; longer symbols are tried first.
pub open spec fn parse_operator(s: Seq<char>, i: int) -> Option<(Operator, int)> {
    if has_at(s, i, seq!['=', '=']) {
        Some((Operator::Equals, i + 2))
    } else if has_at(s, i, seq!['!', '=']) {
        Some((Operator::NotEquals, i + 2))
    } else if has_at(s, i, seq!['>', '=']) {
        Some((Operator::GreaterThanOrEqual, i + 2))
    } else if has_at(s, i, seq!['>']) {
        Some((Operator::GreaterThan, i + 1))
    } else if has_at(s, i, seq!['<', '=']) {
        Some((Operator::LessThanOrEqual, i + 2))
    } else if has_at(s, i, seq!['<']) {
        Some((Operator::LessThan, i + 1))
    } else if has_at(s, i, seq!['c', 'o', 'n', 't', 'a', 'i', 'n', 's']) {
        Some((Operator::Contains, i + 8))
    } else if has_at(s, i, seq!['s', 't', 'a', 'r', 't', 's', 'w', 'i', 't', 'h']) {
        Some((Operator::StartsWith, i + 10))
    } else if has_at(s, i, seq!['e', 'n', 'd', 's', 'w', 'i', 't', 'h']) {
        Some((Operator::EndsWith, i + 8))
    } else if has_at(s, i, seq!['r', 'e', 'g', 'e', 'x', 'm', 'a', 't', 'c', 'h']) {
        Some((Operator::RegexMatch, i + 10))
    } else {
        None
    }
}

/// The node for a comparison on the field named `name`: the comparison itself
/// when the name denotes a field, and otherwise a record of the unknown name.
pub open spec fn node_for<P: StructProperties>(name: Seq<char>, op: Operator, v: ValueView) -> AstView<P> {
    match P::spec_from_name(name) {
        Some(field) => AstView::leaf(op, field, v),
        None => AstView::InvalidField { field_name: name },
    }
}

/// `field op value`, with spaces allowed around the operator.
pub open spec fn parse_comparison<P: StructProperties>(s: Seq<char>, i: int) -> Option<(AstView<P>, int)> {
    match parse_field(s, i) {
        Some((name, j)) => match parse_operator(s, j) {
            Some((op, k)) => match parse_value(s, skip_spaces(s, k)) {
                Some((v, m)) => Some((node_for::<P>(name, op, v), m)),
                None => None,
            },
            None => None,
        },
        None => None,
    }
}

/// `field in literal`, where the literal is a list or else a single value.
pub open spec fn parse_membership<P: StructProperties>(s: Seq<char>, i: int) -> Option<(AstView<P>, int)> {
    match parse_field(s, i) {
        Some((name, j)) => if has_at(s, j, seq!['i', 'n']) {
            let k = skip_spaces(s, j + 2);
            let literal = match parse_list(s, k) {
                Some(r) => Some(r),
                None => parse_value(s, k),
            };
            match literal {
                Some((v, m)) => Some((node_for::<P>(name, Operator::In, v), m)),
                None => None,
            }
        } else {
            None
        },
        None => None,
    }
}

/// A query: a comparison, or else a membership test, or else bracketed queries
/// joined by `&&` and `||` and grouped from the left.
pub open spec fn parse_expr<P: StructProperties>(s: Seq<char>, i: int) -> Option<(AstView<P>, int)>
    decreases s.len() - i, 2int,
{
    match parse_comparison::<P>(s, i) {
        Some(r) => Some(r),
        None => match parse_membership::<P>(s, i) {
            Some(r) => Some(r),
            // A group always reads past `i`; the test states it so that the
            // definition is well founded.
            None => match parse_group::<P>(s, i) {
                Some((first, j)) => if i < j <= s.len() {
                    Some(parse_chain::<P>(s, j, first))
                } else {
                    None
                },
                None => None,
            },
        },
    }
}

/// `(query)`, or `!(query)` for its negation; no spaces inside the brackets.
pub open spec fn parse_group<P: StructProperties>(s: Seq<char>, i: int) -> Option<(AstView<P>, int)>
    decreases s.len() - i, 1int,
{
    if has_at(s, i, seq!['!', '(']) {
        match parse_expr::<P>(s, i + 2) {
            Some((q, j)) => if has_at(s, j, seq![')']) {
                Some((AstView::Not(Box::new(q)), j + 1))
            } else {
                None
            },
            None => None,
        }
    } else if has_at(s, i, seq!['(']) {
        match parse_expr::<P>(s, i + 1) {
            Some((q, j)) => if has_at(s, j, seq![')']) {
                Some((q, j + 1))
            } else {
                None
            },
            None => None,
        }
    } else {
        None
    }
}

/// After the query `acc` that ends at `i`: each further `&&` or `||` with its
/// bracketed operand, spaces allowed around the symbol, joined onto what came before.
pub open spec fn parse_chain<P: StructProperties>(s: Seq<char>, i: int, acc: AstView<P>) -> (AstView<P>, int)
    decreases s.len() - i, 0int
    via parse_chain_decreases::<P>
{
    let a = skip_spaces(s, i);
    let conj = has_at(s, a, seq!['&', '&']);
    let disj = has_at(s, a, seq!['|', '|']);
    if conj || disj {
        match parse_group::<P>(s, skip_spaces(s, a + 2)) {
            Some((rhs, c)) => if i < c <= s.len() {
                let joined = if conj {
                    AstView::And(Box::new(acc), Box::new(rhs))
                } else {
                    AstView::Or(Box::new(acc), Box::new(rhs))
                };
                parse_chain::<P>(s, c, joined)
            } else {
                (acc, i)
            },
            None => (acc, i),
        }
    } else {
        (acc, i)
    }
}

/// Each step of `parse_chain` reads its next operand after the symbol, further on.
#[via_fn]
proof fn parse_chain_decreases<P: StructProperties>(s: Seq<char>, i: int, acc: AstView<P>) {
    lemma_run_end_bounds(s, i, CharClass::Space);
    lemma_run_end_bounds(s, skip_spaces(s, i) + 2, CharClass::Space);
}

} // verus!
