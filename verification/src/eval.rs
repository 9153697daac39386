//! The evaluator: whether a record passes the clauses of a filter.
//!
//! A clause is decided from what the record holds under the two names that
//! the clause mentions. The kind of the left-hand member alone picks the
//! mode: a number is compared as an integer, anything else as a string.

use crate::filter::{clauses_of, Clause, Filter};
use crate::record::{json_of, member, Json};
use crate::text::text_eq;
use serde_json::Value;
use vstd::prelude::*;

verus! {

/// What the evaluator reads of a member of the record.
#[derive(Clone, Copy, Debug, PartialEq, Eq)]
pub enum Datum<'a> {
    /// A number that is an integer within the range of `i64`.
    Integer(i64),
    /// Any other number.
    Number,
    /// A string.
    Text(&'a str),
    /// Null, a boolean, an array or an object.
    Other,
}

/// What a `Datum` stands for.
pub enum DatumView {
    Integer(i64),
    Number,
    Text(Seq<char>),
    Other,
}

impl<'a> View for Datum<'a> {
    type V = DatumView;

    open spec fn view(&self) -> DatumView {
        match self {
            Datum::Integer(n) => DatumView::Integer(*n),
            Datum::Number => DatumView::Number,
            Datum::Text(s) => DatumView::Text(s@),
            Datum::Other => DatumView::Other,
        }
    }
}

impl DatumView {
    /// The datum is a number, integer or not.
    pub open spec fn is_number(self) -> bool {
        self is Integer || self is Number
    }

    /// The integer, where the datum is one.
    pub open spec fn integer(self) -> Option<i64> {
        match self {
            DatumView::Integer(n) => Some(n),
            _ => None,
        }
    }

    /// The string, where the datum is one.
    pub open spec fn text(self) -> Option<Seq<char>> {
        match self {
            DatumView::Text(s) => Some(s),
            _ => None,
        }
    }
}

/// What a member that may be missing stands for.
pub open spec fn found(datum: Option<Datum>) -> Option<DatumView> {
    match datum {
        Some(d) => Some(d@),
        None => None,
    }
}

/// What the evaluator reads of a JSON value.
pub open spec fn datum_of(value: Json) -> DatumView {
    match value {
        Json::Number(Some(n)) => DatumView::Integer(n),
        Json::Number(None) => DatumView::Number,
        Json::Text(s) => DatumView::Text(s),
        _ => DatumView::Other,
    }
}

/// What the evaluator reads of the record under a name; nothing where no
/// name is given or the record has no such member.
pub open spec fn reading(record: Json, name: Option<Seq<char>>) -> Option<DatumView> {
    match name {
        Some(n) => match record.member(n) {
            Some(child) => Some(datum_of(child)),
            None => None,
        },
        None => None,
    }
}

/// The six comparisons.
#[derive(Clone, Copy, Debug, PartialEq, Eq)]
pub enum Operator {
    Equal,
    NotEqual,
    AtLeast,
    Greater,
    AtMost,
    Less,
}

/// The comparison that an operator's text names: one of `=`, `!=`, `>=`,
/// `>`, `<=`, `<`.
pub open spec fn operator_named(text: Seq<char>) -> Option<Operator> {
    if text.len() == 1 {
        if text[0] == '=' {
            Some(Operator::Equal)
        } else if text[0] == '>' {
            Some(Operator::Greater)
        } else if text[0] == '<' {
            Some(Operator::Less)
        } else {
            None
        }
    } else if text.len() == 2 && text[1] == '=' {
        if text[0] == '!' {
            Some(Operator::NotEqual)
        } else if text[0] == '>' {
            Some(Operator::AtLeast)
        } else if text[0] == '<' {
            Some(Operator::AtMost)
        } else {
            None
        }
    } else {
        None
    }
}

/// An integer under an optional factor. A product outside the range of
/// `i64` is no integer.
pub open spec fn scaled(value: Option<i64>, multiplier: Option<i64>) -> Option<i64> {
    match (value, multiplier) {
        (Some(v), Some(m)) => if i64::MIN <= v * m <= i64::MAX {
            Some((v * m) as i64)
        } else {
            None
        },
        (Some(v), None) => Some(v),
        (None, _) => None,
    }
}

/// The left-hand integer of a clause: the tested member under its factor.
pub open spec fn left_integer(clause: Clause, left: Option<DatumView>) -> Option<i64> {
    match left {
        Some(datum) => scaled(datum.integer(), clause.multiplier_field),
        None => None,
    }
}

/// The right-hand integer of a clause. The member that the clause refers to
/// is taken where the record has it and it is an integer or a factor is
/// given; the literal otherwise. Either is taken under the factor.
pub open spec fn right_integer(clause: Clause, referenced: Option<DatumView>) -> Option<i64> {
    match referenced {
        Some(datum) if clause.multiplier_value is Some || datum is Integer => scaled(
            datum.integer(),
            clause.multiplier_value,
        ),
        _ => scaled(
            match clause.value {
                Some(literal) => literal.integer(),
                None => None,
            },
            clause.multiplier_value,
        ),
    }
}

/// The left-hand string of a clause: the tested member where it is one.
pub open spec fn left_text(left: Option<DatumView>) -> Option<Seq<char>> {
    match left {
        Some(datum) => datum.text(),
        None => None,
    }
}

/// The right-hand string of a clause: the literal where the clause has
/// one, else the member that the clause refers to.
pub open spec fn right_text(clause: Clause, referenced: Option<DatumView>) -> Option<Seq<char>> {
    match clause.value {
        Some(literal) => literal.text(),
        None => match referenced {
            Some(datum) => datum.text(),
            None => None,
        },
    }
}

/// The outcome of a comparison of two integers.
pub open spec fn integers_compare(operator: Operator, l: i64, r: i64) -> bool {
    match operator {
        Operator::Equal => l == r,
        Operator::NotEqual => l != r,
        Operator::AtLeast => l >= r,
        Operator::Greater => l > r,
        Operator::AtMost => l <= r,
        Operator::Less => l < r,
    }
}

/// The outcome of a comparison of two strings: only equality and
/// inequality are defined on them.
pub open spec fn texts_compare(operator: Operator, l: Seq<char>, r: Seq<char>) -> bool {
    match operator {
        Operator::Equal => l == r,
        Operator::NotEqual => l != r,
        _ => false,
    }
}

/// Whether the tested member puts the clause in numeric mode.
pub open spec fn numeric_mode(left: Option<DatumView>) -> bool {
    match left {
        Some(datum) => datum.is_number(),
        None => false,
    }
}

/// Whether a clause holds, given what the record has under the clause's
/// field (`left`) and under the field it refers to (`referenced`).
pub open spec fn decision(
    clause: Clause,
    left: Option<DatumView>,
    referenced: Option<DatumView>,
) -> bool {
    match operator_named(clause.operator) {
        None => false,
        Some(operator) => if numeric_mode(left) {
            match (left_integer(clause, left), right_integer(clause, referenced)) {
                (Some(l), Some(r)) => integers_compare(operator, l, r),
                _ => false,
            }
        } else {
            match (left_text(left), right_text(clause, referenced)) {
                (Some(l), Some(r)) => texts_compare(operator, l, r),
                _ => false,
            }
        },
    }
}

/// Whether a clause holds of a record.
pub open spec fn holds(record: Json, clause: Clause) -> bool {
    decision(clause, reading(record, clause.field), reading(record, clause.value_field))
}

/// Whether every clause holds of a record.
pub open spec fn all_hold(record: Json, clauses: Seq<Clause>) -> bool {
    forall|k: int| 0 <= k < clauses.len() ==> holds(record, #[trigger] clauses[k])
}

/// The comparison that an operator's text names.
pub fn operator_of(text: &str) -> (r: Option<Operator>)
    ensures
        r == operator_named(text@),
{
    proof {
        reveal_strlit("=");
        reveal_strlit("!=");
        reveal_strlit(">=");
        reveal_strlit(">");
        reveal_strlit("<=");
        reveal_strlit("<");
        // A text of one or two characters is the literal that it spells.
        if text@.len() == 1 {
            assert(text@ =~= seq![text@[0]]);
        }
        if text@.len() == 2 {
            assert(text@ =~= seq![text@[0], text@[1]]);
        }
        assert("="@ =~= seq!['=']);
        assert("!="@ =~= seq!['!', '=']);
        assert(">="@ =~= seq!['>', '=']);
        assert(">"@ =~= seq!['>']);
        assert("<="@ =~= seq!['<', '=']);
        assert("<"@ =~= seq!['<']);
    }
    if text_eq(text, "=") {
        Some(Operator::Equal)
    } else if text_eq(text, "!=") {
        Some(Operator::NotEqual)
    } else if text_eq(text, ">=") {
        Some(Operator::AtLeast)
    } else if text_eq(text, ">") {
        Some(Operator::Greater)
    } else if text_eq(text, "<=") {
        Some(Operator::AtMost)
    } else if text_eq(text, "<") {
        Some(Operator::Less)
    } else {
        None
    }
}

/// An integer under an optional factor.
pub fn scale(value: Option<i64>, multiplier: Option<i64>) -> (r: Option<i64>)
    ensures
        r == scaled(value, multiplier),
{
    match (value, multiplier) {
        (Some(v), Some(m)) => v.checked_mul(m),
        (Some(v), None) => Some(v),
        (None, _) => None,
    }
}

impl<'a> Datum<'a> {
    /// The integer, where the datum is one.
    pub fn as_i64(&self) -> (r: Option<i64>)
        ensures
            r == self@.integer(),
    {
        match self {
            Datum::Integer(n) => Some(*n),
            _ => None,
        }
    }

    /// The string, where the datum is one.
    pub fn as_str(&self) -> (r: Option<&'a str>)
        ensures
            match r {
                Some(s) => self@.text() == Some(s@),
                None => self@.text() is None,
            },
    {
        match self {
            Datum::Text(s) => Some(*s),
            _ => None,
        }
    }

    /// The datum is a number, integer or not.
    pub fn is_number(&self) -> (r: bool)
        ensures
            r == self@.is_number(),
    {
        match self {
            Datum::Integer(_) => true,
            Datum::Number => true,
            _ => false,
        }
    }
}

/// Decides a clause from what the record has under the clause's field
/// (`left`) and under the field it refers to (`referenced`).
///
/// A clause with an operator that is not one of the six fails. So does one
/// whose side does not resolve: a missing member, a member or literal of
/// the wrong kind, a product outside the range of `i64`.
pub fn decide(filter: &Filter, left: Option<Datum>, referenced: Option<Datum>) -> (r: bool)
    ensures
        r == decision(filter@, found(left), found(referenced)),
{
    let operator = match operator_of(filter.operator) {
        Some(operator) => operator,
        None => {
            return false;
        },
    };
    let numeric = match &left {
        Some(datum) => datum.is_number(),
        None => false,
    };
    if numeric {
        let l = match &left {
            Some(datum) => scale(datum.as_i64(), filter.multiplier_field),
            None => None,
        };
        let literal = match &filter.value {
            Some(literal) => literal.as_i64(),
            None => None,
        };
        let r = match &referenced {
            Some(datum) => if filter.multiplier_value.is_some() || datum.as_i64().is_some() {
                scale(datum.as_i64(), filter.multiplier_value)
            } else {
                scale(literal, filter.multiplier_value)
            },
            None => scale(literal, filter.multiplier_value),
        };
        match (l, r) {
            (Some(l), Some(r)) => match operator {
                Operator::Equal => l == r,
                Operator::NotEqual => l != r,
                Operator::AtLeast => l >= r,
                Operator::Greater => l > r,
                Operator::AtMost => l <= r,
                Operator::Less => l < r,
            },
            _ => false,
        }
    } else {
        let l = match &left {
            Some(datum) => datum.as_str(),
            None => None,
        };
        let r = match &filter.value {
            Some(literal) => literal.as_str(),
            None => match &referenced {
                Some(datum) => datum.as_str(),
                None => None,
            },
        };
        match (l, r) {
            (Some(l), Some(r)) => match operator {
                Operator::Equal => text_eq(l, r),
                Operator::NotEqual => !text_eq(l, r),
                _ => false,
            },
            _ => false,
        }
    }
}

/// What the evaluator reads of a JSON value.
pub fn datum(value: &Value) -> (r: Datum<'_>)
    ensures
        r@ == datum_of(json_of(*value)),
{
    if value.is_number() {
        match value.as_i64() {
            Some(n) => Datum::Integer(n),
            None => Datum::Number,
        }
    } else {
        match value.as_str() {
            Some(s) => Datum::Text(s),
            None => Datum::Other,
        }
    }
}

/// What the evaluator reads of the record under a name.
pub fn read<'a>(record: &'a Value, name: Option<&str>) -> (r: Option<Datum<'a>>)
    ensures
        found(r) == reading(
            json_of(*record),
            match name {
                Some(n) => Some(n@),
                None => None,
            },
        ),
{
    match name {
        Some(n) => match member(record, n) {
            Some(child) => Some(datum(child)),
            None => None,
        },
        None => None,
    }
}

/// Whether the record satisfies one clause.
pub fn satisfies(v: &Value, filter: &Filter) -> (r: bool)
    ensures
        r == holds(json_of(*v), filter@),
{
    let left = read(v, filter.field);
    let referenced = match &filter.value_field {
        Some(name) => read(v, Some(name.as_str())),
        None => None,
    };
    decide(filter, left, referenced)
}

/// Whether the record passes the filter: every clause must hold of it.
/// The clauses are tried in order, and the first that fails settles the
/// outcome. An empty filter lets every record pass.
pub fn apply(v: &Value, filters: &[Filter]) -> (r: bool)
    ensures
        r == all_hold(json_of(*v), clauses_of(filters@)),
        filters@.len() == 0 ==> r,
{
    let mut k: usize = 0;
    while k < filters.len()
        invariant
            k <= filters.len(),
            forall|j: int| 0 <= j < k ==> holds(json_of(*v), #[trigger] clauses_of(filters@)[j]),
        decreases filters.len() - k,
    {
        assert(clauses_of(filters@)[k as int] == filters[k as int]@);
        if !satisfies(v, &filters[k]) {
            return false;
        }
        k += 1;
    }
    true
}

} // verus!
