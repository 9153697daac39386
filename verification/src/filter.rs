//! The data model: one clause of a filter and the literal it may carry.

use vstd::prelude::*;

verus! {

/// A literal that a clause compares with: an integer or a string.
#[derive(Debug, PartialEq, Eq)]
pub enum ScalarValue {
    Integer(i64),
    Text(String),
}

/// What a `ScalarValue` stands for.
pub enum Scalar {
    Integer(i64),
    Text(Seq<char>),
}

impl View for ScalarValue {
    type V = Scalar;

    open spec fn view(&self) -> Scalar {
        match self {
            ScalarValue::Integer(n) => Scalar::Integer(*n),
            ScalarValue::Text(s) => Scalar::Text(s@),
        }
    }
}

impl Clone for ScalarValue {
    fn clone(&self) -> (r: Self)
        ensures
            r@ == self@,
    {
        match self {
            ScalarValue::Integer(n) => ScalarValue::Integer(*n),
            ScalarValue::Text(s) => ScalarValue::Text(s.clone()),
        }
    }
}

impl ScalarValue {
    /// The integer, where the literal is one.
    pub fn as_i64(&self) -> (r: Option<i64>)
        ensures
            r == self@.integer(),
    {
        match self {
            ScalarValue::Integer(n) => Some(*n),
            ScalarValue::Text(_) => None,
        }
    }

    /// The string, where the literal is one.
    pub fn as_str(&self) -> (r: Option<&str>)
        ensures
            r.is_some() == self@.text().is_some(),
            r matches Some(s) ==> self@.text() == Some(s@),
    {
        match self {
            ScalarValue::Integer(_) => None,
            ScalarValue::Text(s) => Some(s.as_str()),
        }
    }
}

impl Scalar {
    /// The integer, where the literal is one.
    pub open spec fn integer(self) -> Option<i64> {
        match self {
            Scalar::Integer(n) => Some(n),
            Scalar::Text(_) => None,
        }
    }

    /// The string, where the literal is one.
    pub open spec fn text(self) -> Option<Seq<char>> {
        match self {
            Scalar::Integer(_) => None,
            Scalar::Text(s) => Some(s),
        }
    }
}

/// One atomic condition of a filter: a field of the record, an operator and
/// what to compare with. The clauses of a filter are combined with AND.
#[derive(Debug, PartialEq, Eq)]
pub struct Filter<'a> {
    /// The name of the field that is tested.
    pub field: Option<&'a str>,
    /// The operator, as written.
    pub operator: &'a str,
    /// The literal to compare with.
    pub value: Option<ScalarValue>,
    /// The name of the field to compare with.
    pub value_field: Option<String>,
    /// The factor for the tested field's number.
    pub multiplier_field: Option<i64>,
    /// The factor for the number that is compared with.
    pub multiplier_value: Option<i64>,
}

/// What a `Filter` stands for.
pub struct Clause {
    pub field: Option<Seq<char>>,
    pub operator: Seq<char>,
    pub value: Option<Scalar>,
    pub value_field: Option<Seq<char>>,
    pub multiplier_field: Option<i64>,
    pub multiplier_value: Option<i64>,
}

impl Clause {
    /// At most one of literal and field reference governs the right-hand side.
    pub open spec fn well_formed(self) -> bool {
        !(self.value is Some && self.value_field is Some)
    }

    /// The clause that has the operator alone.
    pub open spec fn bare(operator: Seq<char>) -> Clause {
        Clause {
            field: None,
            operator,
            value: None,
            value_field: None,
            multiplier_field: None,
            multiplier_value: None,
        }
    }
}

impl<'a> View for Filter<'a> {
    type V = Clause;

    open spec fn view(&self) -> Clause {
        Clause {
            field: match self.field {
                Some(name) => Some(name@),
                None => None,
            },
            operator: self.operator@,
            value: match self.value {
                Some(literal) => Some(literal@),
                None => None,
            },
            value_field: match self.value_field {
                Some(name) => Some(name@),
                None => None,
            },
            multiplier_field: self.multiplier_field,
            multiplier_value: self.multiplier_value,
        }
    }
}

/// What a list of filters stands for.
pub open spec fn clauses_of(filters: Seq<Filter>) -> Seq<Clause> {
    Seq::new(filters.len(), |k: int| filters[k]@)
}

impl<'a> Filter<'a> {
    /// A clause with the given operator and nothing else set.
    pub fn new(operator: &'a str) -> (r: Self)
        ensures
            r@ == Clause::bare(operator@),
            r@.well_formed(),
    {
        Filter {
            field: None,
            operator,
            value: None,
            value_field: None,
            multiplier_field: None,
            multiplier_value: None,
        }
    }

    /// The clause with `name` as the field that is tested.
    pub fn with_field(self, name: &'a str) -> (r: Self)
        ensures
            r@ == (Clause { field: Some(name@), ..self@ }),
    {
        Filter { field: Some(name), ..self }
    }

    /// The clause with a literal on its right-hand side, and no field
    /// reference.
    pub fn with_literal(self, literal: ScalarValue) -> (r: Self)
        ensures
            r@ == (Clause { value: Some(literal@), value_field: None, ..self@ }),
            r@.well_formed(),
    {
        Filter { value: Some(literal), value_field: None, ..self }
    }

    /// The clause with a field reference on its right-hand side, and no
    /// literal.
    pub fn with_reference(self, name: String) -> (r: Self)
        ensures
            r@ == (Clause { value: None, value_field: Some(name@), ..self@ }),
            r@.well_formed(),
    {
        Filter { value: None, value_field: Some(name), ..self }
    }

    /// The clause with the given factors for its two sides.
    pub fn with_multipliers(self, field: Option<i64>, value: Option<i64>) -> (r: Self)
        ensures
            r@ == (Clause { multiplier_field: field, multiplier_value: value, ..self@ }),
            r@.well_formed() == self@.well_formed(),
    {
        Filter { multiplier_field: field, multiplier_value: value, ..self }
    }
}

impl<'a> Clone for Filter<'a> {
    fn clone(&self) -> (r: Self)
        ensures
            r@ == self@,
    {
        Filter {
            field: self.field,
            operator: self.operator,
            value: match &self.value {
                Some(literal) => Some(literal.clone()),
                None => None,
            },
            value_field: match &self.value_field {
                Some(name) => Some(name.clone()),
                None => None,
            },
            multiplier_field: self.multiplier_field,
            multiplier_value: self.multiplier_value,
        }
    }
}

impl<'a> Default for Filter<'a> {
    /// The clause with the operator `=` and nothing else set.
    fn default() -> (r: Self)
        ensures
            r@ == Clause::bare("="@),
            r@.well_formed(),
    {
        Filter::new("=")
    }
}

} // verus!
