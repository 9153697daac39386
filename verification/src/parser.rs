//! The grammar of filter expressions and its parser.
//!
//! ```text
//! expr          := clause (" AND " clause)*
//! clause        := left-operand WS operator WS right-operand
//! left-operand  := [multiplier "*"] ["."] field-name
//! right-operand := [multiplier "*"] ( "'" string "'" | integer | "." field-name )
//! ```

use crate::filter::{clauses_of, Clause, Filter, Scalar, ScalarValue};
use crate::text::{
    all_within, chars_of, cut, integer_of, parse_integer, split, split_on, texts, trim,
    trim_start, trimmed, trimmed_start, word_spans, words, Span,
};
use vstd::prelude::*;

verus! {

/// The delimiter between the clauses of an expression: ` AND `.
pub open spec fn conjunction() -> Seq<char> {
    seq![' ', 'A', 'N', 'D', ' ']
}

/// The sign between a multiplier and what it scales: `*`.
pub open spec fn times() -> Seq<char> {
    seq!['*']
}

/// The factor that an operand carries: the integer before its one `*`.
pub open spec fn operand_multiplier(token: Seq<char>) -> Option<i64> {
    let parts = split_on(token, times());
    if parts.len() == 2 {
        integer_of(parts[0])
    } else {
        None
    }
}

/// The field that a left operand names: what follows the multiplier,
/// without leading dots. An operand with a `*` has a field only where its
/// multiplier is an integer.
pub open spec fn operand_field(token: Seq<char>) -> Option<Seq<char>> {
    let parts = split_on(token, times());
    if parts.len() == 1 || operand_multiplier(token) is Some {
        Some(trimmed_start(parts.last(), '.'))
    } else {
        None
    }
}

/// What a right operand compares with, as written: what follows the
/// multiplier, without the quotes around it.
pub open spec fn operand_value(token: Seq<char>) -> Seq<char> {
    trimmed(split_on(token, times()).last(), '\'')
}

/// A value that begins with a dot names a field.
pub open spec fn is_reference(value: Seq<char>) -> bool {
    value.len() > 0 && value[0] == '.'
}

/// The literal that a value denotes: an integer where it reads as one, else
/// the string itself.
pub open spec fn literal_of(value: Seq<char>) -> Scalar {
    match integer_of(value) {
        Some(n) => Scalar::Integer(n),
        None => Scalar::Text(value),
    }
}

/// The clause that three tokens denote.
pub open spec fn clause_of(left: Seq<char>, operator: Seq<char>, right: Seq<char>) -> Clause {
    let value = operand_value(right);
    Clause {
        field: operand_field(left),
        operator,
        value: if is_reference(value) {
            None
        } else {
            Some(literal_of(value))
        },
        value_field: if is_reference(value) {
            Some(trimmed_start(value, '.'))
        } else {
            None
        },
        multiplier_field: operand_multiplier(left),
        multiplier_value: operand_multiplier(right),
    }
}

/// The clause that a piece of an expression denotes: it must consist of
/// exactly three words.
pub open spec fn clause_in(piece: Seq<char>) -> Option<Clause> {
    let tokens = words(piece);
    if tokens.len() == 3 {
        Some(clause_of(tokens[0], tokens[1], tokens[2]))
    } else {
        None
    }
}

/// The clauses that an expression denotes, in the order written; none where
/// one of its pieces is not a clause.
pub open spec fn parsed(expression: Seq<char>) -> Option<Seq<Clause>> {
    let pieces = split_on(expression, conjunction());
    if forall|k: int| 0 <= k < pieces.len() ==> clause_in(#[trigger] pieces[k]) is Some {
        Some(Seq::new(pieces.len(), |k: int| clause_in(pieces[k])->0))
    } else {
        None
    }
}

/// An operand, taken apart at its `*` signs.
#[derive(Clone, Copy, Debug, PartialEq, Eq)]
pub struct Operand {
    /// The factor, where there is exactly one `*` and an integer before it.
    pub multiplier: Option<i64>,
    /// The number of parts that the `*` signs separate.
    pub parts: usize,
    /// The last of those parts.
    pub last: Span,
}

/// Takes the operand in the window apart.
pub fn parse_operand(chars: &[char], token: Span) -> (r: Operand)
    requires
        token.within(chars@),
    ensures
        r.multiplier == operand_multiplier(token.text(chars@)),
        r.parts == split_on(token.text(chars@), times()).len(),
        r.last.within(chars@),
        r.last.text(chars@) == split_on(token.text(chars@), times()).last(),
{
    let sign: Vec<char> = vec!['*'];
    assert(sign@ =~= times());
    let parts = split(chars, token, sign.as_slice());
    let ghost pieces = split_on(token.text(chars@), times());
    assert(texts(chars@, parts@).len() == pieces.len());
    assert(texts(chars@, parts@)[0] == pieces[0]);
    assert(texts(chars@, parts@)[parts.len() - 1] == pieces.last());
    let multiplier = if parts.len() == 2 {
        parse_integer(chars, parts[0])
    } else {
        None
    };
    Operand { multiplier, parts: parts.len(), last: parts[parts.len() - 1] }
}

/// Parses the piece of `source` in the window as one clause.
pub fn parse_clause<'a>(source: &'a str, chars: &[char], piece: Span) -> (r: Option<Filter<'a>>)
    requires
        chars@ == source@,
        piece.within(chars@),
    ensures
        match r {
            Some(filter) => clause_in(piece.text(chars@)) == Some(filter@),
            None => clause_in(piece.text(chars@)) is None,
        },
{
    let tokens = word_spans(chars, piece);
    let ghost token_texts = words(piece.text(chars@));
    assert(texts(chars@, tokens@).len() == token_texts.len());
    if tokens.len() != 3 {
        return None;
    }
    assert(texts(chars@, tokens@)[0] == token_texts[0]);
    assert(texts(chars@, tokens@)[1] == token_texts[1]);
    assert(texts(chars@, tokens@)[2] == token_texts[2]);
    let left = parse_operand(chars, tokens[0]);
    let field = if left.parts == 1 || left.multiplier.is_some() {
        Some(cut(source, trim_start(chars, left.last, '.')))
    } else {
        None
    };
    let operator = cut(source, tokens[1]);
    let right = parse_operand(chars, tokens[2]);
    let value = trim(chars, right.last, '\'');
    assert(value.text(chars@) == operand_value(token_texts[2]));
    let reference = value.start < value.end && chars[value.start] == '.';
    assert(reference == is_reference(value.text(chars@)));
    let value_field = if reference {
        Some(cut(source, trim_start(chars, value, '.')).to_owned())
    } else {
        None
    };
    let literal = if reference {
        None
    } else {
        match parse_integer(chars, value) {
            Some(n) => Some(ScalarValue::Integer(n)),
            None => Some(ScalarValue::Text(cut(source, value).to_owned())),
        }
    };
    Some(
        Filter {
            field,
            operator,
            value: literal,
            value_field,
            multiplier_field: left.multiplier,
            multiplier_value: right.multiplier,
        },
    )
}

/// Parses a filter expression into its clauses, in the order written.
///
/// The expression is split at each ` AND `; every piece must consist of
/// exactly three words: an operand, an operator and an operand. Where one
/// does not, the expression is refused. The operator is taken as written,
/// whatever it is.
pub fn parse(filter_string: &str) -> (r: Option<Vec<Filter<'_>>>)
    ensures
        match r {
            Some(filters) => parsed(filter_string@) == Some(clauses_of(filters@)),
            None => parsed(filter_string@) is None,
        },
        r matches Some(filters) ==> filters@.len() >= 1 && forall|k: int|
            0 <= k < filters@.len() ==> (#[trigger] filters@[k])@.well_formed(),
{
    let chars = chars_of(filter_string);
    let delimiter: Vec<char> = vec![' ', 'A', 'N', 'D', ' '];
    assert(delimiter@ =~= conjunction());
    let whole = Span { start: 0, end: chars.len() };
    assert(whole.text(chars@) =~= filter_string@);
    let pieces = split(chars.as_slice(), whole, delimiter.as_slice());
    let ghost piece_texts = split_on(filter_string@, conjunction());
    assert(texts(chars@, pieces@).len() == piece_texts.len());
    let mut filters: Vec<Filter<'_>> = Vec::new();
    let mut k: usize = 0;
    while k < pieces.len()
        invariant
            chars@ == filter_string@,
            all_within(chars@, pieces@),
            texts(chars@, pieces@) == piece_texts,
            piece_texts == split_on(filter_string@, conjunction()),
            k <= pieces.len(),
            filters.len() == k,
            forall|j: int| 0 <= j < k ==> clause_in(#[trigger] piece_texts[j]) == Some(filters[j]@),
        decreases pieces.len() - k,
    {
        assert(texts(chars@, pieces@)[k as int] == piece_texts[k as int]);
        match parse_clause(filter_string, chars.as_slice(), pieces[k]) {
            Some(filter) => {
                filters.push(filter);
            },
            None => {
                return None;
            },
        }
        k += 1;
    }
    proof {
        assert(clauses_of(filters@) =~= Seq::new(
            piece_texts.len(),
            |k: int| clause_in(piece_texts[k])->0,
        ));
        assert forall|k: int| 0 <= k < filters@.len() implies (#[trigger] filters@[k])@
            .well_formed() by {
            assert(clause_in(piece_texts[k]) == Some(filters@[k]@));
        }
    }
    Some(filters)
}

} // verus!
