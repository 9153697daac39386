//! Laws of the grammar and of the evaluator, each proved from the
//! definitions that the contracts of `parse` and `apply` use.

use crate::eval::{
    all_hold, decision, holds, integers_compare, numeric_mode, operator_named, right_integer,
    scaled, DatumView, Operator,
};
use crate::filter::{Clause, Scalar};
use crate::parser::{
    clause_in, clause_of, conjunction, operand_field, operand_multiplier, operand_value, parsed,
    times,
};
use crate::record::Json;
use crate::text::{
    first_match, integer_of, is_whitespace, lemma_first_match_from, lemma_word_len, occurs_at,
    split_on, trimmed_end, trimmed_start, word_len, words,
};
use vstd::prelude::*;

verus! {

/// `pat` occurs nowhere in `s`.
pub open spec fn free_of(s: Seq<char>, pat: Seq<char>) -> bool {
    forall|j: int| !occurs_at(s, pat, j)
}

/// A text in which the delimiter does not occur is its own single piece.
pub proof fn law_split_without_delimiter(s: Seq<char>, pat: Seq<char>)
    requires
        free_of(s, pat),
    ensures
        split_on(s, pat) == seq![s],
{
    lemma_first_match_from(s, pat, 0);
}

/// Splitting cuts at the first delimiter: where no delimiter begins inside
/// `a`, the pieces of `a`, delimiter, `b` are `a` and then the pieces of `b`.
pub proof fn law_split_at_first_delimiter(a: Seq<char>, b: Seq<char>, pat: Seq<char>)
    requires
        pat.len() > 0,
        forall|j: int| 0 <= j < a.len() ==> !occurs_at(a + pat + b, pat, j),
    ensures
        split_on(a + pat + b, pat) == seq![a] + split_on(b, pat),
{
    let s = a + pat + b;
    let at = a.len() as int;
    lemma_first_match_from(s, pat, 0);
    assert(s.subrange(at, at + pat.len()) =~= pat);
    assert(occurs_at(s, pat, at));
    assert(first_match(s, pat) == Some(at));
    assert(s.take(at) =~= a);
    assert(s.skip(at + pat.len()) =~= b);
}

/// There is always at least one piece.
pub proof fn law_split_is_never_empty(s: Seq<char>, pat: Seq<char>)
    ensures
        split_on(s, pat).len() >= 1,
{
}

/// A non-empty run of characters without whitespace.
pub open spec fn is_word(w: Seq<char>) -> bool {
    w.len() > 0 && forall|j: int| 0 <= j < w.len() ==> !is_whitespace(#[trigger] w[j])
}

/// Every word is non-empty and holds no whitespace.
pub proof fn law_words_hold_no_whitespace(s: Seq<char>)
    ensures
        forall|k: int| 0 <= k < words(s).len() ==> is_word(#[trigger] words(s)[k]),
    decreases s.len(),
{
    if s.len() == 0 {
        assert(words(s).len() == 0);
    } else if is_whitespace(s[0]) {
        law_words_hold_no_whitespace(s.drop_first());
        assert(words(s) == words(s.drop_first()));
    } else {
        let n = word_len(s) as int;
        lemma_word_len(s);
        law_words_hold_no_whitespace(s.skip(n));
        assert(words(s) == seq![s.take(n)] + words(s.skip(n)));
        let head = s.take(n);
        let tail = words(s.skip(n));
        assert(is_word(head)) by {
            assert forall|j: int| 0 <= j < head.len() implies !is_whitespace(
                #[trigger] head[j],
            ) by {
                assert(head[j] == s[j]);
            }
        }
        assert forall|k: int| 0 <= k < words(s).len() implies is_word(#[trigger] words(s)[k]) by {
            if k > 0 {
                assert(words(s)[k] == tail[k - 1]);
            }
        }
    }
}

/// An operand without `*` has no multiplier, and names the field that is
/// the operand itself without its leading dots.
pub proof fn law_operand_without_multiplier(token: Seq<char>)
    requires
        free_of(token, times()),
    ensures
        operand_multiplier(token) is None,
        operand_field(token) == Some(trimmed_start(token, '.')),
{
    law_split_without_delimiter(token, times());
}

/// An operand with one `*` has the integer before it as its multiplier and
/// names the field after it; where there is no integer before the `*`, it
/// has neither multiplier nor field.
pub proof fn law_operand_with_multiplier(factor: Seq<char>, name: Seq<char>)
    requires
        free_of(factor, times()),
        free_of(name, times()),
    ensures
        operand_multiplier(factor + times() + name) == integer_of(factor),
        operand_field(factor + times() + name) == if integer_of(factor) is Some {
            Some(trimmed_start(name, '.'))
        } else {
            None
        },
{
    let token = factor + times() + name;
    assert forall|j: int| 0 <= j < factor.len() implies !occurs_at(token, times(), j) by {
        if occurs_at(token, times(), j) {
            assert(token.subrange(j, j + 1)[0] == '*');
            assert(factor.subrange(j, j + 1) =~= times());
            assert(occurs_at(factor, times(), j));
        }
    }
    law_split_at_first_delimiter(factor, name, times());
    law_split_without_delimiter(name, times());
    assert(split_on(token, times()) =~= seq![factor, name]);
}

/// A right operand that is a dot and a name refers to the field of that
/// name and carries no literal.
pub proof fn law_reference_on_the_right(left: Seq<char>, operator: Seq<char>, name: Seq<char>)
    requires
        free_of(name, times()),
        name.len() == 0 || name.last() != '\'',
    ensures
        clause_of(left, operator, seq!['.'] + name).value_field == Some(trimmed_start(name, '.')),
        clause_of(left, operator, seq!['.'] + name).value is None,
        clause_of(left, operator, seq!['.'] + name).multiplier_value is None,
{
    let token = seq!['.'] + name;
    assert forall|j: int| !occurs_at(token, times(), j) by {
        if occurs_at(token, times(), j) {
            assert(token.subrange(j, j + 1)[0] == '*');
            assert(j >= 1);
            assert(name.subrange(j - 1, j) =~= times());
            assert(occurs_at(name, times(), j - 1));
        }
    }
    law_split_without_delimiter(token, times());
    assert(split_on(token, times()).last() == token);
    assert(trimmed_start(token, '\'') == token);
    assert(token.last() != '\'');
    assert(trimmed_end(token, '\'') == token);
    assert(operand_value(token) == token);
    assert(token.drop_first() =~= name);
}

/// Every clause that the grammar yields has either a literal or a field
/// reference on its right-hand side, never both and never neither.
pub proof fn law_clause_has_one_right_side(
    left: Seq<char>,
    operator: Seq<char>,
    right: Seq<char>,
)
    ensures
        clause_of(left, operator, right).value is Some != clause_of(
            left,
            operator,
            right,
        ).value_field is Some,
        clause_of(left, operator, right).well_formed(),
        clause_of(left, operator, right).operator == operator,
{
}

/// Every clause of a parsed expression is well formed, and there is at
/// least one.
pub proof fn law_parsed_is_well_formed(expression: Seq<char>)
    requires
        parsed(expression) is Some,
    ensures
        parsed(expression)->0.len() >= 1,
        forall|k: int|
            0 <= k < parsed(expression)->0.len() ==> (#[trigger] parsed(
                expression,
            )->0[k]).well_formed(),
{
    let pieces = split_on(expression, conjunction());
    law_split_is_never_empty(expression, conjunction());
    assert forall|k: int| 0 <= k < parsed(expression)->0.len() implies (#[trigger] parsed(
        expression,
    )->0[k]).well_formed() by {
        assert(clause_in(pieces[k]) is Some);
    }
}

/// An expression is parsed clause by clause: where no ` AND ` begins inside
/// `first`, the clauses of `first AND rest` are the clause of `first` and
/// then the clauses of `rest`, and there are none where either is refused.
pub proof fn law_parsed_clause_by_clause(first: Seq<char>, rest: Seq<char>)
    requires
        forall|j: int|
            0 <= j < first.len() ==> !occurs_at(first + conjunction() + rest, conjunction(), j),
    ensures
        parsed(first + conjunction() + rest) == match (clause_in(first), parsed(rest)) {
            (Some(clause), Some(others)) => Some(seq![clause] + others),
            _ => None,
        },
{
    let whole = first + conjunction() + rest;
    law_split_at_first_delimiter(first, rest, conjunction());
    let pieces = split_on(whole, conjunction());
    let tail = split_on(rest, conjunction());
    assert(pieces[0] == first);
    assert forall|k: int| 0 <= k < tail.len() implies pieces[k + 1] == #[trigger] tail[k] by {}
    if clause_in(first) is Some && parsed(rest) is Some {
        assert forall|k: int| 0 <= k < pieces.len() implies clause_in(
            #[trigger] pieces[k],
        ) is Some by {
            if k > 0 {
                assert(pieces[k] == tail[k - 1]);
            }
        }
        assert(parsed(whole)->0 =~= seq![clause_in(first)->0] + parsed(rest)->0);
    } else if clause_in(first) is None {
        assert(clause_in(pieces[0]) is None);
    } else {
        let k = choose|k: int| 0 <= k < tail.len() && !(clause_in(#[trigger] tail[k]) is Some);
        assert(pieces[k + 1] == tail[k]);
        assert(!(clause_in(pieces[k + 1]) is Some));
    }
}

/// An expression without ` AND ` is a single clause.
pub proof fn law_parsed_single_clause(expression: Seq<char>)
    requires
        free_of(expression, conjunction()),
    ensures
        parsed(expression) == match clause_in(expression) {
            Some(clause) => Some(seq![clause]),
            None => None,
        },
{
    law_split_without_delimiter(expression, conjunction());
    let pieces = split_on(expression, conjunction());
    assert(pieces[0] == expression);
    if clause_in(expression) is Some {
        assert(parsed(expression)->0 =~= seq![clause_in(expression)->0]);
    }
}

/// The empty filter lets every record pass.
pub proof fn law_empty_filter_passes(record: Json)
    ensures
        all_hold(record, Seq::<Clause>::empty()),
{
}

/// A filter is the conjunction of its clauses: a record passes two lists of
/// clauses put together exactly when it passes each.
pub proof fn law_conjunction(record: Json, a: Seq<Clause>, b: Seq<Clause>)
    ensures
        all_hold(record, a + b) == (all_hold(record, a) && all_hold(record, b)),
{
    let both = a + b;
    if all_hold(record, both) {
        assert forall|k: int| 0 <= k < a.len() implies holds(record, #[trigger] a[k]) by {
            assert(both[k] == a[k]);
        }
        assert forall|k: int| 0 <= k < b.len() implies holds(record, #[trigger] b[k]) by {
            assert(both[a.len() + k] == b[k]);
        }
    }
    if all_hold(record, a) && all_hold(record, b) {
        assert forall|k: int| 0 <= k < both.len() implies holds(record, #[trigger] both[k]) by {
            if k < a.len() {
                assert(both[k] == a[k]);
            } else {
                assert(both[k] == b[k - a.len()]);
            }
        }
    }
}

/// One clause that fails makes the filter fail, whatever the other clauses
/// are and wherever it stands.
pub proof fn law_failing_clause_settles(record: Json, clauses: Seq<Clause>, k: int)
    requires
        0 <= k < clauses.len(),
        !holds(record, clauses[k]),
    ensures
        !all_hold(record, clauses),
{
}

/// The order of the clauses does not change the outcome.
pub proof fn law_order_is_irrelevant(record: Json, a: Seq<Clause>, b: Seq<Clause>)
    ensures
        all_hold(record, a + b) == all_hold(record, b + a),
{
    law_conjunction(record, a, b);
    law_conjunction(record, b, a);
}

/// The mode follows the tested member alone: where it is a number the
/// clause is decided on integers, under the multipliers.
pub proof fn law_numbers_are_compared_as_integers(
    clause: Clause,
    left: DatumView,
    referenced: Option<DatumView>,
)
    requires
        left.is_number(),
    ensures
        numeric_mode(Some(left)),
        decision(clause, Some(left), referenced) == match (
            operator_named(clause.operator),
            scaled(left.integer(), clause.multiplier_field),
            right_integer(clause, referenced),
        ) {
            (Some(operator), Some(l), Some(r)) => integers_compare(operator, l, r),
            _ => false,
        },
{
}

/// Where the tested member is no number, the multipliers play no part.
pub proof fn law_strings_ignore_multipliers(
    clause: Clause,
    left: Option<DatumView>,
    referenced: Option<DatumView>,
    multiplier_field: Option<i64>,
    multiplier_value: Option<i64>,
)
    requires
        !numeric_mode(left),
    ensures
        decision(clause, left, referenced) == decision(
            Clause { multiplier_field, multiplier_value, ..clause },
            left,
            referenced,
        ),
{
}

/// A factor multiplies: an integer under a factor is the product where
/// that lies within the range of `i64`, and no integer where it does not;
/// without a factor it is the integer itself.
pub proof fn law_scaled_is_the_product(value: i64, factor: i64)
    ensures
        scaled(Some(value), None) == Some(value),
        i64::MIN <= value * factor <= i64::MAX ==> scaled(Some(value), Some(factor)) is Some
            && scaled(Some(value), Some(factor))->0 == value * factor,
        !(i64::MIN <= value * factor <= i64::MAX) ==> scaled(Some(value), Some(factor)) is None,
{
}

/// Two integer members are compared under their multipliers: each side is
/// its member times its factor, or the member itself where no factor is
/// given.
pub proof fn law_multipliers_scale_integers(clause: Clause, left: i64, right: i64)
    ensures
        decision(clause, Some(DatumView::Integer(left)), Some(DatumView::Integer(right))) == match (
            operator_named(clause.operator),
            scaled(Some(left), clause.multiplier_field),
            scaled(Some(right), clause.multiplier_value),
        ) {
            (Some(operator), Some(l), Some(r)) => integers_compare(operator, l, r),
            _ => false,
        },
{
}

/// A literal under a multiplier, with no field referred to, is compared as
/// the product.
pub proof fn law_multiplier_scales_literal(clause: Clause, left: i64, literal: i64)
    requires
        clause.value == Some(Scalar::Integer(literal)),
        clause.value_field is None,
    ensures
        decision(clause, Some(DatumView::Integer(left)), None) == match (
            operator_named(clause.operator),
            scaled(Some(left), clause.multiplier_field),
            scaled(Some(literal), clause.multiplier_value),
        ) {
            (Some(operator), Some(l), Some(r)) => integers_compare(operator, l, r),
            _ => false,
        },
{
}

/// A string member never compares with an integer literal: the clause
/// fails, whatever the operator.
pub proof fn law_string_against_integer_fails(
    clause: Clause,
    left: Seq<char>,
    literal: i64,
    referenced: Option<DatumView>,
)
    requires
        clause.value == Some(Scalar::Integer(literal)),
    ensures
        !decision(clause, Some(DatumView::Text(left)), referenced),
{
}

/// A number member never compares with a string literal: the clause fails,
/// whatever the operator.
pub proof fn law_number_against_string_fails(clause: Clause, left: DatumView, literal: Seq<char>)
    requires
        left.is_number(),
        clause.value == Some(Scalar::Text(literal)),
        clause.value_field is None,
    ensures
        !decision(clause, Some(left), None),
{
}

/// Two members of different kinds never compare.
pub proof fn law_members_of_different_kinds_fail(clause: Clause, left: DatumView, right: DatumView)
    requires
        clause.value is None,
        left.is_number() != right is Integer || left is Text != right is Text,
    ensures
        !decision(clause, Some(left), Some(right)),
{
}

/// A member that is neither an integer within the range of `i64` nor a
/// string fails every clause that tests it.
pub proof fn law_other_kinds_fail(clause: Clause, left: DatumView, referenced: Option<DatumView>)
    requires
        !(left is Integer),
        !(left is Text),
    ensures
        !decision(clause, Some(left), referenced),
{
}

/// A clause whose operator is not one of the six fails on every record.
pub proof fn law_unknown_operator_fails(record: Json, clause: Clause)
    requires
        operator_named(clause.operator) is None,
    ensures
        !holds(record, clause),
{
}

/// A clause fails where the record lacks the tested member, and where the
/// clause names no field.
pub proof fn law_missing_member_fails(record: Json, clause: Clause)
    requires
        clause.field matches Some(name) ==> record.member(name) is None,
    ensures
        !holds(record, clause),
{
}

/// Only equality and inequality are defined on strings.
pub proof fn law_strings_know_equality_only(
    clause: Clause,
    left: Seq<char>,
    referenced: Option<DatumView>,
)
    requires
        operator_named(clause.operator) != Some(Operator::Equal),
        operator_named(clause.operator) != Some(Operator::NotEqual),
    ensures
        !decision(clause, Some(DatumView::Text(left)), referenced),
{
}

} // verus!
