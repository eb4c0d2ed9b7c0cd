//! Simplification of an access whose base and indexes are simplified already.

use crate::binary::{outcome_view, problem_at};
use crate::data_type::DataType;
use crate::expression::{Expr, Expression, expressions_view};
use crate::known_data::{KnownData, Value};
use crate::position::FilePosition;
use crate::problem::{
    CompileProblem,
    error_at,
    hint_at,
    problem_in_context,
    ProblemKind,
    ProblemView,
};
use crate::simplified::{Content, ContentView, SimplifiedExpression, SimplifiedView};
use vstd::prelude::*;

verus! {

/// A simplified index and where it stands.
pub type Index = (SimplifiedExpression, FilePosition);

/// The contents of a list of indexes, one by one.
pub open spec fn indexes_view(indexes: Seq<Index>) -> Seq<(SimplifiedView, FilePosition)> {
    indexes.map_values(|index: Index| (index.0@, index.1))
}

/// The problem of the given kind at `position`, met while `context` was resolved.
pub open spec fn problem_within(kind: ProblemKind, position: FilePosition, context: FilePosition) -> ProblemView {
    ProblemView { kind, descriptors: seq![error_at(position), hint_at(context)] }
}

/// What is wrong with one index by itself, if anything: its type is not
/// the integer type, or its known value is no integer or is below zero.
pub open spec fn index_fault(index: SimplifiedView) -> Option<ProblemKind> {
    if !(index.data_type is Int) {
        Some(ProblemKind::ArrayIndexNotInt)
    } else {
        match index.content {
            ContentView::Interpreted(Value::Int(value)) => if value < 0 {
                Some(ProblemKind::ArrayIndexLessThanZero { value })
            } else {
                None
            },
            ContentView::Interpreted(_) => Some(ProblemKind::ArrayIndexNotInt),
            ContentView::Modified(_) => None,
        }
    }
}

/// The first index at or after `from` with which something is wrong.
pub open spec fn first_fault(indexes: Seq<(SimplifiedView, FilePosition)>, from: int) -> Option<int>
    decreases indexes.len() - from,
{
    if from < 0 || from >= indexes.len() {
        None
    } else if index_fault(indexes[from].0) is Some {
        Some(from)
    } else {
        first_fault(indexes, from + 1)
    }
}

/// The number of indexes from `from` on that are known, up to the first that is not.
pub open spec fn known_prefix(indexes: Seq<(SimplifiedView, FilePosition)>, from: int) -> int
    decreases indexes.len() - from,
{
    if from < 0 || from >= indexes.len() {
        0
    } else if indexes[from].0.content is Interpreted {
        1 + known_prefix(indexes, from + 1)
    } else {
        0
    }
}

/// The run-time expression for an index: a literal for a known one, else what is left of it.
pub open spec fn index_expression(index: (SimplifiedView, FilePosition)) -> Expr {
    match index.0.content {
        ContentView::Interpreted(value) => Expr::Literal(value, index.1),
        ContentView::Modified(expression) => expression,
    }
}

/// The run-time expressions for the indexes from `from` on.
pub open spec fn index_expressions(indexes: Seq<(SimplifiedView, FilePosition)>, from: int) -> Seq<
    Expr,
> {
    Seq::new((indexes.len() - from) as nat, |k: int| index_expression(indexes[from + k]))
}

/// The position that covers `base` and the first `count` indexes.
pub open spec fn covered(base: FilePosition, indexes: Seq<(SimplifiedView, FilePosition)>, count: int) -> FilePosition
    decreases count,
{
    if count <= 0 {
        base
    } else {
        covered(base, indexes, count - 1).union(indexes[count - 1].1)
    }
}

/// The part of `data` that the known indexes from `from` up to `until` select,
/// or the problem with the first of them that selects nothing: it meets a
/// value that is no array, or it is not below the length of the array.
pub open spec fn selected(
    data: Value,
    indexes: Seq<(SimplifiedView, FilePosition)>,
    from: int,
    until: int,
    context: FilePosition,
) -> Result<Value, ProblemView>
    decreases until - from,
{
    if from >= until {
        Ok(data)
    } else {
        let wanted = indexes[from].0.content->Interpreted_0->Int_0;
        match data {
            Value::Array(items) => if 0 <= wanted < items.len() {
                selected(items[wanted as int], indexes, from + 1, until, context)
            } else {
                Err(
                    problem_within(
                        ProblemKind::ArrayIndexTooBig {
                            index: wanted,
                            size: items.len() as usize,
                        },
                        indexes[from].1,
                        context,
                    ),
                )
            },
            _ => Err(
                problem_within(
                    ProblemKind::TooManyIndexes { provided: indexes.len() as usize, available: from as usize },
                    indexes[from].1,
                    context,
                ),
            ),
        }
    }
}

/// What an access simplifies to.
///
/// There may be no more indexes than the type of the base has layers, and
/// each must be an integer that is not known to be below zero. Where the
/// base is known, the known indexes up to the first unknown one select a
/// part of it. Without an unknown index that part is the result. With one,
/// the part becomes a literal, which it must be fit for, and the other
/// indexes are applied to it at run time. Where the base is not known,
/// every index is applied at run time.
pub open spec fn access_outcome(
    base: SimplifiedView,
    base_position: FilePosition,
    indexes: Seq<(SimplifiedView, FilePosition)>,
    position: FilePosition,
) -> Result<SimplifiedView, ProblemView> {
    let data_type = base.data_type.unwrapped(indexes.len());
    if indexes.len() > base.data_type.rank() {
        Err(
            problem_within(
                ProblemKind::TooManyIndexes {
                    provided: indexes.len() as usize,
                    available: base.data_type.rank() as usize,
                },
                position,
                base_position,
            ),
        )
    } else {
        match first_fault(indexes, 0) {
            Some(at) => Err(
                problem_within(index_fault(indexes[at].0).unwrap(), indexes[at].1, base_position),
            ),
            None => match base.content {
                ContentView::Modified(expression) => Ok(
                    SimplifiedView {
                        content: ContentView::Modified(
                            Expr::Access {
                                base: Box::new(expression),
                                indexes: index_expressions(indexes, 0),
                                position,
                            },
                        ),
                        data_type,
                    },
                ),
                ContentView::Interpreted(data) => {
                    let known = known_prefix(indexes, 0);
                    match selected(data, indexes, 0, known, base_position) {
                        Err(problem) => Err(problem),
                        Ok(part) => if known == indexes.len() {
                            Ok(SimplifiedView { content: ContentView::Interpreted(part), data_type })
                        } else if !part.run_time() {
                            Err(
                                problem_at(
                                    ProblemKind::ValueNotRunTimeCompatible,
                                    base_position,
                                ),
                            )
                        } else {
                            Ok(
                                SimplifiedView {
                                    content: ContentView::Modified(
                                        Expr::Access {
                                            base: Box::new(
                                                Expr::Literal(
                                                    part,
                                                    covered(base_position, indexes, known),
                                                ),
                                            ),
                                            indexes: index_expressions(indexes, known),
                                            position,
                                        },
                                    ),
                                    data_type,
                                },
                            )
                        },
                    }
                },
            },
        }
    }
}

/// The number of array layers of a type.
pub fn rank_of(data_type: &DataType) -> (r: usize)
    ensures
        r == data_type.rank() || (r == usize::MAX && data_type.rank() >= usize::MAX),
    decreases *data_type,
{
    match data_type {
        DataType::Array(_, base) => {
            let inner = rank_of(base);
            if inner == usize::MAX {
                inner
            } else {
                inner + 1
            }
        },
        _ => 0,
    }
}

/// What is wrong with an index, if anything: it must be an integer, and
/// where its value is known, the value must not be negative.
pub fn check_index(index: &SimplifiedExpression) -> (r: Option<ProblemKind>)
    ensures
        r == index_fault(index@),
{
    if !matches!(index.data_type, DataType::Int) {
        return Some(ProblemKind::ArrayIndexNotInt);
    }
    match &index.content {
        Content::Interpreted(KnownData::Int(value)) => {
            if *value < 0 {
                Some(ProblemKind::ArrayIndexLessThanZero { value: *value })
            } else {
                None
            }
        },
        Content::Interpreted(_) => Some(ProblemKind::ArrayIndexNotInt),
        Content::Modified(_) => None,
    }
}

/// The run-time expression for an index: a literal for a known value, or
/// the code that was left of it.
pub fn resolve_index(index: &Index) -> (r: Expression)
    ensures
        r@ == index_expression((index.0@, index.1)),
{
    match &index.0.content {
        Content::Interpreted(value) => Expression::Literal(value.clone(), index.1),
        Content::Modified(expression) => expression.clone(),
    }
}

fn resolve_indexes(indexes: &Vec<Index>, from: usize) -> (r: Vec<Expression>)
    requires
        from <= indexes@.len(),
    ensures
        expressions_view(r@) == index_expressions(indexes_view(indexes@), from as int),
{
    let mut expressions: Vec<Expression> = Vec::new();
    let mut i: usize = from;
    while i < indexes.len()
        invariant
            from <= i <= indexes.len(),
            expressions@.len() == i - from,
            forall|k: int|
                0 <= k < i - from ==> (#[trigger] expressions@[k])@ == index_expression(
                    indexes_view(indexes@)[from + k],
                ),
        decreases indexes.len() - i,
    {
        expressions.push(resolve_index(&indexes[i]));
        i += 1;
    }
    assert(expressions_view(expressions@) =~= index_expressions(
        indexes_view(indexes@),
        from as int,
    ));
    expressions
}

/// Where nothing is wrong from `from` up to `at`, the first fault from
/// `from` on is the first fault from `at` on.
proof fn lemma_first_fault_skips(indexes: Seq<(SimplifiedView, FilePosition)>, from: int, at: int)
    requires
        0 <= from <= at <= indexes.len(),
        forall|k: int| from <= k < at ==> index_fault(#[trigger] indexes[k].0) is None,
    ensures
        first_fault(indexes, from) == first_fault(indexes, at),
    decreases at - from,
{
    if from < at {
        lemma_first_fault_skips(indexes, from + 1, at);
    }
}

/// Where the indexes from `from` up to `at` are known, the known prefix
/// from `from` on is that much longer than the one from `at` on.
proof fn lemma_known_prefix_skips(indexes: Seq<(SimplifiedView, FilePosition)>, from: int, at: int)
    requires
        0 <= from <= at <= indexes.len(),
        forall|k: int| from <= k < at ==> (#[trigger] indexes[k]).0.content is Interpreted,
    ensures
        known_prefix(indexes, from) == at - from + known_prefix(indexes, at),
    decreases at - from,
{
    if from < at {
        lemma_known_prefix_skips(indexes, from + 1, at);
    }
}

/// Simplifies an access whose base and indexes are simplified already.
#[verifier::loop_isolation(false)]
pub fn simplify_access_expression(
    simplified_base: SimplifiedExpression,
    base_position: FilePosition,
    simplified_indexes: Vec<Index>,
    position: FilePosition,
) -> (r: Result<SimplifiedExpression, CompileProblem>)
    ensures
        outcome_view(r) == access_outcome(
            simplified_base@,
            base_position,
            indexes_view(simplified_indexes@),
            position,
        ),
{
    let ghost indexes = indexes_view(simplified_indexes@);
    let count: usize = simplified_indexes.len();
    let rank: usize = rank_of(&simplified_base.data_type);
    if count > rank {
        return Err(
            problem_in_context(
                ProblemKind::TooManyIndexes { provided: count, available: rank },
                position,
                base_position,
            ),
        );
    }
    let final_type = simplified_base.data_type.clone_and_unwrap(count);
    // Which indexes are in order, and how many of the leading ones are known.
    let mut known: usize = 0;
    let mut all_known: bool = true;
    let mut i: usize = 0;
    while i < count
        invariant
            indexes == indexes_view(simplified_indexes@),
            count == simplified_indexes@.len(),
            i <= count,
            forall|k: int| 0 <= k < i ==> index_fault(#[trigger] indexes[k].0) is None,
            known <= i,
            all_known ==> known == i,
            forall|k: int| 0 <= k < known ==> (#[trigger] indexes[k]).0.content is Interpreted,
            !all_known ==> known < i && !(indexes[known as int].0.content is Interpreted),
        decreases count - i,
    {
        match check_index(&simplified_indexes[i].0) {
            Some(kind) => {
                proof {
                    lemma_first_fault_skips(indexes, 0, i as int);
                }
                return Err(problem_in_context(kind, simplified_indexes[i].1, base_position));
            },
            None => {},
        }
        if all_known {
            match &simplified_indexes[i].0.content {
                Content::Interpreted(_) => {
                    known += 1;
                },
                Content::Modified(_) => {
                    all_known = false;
                },
            }
        }
        i += 1;
    }
    proof {
        lemma_first_fault_skips(indexes, 0, count as int);
        lemma_known_prefix_skips(indexes, 0, known as int);
        assert(known_prefix(indexes, 0) == known);
    }
    let SimplifiedExpression { content, data_type: _ } = simplified_base;
    match content {
        Content::Modified(expression) => {
            let new_indexes = resolve_indexes(&simplified_indexes, 0);
            Ok(
                SimplifiedExpression {
                    content: Content::Modified(
                        Expression::Access {
                            base: Box::new(expression),
                            indexes: new_indexes,
                            position,
                        },
                    ),
                    data_type: final_type,
                },
            )
        },
        Content::Interpreted(data) => {
            let mut part: &KnownData = &data;
            let context: FilePosition = base_position;
            let mut widened: FilePosition = base_position;
            let mut j: usize = 0;
            while j < known
                invariant
                    indexes == indexes_view(simplified_indexes@),
                    count == simplified_indexes@.len(),
                    j <= known <= count,
                    forall|k: int| 0 <= k < count ==> index_fault(#[trigger] indexes[k].0) is None,
                    forall|k: int|
                        0 <= k < known ==> (#[trigger] indexes[k]).0.content is Interpreted,
                    selected(data@, indexes, 0, known as int, context) == selected(
                        part@,
                        indexes,
                        j as int,
                        known as int,
                        context,
                    ),
                    widened == covered(context, indexes, j as int),
                decreases known - j,
            {
                assert(index_fault(indexes[j as int].0) is None);
                let wanted: i64 = match &simplified_indexes[j].0.content {
                    Content::Interpreted(KnownData::Int(value)) => *value,
                    _ => 0,
                };
                assert(wanted == indexes[j as int].0.content->Interpreted_0->Int_0);
                match part {
                    KnownData::Array(items) => {
                        proof {
                            crate::known_data::lemma_array_view(*part);
                        }
                        if wanted >= 0 && (wanted as u64) < (items.len() as u64) {
                            part = &items[wanted as usize];
                        } else {
                            return Err(
                                problem_in_context(
                                    ProblemKind::ArrayIndexTooBig {
                                        index: wanted,
                                        size: items.len(),
                                    },
                                    simplified_indexes[j].1,
                                    context,
                                ),
                            );
                        }
                    },
                    _ => {
                        return Err(
                            problem_in_context(
                                ProblemKind::TooManyIndexes { provided: count, available: j },
                                simplified_indexes[j].1,
                                context,
                            ),
                        );
                    },
                }
                widened.include_other(&simplified_indexes[j].1);
                j += 1;
            }
            if known == count {
                Ok(
                    SimplifiedExpression {
                        content: Content::Interpreted(part.clone()),
                        data_type: final_type,
                    },
                )
            } else if !part.is_run_time_compatible() {
                Err(CompileProblem::new(ProblemKind::ValueNotRunTimeCompatible, context))
            } else {
                let new_indexes = resolve_indexes(&simplified_indexes, known);
                let literal = Expression::Literal(part.clone(), widened);
                assert(literal@ == Expr::Literal(part@, widened));
                Ok(
                    SimplifiedExpression {
                        content: Content::Modified(
                            Expression::Access {
                                base: Box::new(literal),
                                indexes: new_indexes,
                                position,
                            },
                        ),
                        data_type: final_type,
                    },
                )
            }
        },
    }
}

/// The run-time expression for an index in order is resolved when what
/// was left of the index is.
pub proof fn lemma_index_expression_resolved(index: (SimplifiedView, FilePosition))
    requires
        index_fault(index.0) is None,
        index.0.residual_resolved(),
    ensures
        index_expression(index).resolved(),
{
}

/// What is left of an access for run time is resolved when what was left
/// of its base and of its indexes is.
pub proof fn lemma_access_outcome_resolved(
    base: SimplifiedView,
    base_position: FilePosition,
    indexes: Seq<(SimplifiedView, FilePosition)>,
    position: FilePosition,
)
    requires
        base.residual_resolved(),
        forall|k: int| 0 <= k < indexes.len() ==> (#[trigger] indexes[k]).0.residual_resolved(),
    ensures
        match access_outcome(base, base_position, indexes, position) {
            Ok(simplified) => simplified.residual_resolved(),
            Err(_) => true,
        },
{
    if indexes.len() <= base.data_type.rank() && first_fault(indexes, 0) is None {
        assert forall|k: int| 0 <= k < indexes.len() implies index_fault(
            (#[trigger] indexes[k]).0,
        ) is None by {
            lemma_no_fault(indexes, 0, k);
        }
        let known = known_prefix(indexes, 0);
        lemma_known_prefix_bounds(indexes, 0);
        let all = index_expressions(indexes, 0);
        let rest = index_expressions(indexes, known);
        assert forall|k: int| 0 <= k < all.len() implies (#[trigger] all[k]).resolved() by {
            lemma_index_expression_resolved(indexes[k]);
        }
        assert forall|k: int| 0 <= k < rest.len() implies (#[trigger] rest[k]).resolved() by {
            lemma_index_expression_resolved(indexes[known + k]);
        }
        match base.content {
            ContentView::Modified(expression) => {
                let access = Expr::Access { base: Box::new(expression), indexes: all, position };
                assert(access.resolved());
            },
            ContentView::Interpreted(data) => {
                match selected(data, indexes, 0, known, base_position) {
                    Ok(part) => {
                        if known != indexes.len() && part.run_time() {
                            let literal = Expr::Literal(
                                part,
                                covered(base_position, indexes, known),
                            );
                            assert(literal.resolved());
                            let access = Expr::Access {
                                base: Box::new(literal),
                                indexes: rest,
                                position,
                            };
                            assert(access.resolved());
                        }
                    },
                    Err(_) => {},
                }
            },
        }
    }
}

/// The known prefix ends within the list.
pub proof fn lemma_known_prefix_bounds(indexes: Seq<(SimplifiedView, FilePosition)>, from: int)
    requires
        0 <= from <= indexes.len(),
    ensures
        0 <= known_prefix(indexes, from) <= indexes.len() - from,
    decreases indexes.len() - from,
{
    if from < indexes.len() {
        lemma_known_prefix_bounds(indexes, from + 1);
    }
}

/// Where no index from `from` on has a fault, the one at `at` has none.
pub proof fn lemma_no_fault(indexes: Seq<(SimplifiedView, FilePosition)>, from: int, at: int)
    requires
        0 <= from <= at < indexes.len(),
        first_fault(indexes, from) is None,
    ensures
        index_fault(indexes[at].0) is None,
    decreases at - from,
{
    if from < at {
        lemma_no_fault(indexes, from + 1, at);
    }
}

} // verus!
