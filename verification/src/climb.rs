//! Grouping of a chain of operands and operators by precedence and associativity.

use crate::expression::{Expr, Expression, expressions_view};
use crate::operator::BinaryOperator;
use crate::precedence::{entry, Operator};
use vstd::prelude::*;

verus! {

/// How a chain `operand operator operand ... operand` is grouped.
///
/// A leaf is the operand with that index. A node is the operator with that
/// index, which stands between the operands with that index and the next,
/// applied to what stands to its left and to its right.
#[derive(Debug, PartialEq, Eq)]
pub enum Tree {
    Leaf(usize),
    Node(Box<Tree>, usize, Box<Tree>),
}

/// Whether `child`, as the root of the left operand of `parent`, may stay
/// there: it binds more tightly, or as tightly where they group to the left.
pub open spec fn tighter_left(child: Operator, parent: Operator) -> bool {
    child.precedence > parent.precedence || (child.precedence == parent.precedence
        && parent.left_assoc)
}

/// Whether `child`, as the root of the right operand of `parent`, may stay
/// there: it binds more tightly, or as tightly where they group to the right.
pub open spec fn tighter_right(child: Operator, parent: Operator) -> bool {
    child.precedence > parent.precedence || (child.precedence == parent.precedence
        && !parent.left_assoc)
}

impl Tree {
    /// The tree groups exactly the operands from `first` to `last`, in their order.
    pub open spec fn covers(self, first: int, last: int) -> bool
        decreases self,
    {
        match self {
            Tree::Leaf(index) => first == index && last == index,
            Tree::Node(left, index, right) => {
                &&& first <= index < last
                &&& left.covers(first, index as int)
                &&& right.covers(index + 1, last)
            },
        }
    }

    /// Every operator of the tree has operands that bind at least as
    /// tightly as it does, and group its way where they bind as tightly.
    pub open spec fn nested(self, operators: Seq<Operator>) -> bool
        decreases self,
    {
        match self {
            Tree::Leaf(_) => true,
            Tree::Node(left, index, right) => {
                &&& left.nested(operators)
                &&& right.nested(operators)
                &&& match *left {
                    Tree::Node(_, child, _) => tighter_left(
                        operators[child as int],
                        operators[index as int],
                    ),
                    Tree::Leaf(_) => true,
                }
                &&& match *right {
                    Tree::Node(_, child, _) => tighter_right(
                        operators[child as int],
                        operators[index as int],
                    ),
                    Tree::Leaf(_) => true,
                }
            },
        }
    }

    /// The expression that the tree makes of the operands: each node is a
    /// binary operation at the position that covers both of its operands.
    pub open spec fn built(self, operands: Seq<Expr>, operators: Seq<BinaryOperator>) -> Expr
        decreases self,
    {
        match self {
            Tree::Leaf(index) => operands[index as int],
            Tree::Node(left, index, right) => Expr::BinaryOperation(
                Box::new(left.built(operands, operators)),
                operators[index as int],
                Box::new(right.built(operands, operators)),
                left.built(operands, operators).position().union(
                    right.built(operands, operators).position(),
                ),
            ),
        }
    }
}

/// Operators that bind as tightly group to the same side.
pub open spec fn consistent(operators: Seq<Operator>) -> bool {
    forall|i: int, j: int|
        0 <= i < operators.len() && 0 <= j < operators.len() && (#[trigger] operators[i]).precedence
            == (#[trigger] operators[j]).precedence ==> operators[i].left_assoc
            == operators[j].left_assoc
}

/// In a tree that is nested, no operator binds less tightly than the root.
pub proof fn lemma_root_binds_least(tree: Tree, operators: Seq<Operator>, first: int, last: int, index: int)
    requires
        tree.covers(first, last),
        tree.nested(operators),
        first <= index < last,
    ensures
        tree is Node,
        operators[index].precedence >= operators[tree->Node_1 as int].precedence,
    decreases tree,
{
    match tree {
        Tree::Leaf(_) => {},
        Tree::Node(left, root, right) => {
            if index < root {
                lemma_root_binds_least(*left, operators, first, root as int, index);
            } else if index > root {
                lemma_root_binds_least(*right, operators, root + 1, last, index);
            }
        },
    }
}

/// There is one way to group a chain: two nested trees that cover the
/// same operands are the same tree.
pub proof fn lemma_grouping_is_unique(one: Tree, other: Tree, operators: Seq<Operator>, first: int, last: int)
    requires
        consistent(operators),
        0 <= first,
        last <= operators.len(),
        one.covers(first, last),
        other.covers(first, last),
        one.nested(operators),
        other.nested(operators),
    ensures
        one == other,
    decreases one,
{
    match (one, other) {
        (Tree::Node(left, root, right), Tree::Node(other_left, other_root, other_right)) => {
            if root < other_root {
                lemma_root_binds_least(*right, operators, root + 1, last, other_root as int);
                lemma_root_binds_least(*other_left, operators, first, other_root as int, root as int);
                assert(operators[root as int].precedence == operators[other_root as int].precedence);
            } else if other_root < root {
                lemma_root_binds_least(*other_right, operators, other_root + 1, last, root as int);
                lemma_root_binds_least(*left, operators, first, root as int, other_root as int);
                assert(operators[root as int].precedence == operators[other_root as int].precedence);
            } else {
                lemma_grouping_is_unique(*left, *other_left, operators, first, root as int);
                lemma_grouping_is_unique(*right, *other_right, operators, root + 1, last);
            }
        },
        _ => {},
    }
}

/// The entries of the table are consistent.
pub proof fn lemma_entries_are_consistent(operators: Seq<Operator>)
    requires
        all_entries(operators),
    ensures
        consistent(operators),
{
    assert forall|i: int, j: int|
        0 <= i < operators.len() && 0 <= j < operators.len() && (#[trigger] operators[i]).precedence
            == (#[trigger] operators[j]).precedence implies operators[i].left_assoc
        == operators[j].left_assoc by {
        assert(operators[i] == entry(operators[i].id));
        assert(operators[j] == entry(operators[j].id));
    }
}

/// Every operator is an entry of the table.
pub open spec fn all_entries(operators: Seq<Operator>) -> bool {
    forall|i: int| 0 <= i < operators.len() ==> #[trigger] operators[i] == entry(operators[i].id)
}

/// Whether an operator is an entry of the table.
pub fn is_entry(operator: &Operator) -> (r: bool)
    ensures
        r == (*operator == entry(operator.id)),
{
    let expected = crate::precedence::operator(operator.id);
    expected.precedence == operator.precedence && expected.left_assoc == operator.left_assoc
}

/// Groups the operands from `start` on for as long as the operators bind
/// at least as tightly as `min`.
fn climb(operators: &Vec<Operator>, start: usize, min: u32) -> (r: (Tree, usize))
    requires
        start <= operators@.len(),
        all_entries(operators@),
    ensures
        start <= r.1 <= operators@.len(),
        r.0.covers(start as int, r.1 as int),
        r.0.nested(operators@),
        r.1 < operators@.len() ==> operators@[r.1 as int].precedence < min,
        r.0 matches Tree::Node(_, root, _) ==> operators@[root as int].precedence >= min,
    decreases operators@.len() - start,
{
    let mut tree = Tree::Leaf(start);
    let mut next: usize = start;
    while next < operators.len() && operators[next].precedence >= min
        invariant
            all_entries(operators@),
            start <= next <= operators@.len(),
            tree.covers(start as int, next as int),
            tree.nested(operators@),
            tree matches Tree::Node(_, root, _) ==> {
                &&& root < operators@.len()
                &&& operators@[root as int].precedence >= min
                &&& next < operators@.len() ==> tighter_left(
                    operators@[root as int],
                    operators@[next as int],
                )
            },
        decreases operators@.len() - next,
    {
        let operator = operators[next];
        assert(operator == entry(operator.id));
        let next_min: u32 = if operator.left_assoc {
            operator.precedence + 1
        } else {
            operator.precedence
        };
        let (right, after) = climb(operators, next + 1, next_min);
        proof {
            if after < operators@.len() {
                let following = operators@[after as int];
                assert(following == entry(following.id));
            }
        }
        tree = Tree::Node(Box::new(tree), next, Box::new(right));
        next = after;
    }
    (tree, next)
}

/// Groups a chain of operands by the precedence and associativity of the
/// operators between them. There is one operand more than there are
/// operators. `None` where an operator is no entry of the table.
pub fn precedence_tree(operators: &Vec<Operator>) -> (r: Option<Tree>)
    ensures
        r is Some == all_entries(operators@),
        r is Some ==> r.unwrap().covers(0, operators@.len() as int) && r.unwrap().nested(
            operators@,
        ),
{
    let mut i: usize = 0;
    while i < operators.len()
        invariant
            i <= operators.len(),
            forall|k: int| 0 <= k < i ==> #[trigger] operators@[k] == entry(operators@[k].id),
        decreases operators.len() - i,
    {
        if !is_entry(&operators[i]) {
            return None;
        }
        i += 1;
    }
    let (tree, next) = climb(operators, 0, 0);
    Some(tree)
}

/// The operator of expressions that an operator of the syntax stands for.
/// The integer division has none.
pub open spec fn binary_operator_of(id: u32) -> Option<BinaryOperator> {
    if id == 1 {
        Some(BinaryOperator::Add)
    } else if id == 2 {
        Some(BinaryOperator::Subtract)
    } else if id == 3 {
        Some(BinaryOperator::Multiply)
    } else if id == 4 {
        Some(BinaryOperator::Divide)
    } else if id == 6 {
        Some(BinaryOperator::Modulo)
    } else if id == 7 {
        Some(BinaryOperator::Power)
    } else if id == 8 {
        Some(BinaryOperator::LessThanOrEqual)
    } else if id == 9 {
        Some(BinaryOperator::LessThan)
    } else if id == 10 {
        Some(BinaryOperator::GreaterThanOrEqual)
    } else if id == 11 {
        Some(BinaryOperator::GreaterThan)
    } else if id == 12 {
        Some(BinaryOperator::Equal)
    } else if id == 13 {
        Some(BinaryOperator::NotEqual)
    } else if id == 14 {
        Some(BinaryOperator::BAnd)
    } else if id == 15 {
        Some(BinaryOperator::BXor)
    } else if id == 16 {
        Some(BinaryOperator::BOr)
    } else if id == 17 {
        Some(BinaryOperator::And)
    } else if id == 18 {
        Some(BinaryOperator::Xor)
    } else if id == 19 {
        Some(BinaryOperator::Or)
    } else {
        None
    }
}

/// Finds the operator of expressions that an operator of the syntax stands for.
pub fn resolve_operator(operator: &Operator) -> (r: Option<BinaryOperator>)
    ensures
        r == binary_operator_of(operator.id),
{
    let id: u32 = operator.id;
    if id == 1 {
        Some(BinaryOperator::Add)
    } else if id == 2 {
        Some(BinaryOperator::Subtract)
    } else if id == 3 {
        Some(BinaryOperator::Multiply)
    } else if id == 4 {
        Some(BinaryOperator::Divide)
    } else if id == 6 {
        Some(BinaryOperator::Modulo)
    } else if id == 7 {
        Some(BinaryOperator::Power)
    } else if id == 8 {
        Some(BinaryOperator::LessThanOrEqual)
    } else if id == 9 {
        Some(BinaryOperator::LessThan)
    } else if id == 10 {
        Some(BinaryOperator::GreaterThanOrEqual)
    } else if id == 11 {
        Some(BinaryOperator::GreaterThan)
    } else if id == 12 {
        Some(BinaryOperator::Equal)
    } else if id == 13 {
        Some(BinaryOperator::NotEqual)
    } else if id == 14 {
        Some(BinaryOperator::BAnd)
    } else if id == 15 {
        Some(BinaryOperator::BXor)
    } else if id == 16 {
        Some(BinaryOperator::BOr)
    } else if id == 17 {
        Some(BinaryOperator::And)
    } else if id == 18 {
        Some(BinaryOperator::Xor)
    } else if id == 19 {
        Some(BinaryOperator::Or)
    } else {
        None
    }
}

/// The operators of expressions that a list of operators of the syntax
/// stand for, or `None` where one of them stands for none.
pub fn resolve_operators(operators: &Vec<Operator>) -> (r: Option<Vec<BinaryOperator>>)
    ensures
        r is Some == forall|i: int|
            0 <= i < operators@.len() ==> binary_operator_of(
                (#[trigger] operators@[i]).id,
            ) is Some,
        r is Some ==> r.unwrap()@.len() == operators@.len() && forall|i: int|
            0 <= i < operators@.len() ==> Some(#[trigger] r.unwrap()@[i]) == binary_operator_of(
                operators@[i].id,
            ),
{
    let mut resolved: Vec<BinaryOperator> = Vec::new();
    let mut i: usize = 0;
    while i < operators.len()
        invariant
            i <= operators.len(),
            resolved@.len() == i,
            forall|k: int|
                0 <= k < i ==> Some(#[trigger] resolved@[k]) == binary_operator_of(
                    operators@[k].id,
                ),
            forall|k: int|
                0 <= k < i ==> binary_operator_of((#[trigger] operators@[k]).id) is Some,
        decreases operators.len() - i,
    {
        match resolve_operator(&operators[i]) {
            Some(operator) => {
                resolved.push(operator);
            },
            None => {
                return None;
            },
        }
        i += 1;
    }
    Some(resolved)
}

/// Makes the expression that a tree makes of the operands.
pub fn build_expression(tree: &Tree, operands: &Vec<Expression>, operators: &Vec<BinaryOperator>) -> (r:
    Expression)
    requires
        exists|first: int, last: int|
            0 <= first && last < operands@.len() && last <= operators@.len() && tree.covers(
                first,
                last,
            ),
    ensures
        r@ == tree.built(expressions_view(operands@), operators@),
    decreases *tree,
{
    match tree {
        Tree::Leaf(index) => {
            assert(expressions_view(operands@)[*index as int] == operands@[*index as int]@);
            (&operands[*index]).clone()
        },
        Tree::Node(left, index, right) => {
            let ghost (first, last) = choose|first: int, last: int|
                0 <= first && last < operands@.len() && last <= operators@.len() && tree.covers(
                    first,
                    last,
                );
            assert(left.covers(first, *index as int));
            assert(right.covers(*index + 1, last));
            let first_operand = build_expression(left, operands, operators);
            let second_operand = build_expression(right, operands, operators);
            let mut position = first_operand.clone_position();
            position.include_other(&second_operand.clone_position());
            Expression::BinaryOperation(
                Box::new(first_operand),
                operators[*index],
                Box::new(second_operand),
                position,
            )
        },
    }
}

/// Groups the chain of `operands` with `operators` between them into one
/// expression, by the precedence and associativity of the operators.
///
/// `None` where there is not one operand more than there are operators,
/// or an operator is no entry of the table or has no place in expressions.
pub fn convert_expression(operands: &Vec<Expression>, operators: &Vec<Operator>) -> (r: Option<
    Expression,
>)
    ensures
        r is Some == (operands@.len() == operators@.len() + 1 && all_entries(operators@)
            && forall|i: int|
            0 <= i < operators@.len() ==> binary_operator_of((#[trigger] operators@[i]).id) is Some),
        r is Some ==> exists|tree: Tree, resolved: Seq<BinaryOperator>|
            {
                &&& tree.covers(0, operators@.len() as int)
                &&& tree.nested(operators@)
                &&& resolved.len() == operators@.len()
                &&& forall|i: int|
                    0 <= i < operators@.len() ==> Some(#[trigger] resolved[i])
                        == binary_operator_of(operators@[i].id)
                &&& r.unwrap()@ == tree.built(expressions_view(operands@), resolved)
            },
{
    let count: usize = operands.len();
    if operators.len() == usize::MAX || count != operators.len() + 1 {
        return None;
    }
    let tree = match precedence_tree(operators) {
        Some(tree) => tree,
        None => {
            return None;
        },
    };
    let resolved = match resolve_operators(operators) {
        Some(resolved) => resolved,
        None => {
            return None;
        },
    };
    let r = build_expression(&tree, operands, &resolved);
    Some(r)
}

} // verus!
