//! The values that expressions have in the state of a program.

use crate::expression::{Expr, Expression, expressions_view};
use crate::ids::VariableId;
use crate::known_data::{KnownData, Value};
use crate::program::{Program, ProgramView};
use crate::variable::VariableView;
use vstd::prelude::*;

verus! {

impl ProgramView {
    /// The value that an expression has now, without any computation: a
    /// literal has its value, a variable its temporary value, and an
    /// access the item that the values of its indexes select in the value
    /// of its base. `None` for anything else, and where an index is no
    /// integer or selects nothing.
    pub open spec fn value_of(self, expression: Expr) -> Option<Value>
        decreases expression, 0int,
    {
        match expression {
            Expr::Literal(value, _) => Some(value),
            Expr::Variable(id, _) => if self.has_variable(id) {
                Some(self.variable(id).temporary_value)
            } else {
                None
            },
            Expr::Access { base, indexes, .. } => match self.value_of(*base) {
                Some(data) => self.item_of(data, indexes, 0),
                None => None,
            },
            _ => None,
        }
    }

    /// The item that the values of the indexes from `from` on select in `data`.
    pub open spec fn item_of(self, data: Value, indexes: Seq<Expr>, from: int) -> Option<Value>
        decreases indexes, indexes.len() - from,
    {
        if from < 0 || from >= indexes.len() {
            Some(data)
        } else {
            match self.value_of(indexes[from]) {
                Some(Value::Int(wanted)) => match data {
                    Value::Array(items) => if 0 <= wanted < items.len() {
                        self.item_of(items[wanted as int], indexes, from + 1)
                    } else {
                        None
                    },
                    _ => None,
                },
                _ => None,
            }
        }
    }

    /// The integers that the first `count` of `indexes` have as values, if each has one.
    pub open spec fn path_of(self, indexes: Seq<Expr>, count: int) -> Option<Seq<i64>>
        decreases count,
    {
        if count <= 0 {
            Some(Seq::empty())
        } else {
            match self.path_of(indexes, count - 1) {
                Some(path) => match self.value_of(indexes[count - 1]) {
                    Some(Value::Int(wanted)) => Some(path.push(wanted)),
                    _ => None,
                },
                None => None,
            }
        }
    }

    /// The program after `value` became the value of an expression: the
    /// temporary value of a variable, or the item of it that the values
    /// of the indexes of an access to the variable select. `None` for
    /// anything else, and where the indexes select nothing.
    pub open spec fn with_value_of(self, expression: Expr, value: Value) -> Option<ProgramView> {
        match expression {
            Expr::Variable(id, _) => if self.has_variable(id) {
                Some(
                    self.with_variable(
                        id,
                        VariableView { temporary_value: value, ..self.variable(id) },
                    ),
                )
            } else {
                None
            },
            Expr::Access { base, indexes, .. } => match *base {
                Expr::Variable(id, _) => if self.has_variable(id) {
                    match self.path_of(indexes, indexes.len() as int) {
                        Some(path) => match self.variable(id).temporary_value.with_item(
                            path,
                            value,
                        ) {
                            Some(changed) => Some(
                                self.with_variable(
                                    id,
                                    VariableView { temporary_value: changed, ..self.variable(id) },
                                ),
                            ),
                            None => None,
                        },
                        None => None,
                    }
                } else {
                    None
                },
                _ => None,
            },
            _ => None,
        }
    }
}

/// Once an index has no integer value, no longer list of indexes is a path.
proof fn lemma_path_fails(program: ProgramView, indexes: Seq<Expr>, failed: int, count: int)
    requires
        0 < failed <= count,
        program.path_of(indexes, failed) is None,
    ensures
        program.path_of(indexes, count) is None,
    decreases count - failed,
{
    if failed < count {
        lemma_path_fails(program, indexes, failed, count - 1);
    }
}

impl Program {
    /// The value that an expression has now, without any computation.
    #[verifier::loop_isolation(false)]
    pub fn borrow_value_of<'a>(&'a self, expression: &'a Expression) -> (r: Option<&'a KnownData>)
        ensures
            match r {
                Some(value) => self@.value_of(expression@) == Some(value@),
                None => self@.value_of(expression@) is None,
            },
        decreases *expression,
    {
        match expression {
            Expression::Literal(data, _) => Some(data),
            Expression::Variable(id, _) => {
                if self.has_variable(*id) {
                    Some(self.borrow_temporary_value(*id))
                } else {
                    None
                }
            },
            Expression::Access { base, indexes, position } => {
                assert(expression@ == Expr::Access {
                    base: Box::new((**base)@),
                    indexes: expressions_view(indexes@),
                    position: *position,
                });
                let ghost list = expression@->Access_indexes;
                let data = match self.borrow_value_of(base) {
                    Some(data) => data,
                    None => {
                        return None;
                    },
                };
                let mut part: &KnownData = data;
                let mut i: usize = 0;
                while i < indexes.len()
                    invariant
                        i <= indexes.len(),
                        self@.item_of(data@, list, 0) == self@.item_of(part@, list, i as int),
                    decreases indexes.len() - i,
                {
                    assert(list[i as int] == indexes@[i as int]@);
                    let wanted: i64 = match self.borrow_value_of(&indexes[i]) {
                        Some(KnownData::Int(wanted)) => *wanted,
                        _ => {
                            return None;
                        },
                    };
                    match part {
                        KnownData::Array(items) => {
                            proof {
                                crate::known_data::lemma_array_view(*part);
                            }
                            if wanted >= 0 && (wanted as u64) < (items.len() as u64) {
                                part = &items[wanted as usize];
                            } else {
                                return None;
                            }
                        },
                        _ => {
                            return None;
                        },
                    }
                    i += 1;
                }
                Some(part)
            },
            _ => None,
        }
    }

    /// The integers that the indexes have as values now, if each has one.
    #[verifier::loop_isolation(false)]
    pub fn path_of(&self, indexes: &Vec<Expression>) -> (r: Option<Vec<i64>>)
        ensures
            match r {
                Some(path) => self@.path_of(expressions_view(indexes@), indexes@.len() as int)
                    == Some(path@),
                None => self@.path_of(expressions_view(indexes@), indexes@.len() as int) is None,
            },
    {
        let ghost list = expressions_view(indexes@);
        let mut path: Vec<i64> = Vec::new();
        let mut i: usize = 0;
        while i < indexes.len()
            invariant
                i <= indexes.len(),
                self@.path_of(list, i as int) == Some(path@),
            decreases indexes.len() - i,
        {
            assert(list[i as int] == indexes@[i as int]@);
            match self.borrow_value_of(&indexes[i]) {
                Some(KnownData::Int(wanted)) => {
                    path.push(*wanted);
                },
                _ => {
                    proof {
                        lemma_path_fails(self@, list, i + 1, list.len() as int);
                    }
                    return None;
                },
            }
            i += 1;
        }
        Some(path)
    }

    /// Makes `value` the value of an expression. Where that cannot be
    /// done, the program stays as it is, and the result is `false`.
    pub fn set_value_of(&mut self, expression: &Expression, value: KnownData) -> (done: bool)
        ensures
            match old(self)@.with_value_of(expression@, value@) {
                Some(after) => done && final(self)@ == after,
                None => !done && final(self)@ == old(self)@,
            },
            old(self)@.wf() ==> final(self)@.wf(),
            final(self)@.extends(old(self)@),
    {
        match expression {
            Expression::Variable(id, _) => {
                if self.has_variable(*id) {
                    self.set_temporary_value(*id, value);
                    true
                } else {
                    false
                }
            },
            Expression::Access { base, indexes, position } => {
                assert(expression@ == Expr::Access {
                    base: Box::new((**base)@),
                    indexes: expressions_view(indexes@),
                    position: *position,
                });
                let id: VariableId = match &**base {
                    Expression::Variable(id, _) => *id,
                    _ => {
                        return false;
                    },
                };
                if !self.has_variable(id) {
                    return false;
                }
                match self.path_of(indexes) {
                    Some(path) => self.set_temporary_item(id, &path, value),
                    None => false,
                }
            },
            _ => false,
        }
    }
}

} // verus!
