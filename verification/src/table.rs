//! The conversion table: what the variables of a generic body stand for
//! in the instantiation that is being made.

use crate::data_type::DataType;
use crate::expression::{Expr, Expression};
use crate::ids::VariableId;
use std::collections::HashMap;
use vstd::prelude::*;
use vstd::std_specs::hash::*;

verus! {

/// One substitution: the parameter `from` stands for a run-time expression of the given type.
#[derive(Debug)]
pub struct Substitution {
    pub from: VariableId,
    pub expression: Expression,
    pub data_type: DataType,
}

impl Clone for Substitution {
    fn clone(&self) -> (r: Self)
        ensures
            r.from == self.from,
            r.expression@ == self.expression@,
            r.data_type == self.data_type,
    {
        Substitution {
            from: self.from,
            expression: self.expression.clone(),
            data_type: self.data_type.clone(),
        }
    }
}

/// The conversions and substitutions that are in force together: a map
/// from the variables of sources to those of their copies, and what stands
/// in the place of parameters.
#[derive(Debug)]
pub struct Frame {
    conversions: HashMap<usize, VariableId>,
    substitutions: Vec<Substitution>,
}

/// The mathematical content of a `Frame`: two partial functions on variable ids.
pub struct FrameView {
    pub conversions: Map<VariableId, VariableId>,
    pub substitutions: Map<VariableId, (Expr, DataType)>,
}

/// The latest substitution of `key` among `entries`.
pub open spec fn find_substitution(entries: Seq<Substitution>, key: VariableId) -> Option<
    (Expr, DataType),
>
    decreases entries.len(),
{
    if entries.len() == 0 {
        None
    } else if entries.last().from == key {
        Some((entries.last().expression@, entries.last().data_type))
    } else {
        find_substitution(entries.drop_last(), key)
    }
}

impl View for Frame {
    type V = FrameView;

    closed spec fn view(&self) -> FrameView {
        FrameView {
            conversions: Map::new(
                |key: VariableId| self.conversions@.contains_key(key.0),
                |key: VariableId| self.conversions@[key.0],
            ),
            substitutions: Map::new(
                |key: VariableId| find_substitution(self.substitutions@, key) is Some,
                |key: VariableId| find_substitution(self.substitutions@, key).unwrap(),
            ),
        }
    }
}

impl FrameView {
    /// The frame in which nothing is converted.
    pub open spec fn empty() -> FrameView {
        FrameView { conversions: Map::empty(), substitutions: Map::empty() }
    }

    /// What `from` is converted to: its image, or itself where it has none.
    pub open spec fn convert(self, from: VariableId) -> VariableId {
        if self.conversions.contains_key(from) {
            self.conversions[from]
        } else {
            from
        }
    }
}

impl Frame {
    fn new() -> (r: Frame)
        ensures
            r@ == FrameView::empty(),
    {
        let r = Frame { conversions: HashMap::new(), substitutions: Vec::new() };
        assert(r@.conversions =~= Map::empty());
        assert(r@.substitutions =~= Map::empty());
        r
    }

    fn copy(&self) -> (r: Frame)
        ensures
            r@ == self@,
    {
        let conversions = self.conversions.clone();
        let mut substitutions: Vec<Substitution> = Vec::new();
        let mut j: usize = 0;
        while j < self.substitutions.len()
            invariant
                j <= self.substitutions.len(),
                substitutions@.len() == j,
                forall|k: int|
                    0 <= k < j ==> {
                        &&& (#[trigger] substitutions@[k]).from == self.substitutions@[k].from
                        &&& substitutions@[k].expression@ == self.substitutions@[k].expression@
                        &&& substitutions@[k].data_type == self.substitutions@[k].data_type
                    },
            decreases self.substitutions.len() - j,
        {
            substitutions.push((&self.substitutions[j]).clone());
            j += 1;
        }
        let r = Frame { conversions, substitutions };
        proof {
            assert forall|key: VariableId|
                find_substitution(r.substitutions@, key) == find_substitution(
                    self.substitutions@,
                    key,
                ) by {
                lemma_same_substitutions(r.substitutions@, self.substitutions@, key);
            }
            assert(r@.substitutions =~= self@.substitutions);
            assert(r@.conversions =~= self@.conversions);
        }
        r
    }
}

/// Lists of substitutions that agree entry by entry are searched alike.
proof fn lemma_same_substitutions(a: Seq<Substitution>, b: Seq<Substitution>, key: VariableId)
    requires
        a.len() == b.len(),
        forall|k: int|
            0 <= k < a.len() ==> {
                &&& (#[trigger] a[k]).from == b[k].from
                &&& a[k].expression@ == b[k].expression@
                &&& a[k].data_type == b[k].data_type
            },
    ensures
        find_substitution(a, key) == find_substitution(b, key),
    decreases a.len(),
{
    if a.len() > 0 {
        assert(a.last() == a[a.len() - 1]);
        assert(b.last() == b[b.len() - 1]);
        lemma_same_substitutions(a.drop_last(), b.drop_last(), key);
    }
}

/// The table in force, and below it the tables that were saved when an
/// instantiation began.
#[derive(Debug)]
pub struct ResolverTable {
    current: Frame,
    stack: Vec<Frame>,
}

/// The mathematical content of a `ResolverTable`.
pub struct TableView {
    pub current: FrameView,
    pub stack: Seq<FrameView>,
}

impl View for ResolverTable {
    type V = TableView;

    closed spec fn view(&self) -> TableView {
        TableView { current: self.current@, stack: self.stack@.map_values(|frame: Frame| frame@) }
    }
}

impl TableView {
    /// The table after the table in force is saved.
    pub open spec fn pushed(self) -> TableView {
        TableView { current: self.current, stack: self.stack.push(self.current) }
    }

    /// The table after the table saved last is put in force again.
    pub open spec fn popped(self) -> TableView
        recommends
            self.stack.len() > 0,
    {
        TableView { current: self.stack.last(), stack: self.stack.drop_last() }
    }

    /// The table after `from` is given the image `to`.
    pub open spec fn with_conversion(self, from: VariableId, to: VariableId) -> TableView {
        TableView {
            current: FrameView {
                conversions: self.current.conversions.insert(from, to),
                ..self.current
            },
            ..self
        }
    }

    /// The table after `from` is made to stand for an expression.
    pub open spec fn with_substitution(self, from: VariableId, expression: Expr, data_type: DataType) -> TableView {
        TableView {
            current: FrameView {
                substitutions: self.current.substitutions.insert(from, (expression, data_type)),
                ..self.current
            },
            ..self
        }
    }
}

/// Saving a table and putting the saved table in force again gives the
/// table back as it was, whatever was converted or substituted in between,
/// as long as as many tables were saved as were put back.
pub proof fn lemma_push_pop_round_trip(before: TableView, between: TableView)
    requires
        between.stack == before.pushed().stack,
    ensures
        between.popped() == before,
{
    assert(before.stack.push(before.current).drop_last() =~= before.stack);
}

impl ResolverTable {
    /// The table in which nothing is converted and nothing is saved.
    pub fn new() -> (r: ResolverTable)
        ensures
            r@ == (TableView { current: FrameView::empty(), stack: Seq::empty() }),
    {
        let r = ResolverTable { current: Frame::new(), stack: Vec::new() };
        assert(r@.stack =~= Seq::empty());
        r
    }

    /// Saves the table in force. `pop_table` puts it in force again.
    pub fn push_table(&mut self)
        ensures
            final(self)@ == old(self)@.pushed(),
    {
        let saved = self.current.copy();
        self.stack.push(saved);
        assert(self@.stack =~= old(self)@.stack.push(old(self)@.current));
    }

    /// Puts the table saved last in force again.
    pub fn pop_table(&mut self)
        requires
            old(self)@.stack.len() > 0,
        ensures
            final(self)@ == old(self)@.popped(),
    {
        match self.stack.pop() {
            Some(frame) => {
                self.current = frame;
                assert(self@.stack =~= old(self)@.stack.drop_last());
            },
            None => {},
        }
    }

    /// The number of tables that are saved.
    pub fn depth(&self) -> (r: usize)
        ensures
            r == self@.stack.len(),
    {
        self.stack.len()
    }

    /// Whether `from` has an image in the table in force.
    pub fn is_converted(&self, from: VariableId) -> (r: bool)
        ensures
            r == self@.current.conversions.contains_key(from),
    {
        self.lookup_conversion(from).is_some()
    }

    fn lookup_conversion(&self, from: VariableId) -> (r: Option<VariableId>)
        ensures
            r == if self@.current.conversions.contains_key(from) {
                Some(self@.current.conversions[from])
            } else {
                None
            },
    {
        broadcast use group_hash_axioms;

        match self.current.conversions.get(&from.0) {
            Some(to) => Some(*to),
            None => None,
        }
    }

    /// Gives `from` the image `to`. A variable gets one image in a table, not two.
    pub fn add_conversion(&mut self, from: VariableId, to: VariableId)
        requires
            !old(self)@.current.conversions.contains_key(from),
        ensures
            final(self)@ == old(self)@.with_conversion(from, to),
    {
        broadcast use group_hash_axioms;

        self.current.conversions.insert(from.0, to);
        proof {
            assert(self@.current.conversions =~= old(self)@.current.conversions.insert(from, to));
        }
    }

    /// The image of `from`, or `from` itself where it has none.
    pub fn convert(&self, from: VariableId) -> (r: VariableId)
        ensures
            r == self@.current.convert(from),
    {
        match self.lookup_conversion(from) {
            Some(to) => to,
            None => from,
        }
    }

    /// Makes the parameter `from` stand for a run-time expression of type `data_type`.
    /// A later substitution of the same parameter takes the place of an earlier one.
    pub fn add_substitution(&mut self, from: VariableId, expression: Expression, data_type: DataType)
        ensures
            final(self)@ == old(self)@.with_substitution(from, expression@, data_type),
    {
        self.current.substitutions.push(Substitution { from, expression, data_type });
        proof {
            let before = old(self).current.substitutions@;
            let after = self.current.substitutions@;
            assert(after.drop_last() =~= before);
            assert(self@.current.substitutions =~= old(self)@.current.substitutions.insert(
                from,
                (expression@, data_type),
            ));
        }
    }

    /// The expression that `from` stands for, with its type, if it stands for one.
    pub fn substitution(&self, from: VariableId) -> (r: Option<(Expression, DataType)>)
        ensures
            r.is_some() == self@.current.substitutions.contains_key(from),
            r.is_some() ==> (r.unwrap().0@, r.unwrap().1) == self@.current.substitutions[from],
    {
        let entries = &self.current.substitutions;
        let mut i: usize = entries.len();
        assert(entries@.subrange(0, i as int) =~= entries@);
        while i > 0
            invariant
                i <= entries.len(),
                *entries == self.current.substitutions,
                find_substitution(entries@, from) == find_substitution(
                    entries@.subrange(0, i as int),
                    from,
                ),
            decreases i,
        {
            i -= 1;
            assert(entries@.subrange(0, i + 1).last() == entries@[i as int]);
            assert(entries@.subrange(0, i + 1).drop_last() =~= entries@.subrange(0, i as int));
            if entries[i].from == from {
                return Some(((&entries[i].expression).clone(), (&entries[i].data_type).clone()));
            }
        }
        None
    }
}

} // verus!
