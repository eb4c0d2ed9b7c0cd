//! Instantiation of a scope: a copy with variables of its own.

use crate::data_type::DataType;
use crate::ids::{ScopeId, VariableId};
use crate::known_data::{KnownData, Value};
use crate::problem::{CompileProblem, ProblemKind};
use crate::program::{Program, ProgramView};
use crate::scope::{lemma_position_of, ScopeView};
use crate::table::{FrameView, ResolverTable, TableView};
use crate::variable::VariableView;
use vstd::prelude::*;

verus! {

impl ScopeView {
    /// The variables that belong to the scope: those it names, in the
    /// order of the symbol table, then those it holds without a name.
    pub open spec fn own_ids(self) -> Seq<VariableId> {
        Seq::new(
            self.symbols.len() + self.intermediates.len(),
            |k: int|
                if k < self.symbols.len() {
                    self.symbols[k].1
                } else {
                    self.intermediates[k - self.symbols.len()]
                },
        )
    }
}

impl ProgramView {
    /// This program is `before` with scopes and variables added: what
    /// `before` held is here as it was.
    pub open spec fn grown_from(self, before: ProgramView) -> bool {
        &&& before.scopes.len() <= self.scopes.len()
        &&& before.variables.len() <= self.variables.len()
        &&& forall|s: int| 0 <= s < before.scopes.len() ==> #[trigger] self.scopes[s] == before.scopes[s]
        &&& forall|v: int|
            0 <= v < before.variables.len() ==> #[trigger] self.variables[v] == before.variables[v]
    }
}

impl TableView {
    /// Every image, in the table in force and in the saved ones, is below `bound`.
    pub open spec fn images_below(self, bound: nat) -> bool {
        &&& forall|key: VariableId| #[trigger]
            self.current.conversions.contains_key(key) ==> self.current.conversions[key].0 < bound
        &&& forall|i: int, key: VariableId|
            0 <= i < self.stack.len() && #[trigger] self.stack[i].conversions.contains_key(key)
                ==> self.stack[i].conversions[key].0 < bound
    }

    /// This table differs from `before` by the conversions of `ids`, of
    /// which the one at `k` has the image `first + k`, and by nothing else.
    pub open spec fn converts_also(self, before: TableView, ids: Seq<VariableId>, first: nat) -> bool {
        &&& self.stack == before.stack
        &&& self.current.substitutions == before.current.substitutions
        &&& forall|key: VariableId| #[trigger]
            self.current.conversions.contains_key(key) <==> (
            before.current.conversions.contains_key(key) || ids.contains(key))
        &&& forall|k: int|
            0 <= k < ids.len() ==> self.current.conversions[#[trigger] ids[k]].0 == first + k
        &&& forall|key: VariableId| #[trigger]
            before.current.conversions.contains_key(key) ==> self.current.conversions[key]
                == before.current.conversions[key]
    }
}

impl FrameView {
    /// The type with every variable that it defers to converted.
    pub open spec fn convert_type(self, data_type: DataType) -> DataType
        decreases data_type,
    {
        match data_type {
            DataType::Dynamic(target) => DataType::Dynamic(self.convert(target)),
            DataType::LoadTemplateParameter(target) => DataType::LoadTemplateParameter(
                self.convert(target),
            ),
            DataType::Array(len, base) => DataType::Array(len, Box::new(self.convert_type(*base))),
            _ => data_type,
        }
    }

    /// The value, with the data type that it is, if it is one, converted.
    pub open spec fn convert_value(self, value: Value) -> Value {
        match value {
            Value::DataType(held) => Value::DataType(self.convert_type(held)),
            other => other,
        }
    }

    /// The variable with its type and the data type that it holds converted.
    pub open spec fn convert_variable(self, variable: VariableView) -> VariableView {
        VariableView {
            data_type: self.convert_type(variable.data_type),
            initial_value: self.convert_value(variable.initial_value),
            temporary_value: self.convert_value(variable.temporary_value),
            ..variable
        }
    }
}

/// Converts every variable that a type defers to.
pub fn convert_type(table: &ResolverTable, data_type: &DataType) -> (r: DataType)
    ensures
        r == table@.current.convert_type(*data_type),
    decreases *data_type,
{
    match data_type {
        DataType::Dynamic(target) => DataType::Dynamic(table.convert(*target)),
        DataType::LoadTemplateParameter(target) => DataType::LoadTemplateParameter(
            table.convert(*target),
        ),
        DataType::Array(len, base) => DataType::Array(*len, Box::new(convert_type(table, base))),
        _ => data_type.clone(),
    }
}

/// Converts the data type that a value is, if it is one.
pub fn convert_value(table: &ResolverTable, value: &KnownData) -> (r: KnownData)
    ensures
        r@ == table@.current.convert_value(value@),
{
    match value {
        KnownData::DataType(held) => KnownData::DataType(convert_type(table, held)),
        other => other.clone(),
    }
}

/// A place at which `key` stands among `ids`.
pub open spec fn place_of(ids: Seq<VariableId>, key: VariableId) -> int {
    choose|k: int| 0 <= k < ids.len() && ids[k] == key
}

impl TableView {
    /// The table after each of `ids` got a conversion to its instance:
    /// the one at `k` to the variable `first + k`.
    pub open spec fn with_instances(self, ids: Seq<VariableId>, first: nat) -> TableView {
        TableView {
            current: FrameView {
                conversions: Map::new(
                    |key: VariableId| self.current.conversions.contains_key(key) || ids.contains(key),
                    |key: VariableId|
                        if ids.contains(key) {
                            VariableId((first + place_of(ids, key)) as usize)
                        } else {
                            self.current.conversions[key]
                        },
                ),
                ..self.current
            },
            ..self
        }
    }
}

impl ProgramView {
    /// The program with a copy of the scope `source` added at its end, in
    /// which each variable of `source` has a clone that is the variable as
    /// it is: its type, its values and whether it is permanent.
    pub open spec fn with_clone(self, source: ScopeId, parent: Option<ScopeId>, frame: FrameView) -> ProgramView {
        ProgramView {
            scopes: self.scopes.push(copy_of(self, source, parent, frame)),
            variables: self.variables + cloned_variables(
                self,
                self.scope(source).own_ids(),
                self.scope(source).own_ids().len(),
            ),
            ..self
        }
    }

    /// The program in which the variable `id` has its type, and the data
    /// type that it holds, converted.
    pub open spec fn with_converted_types(self, frame: FrameView, id: VariableId) -> ProgramView {
        if self.has_variable(id) {
            self.with_variable(id, frame.convert_variable(self.variable(id)))
        } else {
            self
        }
    }

    /// The program after the types of the first `done` of `ids` were
    /// converted, one after the other.
    pub open spec fn after_converting(self, frame: FrameView, ids: Seq<VariableId>, done: int) -> ProgramView
        decreases done,
    {
        if done <= 0 {
            self
        } else {
            self.after_converting(frame, ids, done - 1).with_converted_types(frame, ids[done - 1])
        }
    }

    /// The program with an instance of the scope `source` added at its
    /// end: a copy in which the types that the clones defer to are converted.
    pub open spec fn with_copy(self, source: ScopeId, parent: Option<ScopeId>, frame: FrameView) -> ProgramView {
        ProgramView {
            scopes: self.scopes.push(copy_of(self, source, parent, frame)),
            variables: self.variables + instance_variables(
                self,
                frame,
                self.scope(source).own_ids(),
                self.scope(source).own_ids().len(),
            ),
            ..self
        }
    }
}

/// A table that converts `ids` also is the table with their instances.
pub proof fn lemma_with_instances(before: TableView, after: TableView, ids: Seq<VariableId>, first: nat)
    requires
        convertible(before.current, ids),
        after.converts_also(before, ids, first),
        first + ids.len() <= usize::MAX,
    ensures
        after == before.with_instances(ids, first),
{
    let expected = before.with_instances(ids, first);
    assert forall|key: VariableId| #[trigger]
        after.current.conversions.contains_key(key) == expected.current.conversions.contains_key(
            key,
        ) by {}
    assert forall|key: VariableId| after.current.conversions.contains_key(key) implies #[trigger]
        after.current.conversions[key] == expected.current.conversions[key] by {
        if ids.contains(key) {
            let k = place_of(ids, key);
            assert(ids[k] == key);
            assert(after.current.conversions[ids[k]].0 == first + k);
        }
    }
    assert(after.current.conversions.dom() =~= expected.current.conversions.dom());
    assert(after.current.conversions =~= expected.current.conversions);
}

impl FrameView {
    /// No two variables are converted to one variable.
    pub open spec fn one_to_one(self) -> bool {
        forall|a: VariableId, b: VariableId|
            self.conversions.contains_key(a) && self.conversions.contains_key(b) && a != b
                ==> #[trigger] self.conversions[a] != #[trigger] self.conversions[b]
    }
}

/// An instantiation keeps the table one to one: where no two variables
/// were converted to one variable, and every image was below `first`, no
/// two variables are converted to one variable after the variables `ids`
/// got their instances from `first` on.
pub proof fn lemma_instances_are_one_to_one(before: TableView, ids: Seq<VariableId>, first: nat)
    requires
        convertible(before.current, ids),
        first + ids.len() <= usize::MAX,
        before.current.one_to_one(),
        forall|key: VariableId| #[trigger]
            before.current.conversions.contains_key(key) ==> before.current.conversions[key].0
                < first,
    ensures
        before.with_instances(ids, first).current.one_to_one(),
{
    let after = before.with_instances(ids, first).current;
    assert forall|a: VariableId, b: VariableId|
        after.conversions.contains_key(a) && after.conversions.contains_key(b) && a
            != b implies #[trigger] after.conversions[a] != #[trigger] after.conversions[b] by {
        if ids.contains(a) {
            let k = place_of(ids, a);
            assert(ids[k] == a);
            if ids.contains(b) {
                let l = place_of(ids, b);
                assert(ids[l] == b);
                assert(k != l);
            }
        } else if ids.contains(b) {
            let l = place_of(ids, b);
            assert(ids[l] == b);
        }
    }
}

/// Whether `ids` can be given conversions one after the other: none of
/// them has one in `frame`, and none stands twice among them.
pub open spec fn convertible(frame: FrameView, ids: Seq<VariableId>) -> bool {
    &&& forall|k: int| 0 <= k < ids.len() ==> !frame.conversions.contains_key(#[trigger] ids[k])
    &&& forall|k: int, l: int| 0 <= k < l < ids.len() ==> #[trigger] ids[k] != #[trigger] ids[l]
}

/// The first `count` entries of the symbol table of a copy of `src`
/// whose variables are numbered from `first` on.
pub open spec fn copied_symbols(src: ScopeView, first: nat, count: nat) -> Seq<
    (Seq<char>, VariableId),
> {
    Seq::new(count, |k: int| (src.symbols[k].0, VariableId((first + k) as usize)))
}

/// The first `count` unnamed variables of such a copy.
pub open spec fn copied_intermediates(src: ScopeView, first: nat, count: nat) -> Seq<VariableId> {
    Seq::new(count, |k: int| VariableId((first + src.symbols.len() + k) as usize))
}

/// The first `count` of `ids`, converted.
pub open spec fn converted_ids(frame: FrameView, ids: Seq<VariableId>, count: nat) -> Seq<
    VariableId,
> {
    Seq::new(count, |k: int| frame.convert(ids[k]))
}

/// The contents of the first `count` of the variables `ids`.
pub open spec fn cloned_variables(before: ProgramView, ids: Seq<VariableId>, count: nat) -> Seq<
    VariableView,
> {
    Seq::new(count, |k: int| before.variable(ids[k]))
}

/// The contents of the variables `ids`, of which the first `count` have
/// their types converted.
pub open spec fn instance_variables(
    before: ProgramView,
    frame: FrameView,
    ids: Seq<VariableId>,
    count: nat,
) -> Seq<VariableView> {
    Seq::new(
        ids.len(),
        |k: int|
            if k < count {
                frame.convert_variable(before.variable(ids[k]))
            } else {
                before.variable(ids[k])
            },
    )
}

/// The copy of the scope `source`, made when the program was `before`:
/// the same names, parameters in the same order, and for each variable
/// that belongs to `source` a new variable, numbered from the end of the
/// arena on in the order of `own_ids`. The copy has no statements yet.
pub open spec fn copy_of(before: ProgramView, source: ScopeId, parent: Option<ScopeId>, frame: FrameView) -> ScopeView {
    let src = before.scope(source);
    let first = before.variables.len();
    ScopeView {
        parent,
        symbols: copied_symbols(src, first, src.symbols.len()),
        intermediates: copied_intermediates(src, first, src.intermediates.len()),
        inputs: converted_ids(frame, src.inputs, src.inputs.len()),
        outputs: converted_ids(frame, src.outputs, src.outputs.len()),
        body: Seq::empty(),
        calls: Seq::empty(),
    }
}

/// The program after the scope `source` was copied: every scope and every
/// variable that was there is untouched, one scope was added, and for
/// each variable of `source` one variable with the same content.
pub open spec fn copied(
    before: ProgramView,
    after: ProgramView,
    source: ScopeId,
    parent: Option<ScopeId>,
    frame: FrameView,
) -> bool {
    let ids = before.scope(source).own_ids();
    &&& after.entry_point == before.entry_point
    &&& after.builtins == before.builtins
    &&& after.scopes == before.scopes.push(copy_of(before, source, parent, frame))
    &&& after.variables == before.variables + cloned_variables(before, ids, ids.len())
}

/// Copies the scope `source` under the table in force.
///
/// The copy is a new scope with `parent` as its parent. Every variable
/// that belongs to `source` is cloned into it as it is and gets a
/// conversion to its clone. The parameters of the copy are those of
/// `source`, converted, in the same order. The statements are not copied.
///
/// Fails where a variable of `source` has a conversion already or stands
/// twice in `source`. Scopes and variables that were added before the
/// failure stay in the arena, and so do the conversions, until the table
/// is popped.
pub fn copy_scope(
    program: &mut Program,
    table: &mut ResolverTable,
    source: ScopeId,
    parent: Option<ScopeId>,
) -> (r: Result<ScopeId, CompileProblem>)
    requires
        old(program)@.wf(),
        old(program)@.has_scope(source),
        parent is Some ==> old(program)@.has_scope(parent.unwrap()),
        old(table)@.images_below(old(program)@.variables.len()),
    ensures
        final(program)@.wf(),
        final(program)@.extends(old(program)@),
        final(program)@.grown_from(old(program)@),
        final(program)@.scopes.len() == old(program)@.scopes.len() + 1,
        final(program)@.scopes.last().body.len() == 0,
        final(table)@.stack == old(table)@.stack,
        final(table)@.current.substitutions == old(table)@.current.substitutions,
        final(table)@.images_below(final(program)@.variables.len()),
        r is Ok == convertible(old(table)@.current, old(program)@.scope(source).own_ids()),
        r is Err ==> r.unwrap_err()@ == crate::binary::problem_at(
            ProblemKind::DuplicateConversion,
            crate::position::FilePosition::spec_placeholder(),
        ),
        r is Ok ==> {
            &&& r.unwrap().0 == old(program)@.scopes.len()
            &&& copied(old(program)@, final(program)@, source, parent, final(table)@.current)
            &&& final(table)@.converts_also(
                old(table)@,
                old(program)@.scope(source).own_ids(),
                old(program)@.variables.len(),
            )
            &&& final(table)@ == old(table)@.with_instances(
                old(program)@.scope(source).own_ids(),
                old(program)@.variables.len(),
            )
            &&& final(program)@ == old(program)@.with_clone(source, parent, final(table)@.current)
            &&& forall|k: int|
                0 <= k < old(program)@.scope(source).own_ids().len() ==> #[trigger] final(program)@.variables[old(program)@.variables.len() + k]
                    == old(program)@.variable(old(program)@.scope(source).own_ids()[k])
            &&& old(table)@.current.one_to_one() ==> final(table)@.current.one_to_one()
        },
{
    let ghost before = program@;
    let ghost table_before = table@;
    let ghost src = before.scope(source);
    let ghost ids = src.own_ids();
    let ghost first = before.variables.len();
    let copy = match parent {
        Some(parent_id) => program.create_child_scope(parent_id),
        None => program.create_scope(),
    };
    let symbol_count: usize = program.borrow_scope(source).borrow_symbols().len();
    proof {
        assert(copied_symbols(src, first, 0) =~= Seq::empty());
        assert(cloned_variables(before, ids, 0) =~= Seq::empty());
        assert(program@.variables =~= before.variables + cloned_variables(before, ids, 0));
        assert(ids.subrange(0, 0) =~= Seq::empty());
    }
    let mut i: usize = 0;
    while i < symbol_count
        invariant
            before == old(program)@,
            table_before == old(table)@,
            table@.stack == table_before.stack,
            table@.current.substitutions == table_before.current.substitutions,
            before.wf(),
            before.has_scope(source),
            src == before.scope(source),
            ids == src.own_ids(),
            first == before.variables.len(),
            copy.0 == before.scopes.len(),
            symbol_count == src.symbols.len(),
            i <= symbol_count,
            program@.wf(),
            program@.entry_point == before.entry_point,
            program@.builtins == before.builtins,
            program@.variables == before.variables + cloned_variables(before, ids, i as nat),
            program@.scopes == before.scopes.push(
                ScopeView { symbols: copied_symbols(src, first, i as nat), ..ScopeView::empty(parent) },
            ),
            table@.converts_also(table_before, ids.subrange(0, i as int), first),
            table@.images_below(program@.variables.len()),
            convertible(table_before.current, ids.subrange(0, i as int)),
        decreases symbol_count - i,
    {
        let old_id = program.borrow_scope(source).borrow_symbols()[i].id;
        assert(old_id == src.symbols[i as int].1);
        assert(old_id == ids[i as int]);
        assert(src.ids_below(before.variables.len()));
        if table.is_converted(old_id) {
            proof {
                lemma_not_convertible(table_before, table@, ids, i as int, first);
            }
            return Err(CompileProblem::new(ProblemKind::DuplicateConversion, crate::position::FilePosition::placeholder()));
        }
        let name: String = program.borrow_scope(source).borrow_symbols()[i].name.clone();
        assert(name@ == src.symbols[i as int].0);
        let variable = program.borrow_variable(old_id).clone();
        let ghost mid = program@;
        let ghost mid_table = table@;
        let new_id = program.adopt_and_define_symbol(copy, name.as_str(), variable);
        table.add_conversion(old_id, new_id);
        proof {
            let done = copied_symbols(src, first, i as nat);
            let copy_before = ScopeView { symbols: done, ..ScopeView::empty(parent) };
            assert(mid.scope(copy) == copy_before);
            assert forall|j: int| 0 <= j < done.len() implies (#[trigger] done[j]).0 != name@ by {
                assert(src.names_distinct());
                assert(src.symbols[j].0 != src.symbols[i as int].0);
            }
            lemma_position_of(done, name@, done.len() as int);
            assert(copy_before.with_symbol(name@, new_id) =~= copied_symbols(
                src,
                first,
                (i + 1) as nat,
            ));
            assert(program@.scopes =~= before.scopes.push(
                ScopeView {
                    symbols: copied_symbols(src, first, (i + 1) as nat),
                    ..ScopeView::empty(parent)
                },
            ));
            assert(program@.variables =~= before.variables + cloned_variables(
                before,
                ids,
                (i + 1) as nat,
            ));
            lemma_one_more_conversion(table_before, mid_table, table@, ids, i as int, first);
        }
        i += 1;
    }
    let intermediate_count: usize = program.borrow_scope(source).borrow_intermediates().len();
    proof {
        assert(copied_intermediates(src, first, 0) =~= Seq::empty());
    }
    let mut j: usize = 0;
    while j < intermediate_count
        invariant
            before == old(program)@,
            table_before == old(table)@,
            table@.stack == table_before.stack,
            table@.current.substitutions == table_before.current.substitutions,
            before.wf(),
            before.has_scope(source),
            src == before.scope(source),
            ids == src.own_ids(),
            first == before.variables.len(),
            copy.0 == before.scopes.len(),
            symbol_count == src.symbols.len(),
            intermediate_count == src.intermediates.len(),
            j <= intermediate_count,
            program@.wf(),
            program@.entry_point == before.entry_point,
            program@.builtins == before.builtins,
            program@.variables == before.variables + cloned_variables(
                before,
                ids,
                (symbol_count + j) as nat,
            ),
            program@.scopes == before.scopes.push(
                ScopeView {
                    symbols: copied_symbols(src, first, symbol_count as nat),
                    intermediates: copied_intermediates(src, first, j as nat),
                    ..ScopeView::empty(parent)
                },
            ),
            table@.converts_also(table_before, ids.subrange(0, symbol_count + j), first),
            table@.images_below(program@.variables.len()),
            convertible(table_before.current, ids.subrange(0, symbol_count + j)),
        decreases intermediate_count - j,
    {
        let old_id = program.borrow_scope(source).borrow_intermediates()[j];
        assert(old_id == src.intermediates[j as int]);
        assert(old_id == ids[symbol_count + j]);
        assert(src.ids_below(before.variables.len()));
        if table.is_converted(old_id) {
            proof {
                lemma_not_convertible(table_before, table@, ids, symbol_count + j, first);
            }
            return Err(CompileProblem::new(ProblemKind::DuplicateConversion, crate::position::FilePosition::placeholder()));
        }
        let variable = program.borrow_variable(old_id).clone();
        let ghost mid = program@;
        let ghost mid_table = table@;
        let new_id = program.adopt_and_define_intermediate(copy, variable);
        table.add_conversion(old_id, new_id);
        proof {
            assert(mid.scope(copy).intermediates.push(new_id) =~= copied_intermediates(
                src,
                first,
                (j + 1) as nat,
            ));
            assert(program@.scopes =~= before.scopes.push(
                ScopeView {
                    symbols: copied_symbols(src, first, symbol_count as nat),
                    intermediates: copied_intermediates(src, first, (j + 1) as nat),
                    ..ScopeView::empty(parent)
                },
            ));
            assert(program@.variables =~= before.variables + cloned_variables(
                before,
                ids,
                (symbol_count + j + 1) as nat,
            ));
            lemma_one_more_conversion(
                table_before,
                mid_table,
                table@,
                ids,
                symbol_count + j,
                first,
            );
        }
        j += 1;
    }
    assert(ids.subrange(0, symbol_count + intermediate_count) =~= ids);
    let input_count: usize = program.borrow_scope(source).borrow_inputs().len();
    proof {
        assert(converted_ids(table@.current, src.inputs, 0) =~= Seq::empty());
    }
    let mut a: usize = 0;
    while a < input_count
        invariant
            before == old(program)@,
            table_before == old(table)@,
            table@.stack == table_before.stack,
            table@.current.substitutions == table_before.current.substitutions,
            before.wf(),
            before.has_scope(source),
            src == before.scope(source),
            ids == src.own_ids(),
            first == before.variables.len(),
            copy.0 == before.scopes.len(),
            input_count == src.inputs.len(),
            a <= input_count,
            program@.wf(),
            program@.entry_point == before.entry_point,
            program@.builtins == before.builtins,
            program@.variables == before.variables + cloned_variables(before, ids, ids.len()),
            program@.scopes == before.scopes.push(
                ScopeView {
                    symbols: copied_symbols(src, first, src.symbols.len()),
                    intermediates: copied_intermediates(src, first, src.intermediates.len()),
                    inputs: converted_ids(table@.current, src.inputs, a as nat),
                    ..ScopeView::empty(parent)
                },
            ),
            table@.images_below(program@.variables.len()),
        decreases input_count - a,
    {
        let old_input = program.borrow_scope(source).borrow_inputs()[a];
        assert(old_input == src.inputs[a as int]);
        assert(src.ids_below(before.variables.len()));
        let converted = table.convert(old_input);
        program.add_input(copy, converted);
        proof {
            assert(converted_ids(table@.current, src.inputs, a as nat).push(converted)
                =~= converted_ids(table@.current, src.inputs, (a + 1) as nat));
            assert(program@.scopes =~= before.scopes.push(
                ScopeView {
                    symbols: copied_symbols(src, first, src.symbols.len()),
                    intermediates: copied_intermediates(src, first, src.intermediates.len()),
                    inputs: converted_ids(table@.current, src.inputs, (a + 1) as nat),
                    ..ScopeView::empty(parent)
                },
            ));
        }
        a += 1;
    }
    let output_count: usize = program.borrow_scope(source).borrow_outputs().len();
    proof {
        assert(converted_ids(table@.current, src.outputs, 0) =~= Seq::empty());
    }
    let mut b: usize = 0;
    while b < output_count
        invariant
            before == old(program)@,
            table_before == old(table)@,
            table@.stack == table_before.stack,
            table@.current.substitutions == table_before.current.substitutions,
            before.wf(),
            before.has_scope(source),
            src == before.scope(source),
            ids == src.own_ids(),
            first == before.variables.len(),
            copy.0 == before.scopes.len(),
            output_count == src.outputs.len(),
            b <= output_count,
            program@.wf(),
            program@.entry_point == before.entry_point,
            program@.builtins == before.builtins,
            program@.variables == before.variables + cloned_variables(before, ids, ids.len()),
            program@.scopes == before.scopes.push(
                ScopeView {
                    outputs: converted_ids(table@.current, src.outputs, b as nat),
                    ..copy_of(before, source, parent, table@.current)
                },
            ),
            table@.images_below(program@.variables.len()),
        decreases output_count - b,
    {
        let old_output = program.borrow_scope(source).borrow_outputs()[b];
        assert(old_output == src.outputs[b as int]);
        assert(src.ids_below(before.variables.len()));
        let converted = table.convert(old_output);
        program.add_output(copy, converted);
        proof {
            assert(converted_ids(table@.current, src.outputs, b as nat).push(converted)
                =~= converted_ids(table@.current, src.outputs, (b + 1) as nat));
            assert(program@.scopes =~= before.scopes.push(
                ScopeView {
                    outputs: converted_ids(table@.current, src.outputs, (b + 1) as nat),
                    ..copy_of(before, source, parent, table@.current)
                },
            ));
        }
        b += 1;
    }
    let total: usize = program.variables.len();
    proof {
        assert(total == first + ids.len());
        lemma_with_instances(table_before, table@, ids, first);
    }
    Ok(copy)
}

/// Converts the type of one variable, and the data type that it holds, if it holds one.
fn convert_types_of(program: &mut Program, table: &ResolverTable, id: VariableId)
    requires
        old(program)@.wf(),
        old(program)@.has_variable(id),
    ensures
        final(program)@ == old(program)@.with_converted_types(table@.current, id),
        final(program)@.wf(),
        final(program)@.extends(old(program)@),
        final(program)@.scopes == old(program)@.scopes,
        final(program)@.variables.len() == old(program)@.variables.len(),
{
    let data_type = convert_type(table, program.borrow_variable(id).borrow_data_type());
    let initial_value = convert_value(table, program.borrow_variable(id).borrow_initial_value());
    let temporary_value = convert_value(table, program.borrow_variable(id).borrow_temporary_value());
    program.set_data_type(id, data_type);
    program.set_initial_value(id, initial_value);
    program.set_temporary_value(id, temporary_value);
    assert(program@.variables =~= old(program)@.with_converted_types(table@.current, id).variables);
}

/// Converts the types that the variables of the scope `scope` defer to:
/// the type of each variable that belongs to the scope, and the data type
/// that it holds, if it holds one, in the order of the scope's own
/// variables.
///
/// After a scope was copied, this makes the types of the copy speak of
/// the variables of the copy, where they spoke of those of the source.
#[verifier::loop_isolation(false)]
pub fn convert_deferred_types(program: &mut Program, table: &ResolverTable, scope: ScopeId)
    requires
        old(program)@.wf(),
        old(program)@.has_scope(scope),
    ensures
        final(program)@ == old(program)@.after_converting(
            table@.current,
            old(program)@.scope(scope).own_ids(),
            old(program)@.scope(scope).own_ids().len() as int,
        ),
        final(program)@.wf(),
        final(program)@.extends(old(program)@),
        final(program)@.scopes == old(program)@.scopes,
        final(program)@.variables.len() == old(program)@.variables.len(),
{
    let ghost ids = program@.scope(scope).own_ids();
    let symbol_count: usize = program.borrow_scope(scope).borrow_symbols().len();
    let intermediate_count: usize = program.borrow_scope(scope).borrow_intermediates().len();
    let mut i: usize = 0;
    while i < symbol_count
        invariant
            i <= symbol_count,
            symbol_count == old(program)@.scope(scope).symbols.len(),
            intermediate_count == old(program)@.scope(scope).intermediates.len(),
            program@ == old(program)@.after_converting(table@.current, ids, i as int),
            program@.wf(),
            program@.extends(old(program)@),
            program@.scopes == old(program)@.scopes,
            program@.variables.len() == old(program)@.variables.len(),
        decreases symbol_count - i,
    {
        let id = program.borrow_scope(scope).borrow_symbols()[i].id;
        assert(id == ids[i as int]);
        assert(program@.scopes[scope.0 as int].ids_below(program@.variables.len()));
        convert_types_of(program, table, id);
        i += 1;
    }
    let mut j: usize = 0;
    while j < intermediate_count
        invariant
            j <= intermediate_count,
            symbol_count == old(program)@.scope(scope).symbols.len(),
            intermediate_count == old(program)@.scope(scope).intermediates.len(),
            program@ == old(program)@.after_converting(table@.current, ids, symbol_count + j),
            program@.wf(),
            program@.extends(old(program)@),
            program@.scopes == old(program)@.scopes,
            program@.variables.len() == old(program)@.variables.len(),
        decreases intermediate_count - j,
    {
        let id = program.borrow_scope(scope).borrow_intermediates()[j];
        assert(id == ids[symbol_count + j]);
        assert(program@.scopes[scope.0 as int].ids_below(program@.variables.len()));
        convert_types_of(program, table, id);
        j += 1;
    }
}

/// The clones of the first `done` variables of a copy, once converted,
/// are the variables of the instance; the others are still clones.
proof fn lemma_converting_clones(
    before: ProgramView,
    source: ScopeId,
    parent: Option<ScopeId>,
    frame: FrameView,
    done: int,
)
    requires
        before.has_scope(source),
        before.variables.len() + before.scope(source).own_ids().len() <= usize::MAX,
        0 <= done <= before.scope(source).own_ids().len(),
    ensures
        before.with_clone(source, parent, frame).after_converting(
            frame,
            copy_of(before, source, parent, frame).own_ids(),
            done,
        ) == (ProgramView {
            variables: before.variables + instance_variables(
                before,
                frame,
                before.scope(source).own_ids(),
                done as nat,
            ),
            ..before.with_clone(source, parent, frame)
        }),
    decreases done,
{
    let ids = before.scope(source).own_ids();
    let cloned = before.with_clone(source, parent, frame);
    let new_ids = copy_of(before, source, parent, frame).own_ids();
    let first = before.variables.len();
    if done == 0 {
        assert(cloned.variables =~= before.variables + instance_variables(before, frame, ids, 0));
    } else {
        lemma_converting_clones(before, source, parent, frame, done - 1);
        let earlier = cloned.after_converting(frame, new_ids, done - 1);
        assert(new_ids[done - 1] == VariableId((first + done - 1) as usize));
        assert(earlier.variable(new_ids[done - 1]) == before.variable(ids[done - 1]));
        assert(earlier.with_converted_types(frame, new_ids[done - 1]).variables
            =~= before.variables + instance_variables(before, frame, ids, done as nat));
    }
}

/// A copy whose types were converted is an instance.
pub proof fn lemma_converted_clone(
    before: ProgramView,
    source: ScopeId,
    parent: Option<ScopeId>,
    frame: FrameView,
)
    requires
        before.has_scope(source),
        before.variables.len() + before.scope(source).own_ids().len() <= usize::MAX,
    ensures
        before.with_clone(source, parent, frame).after_converting(
            frame,
            copy_of(before, source, parent, frame).own_ids(),
            before.scope(source).own_ids().len() as int,
        ) == before.with_copy(source, parent, frame),
{
    lemma_converting_clones(
        before,
        source,
        parent,
        frame,
        before.scope(source).own_ids().len() as int,
    );
}

/// Instantiates the scope `source` under the table in force: copies it,
/// and converts the types that the variables of the copy defer to, so that
/// they speak of the variables of the copy.
///
/// Fails where `copy_scope` fails, and leaves what it has left.
pub fn instantiate_scope(
    program: &mut Program,
    table: &mut ResolverTable,
    source: ScopeId,
    parent: Option<ScopeId>,
) -> (r: Result<ScopeId, CompileProblem>)
    requires
        old(program)@.wf(),
        old(program)@.has_scope(source),
        parent is Some ==> old(program)@.has_scope(parent.unwrap()),
        old(table)@.images_below(old(program)@.variables.len()),
    ensures
        final(program)@.wf(),
        final(program)@.extends(old(program)@),
        final(program)@.grown_from(old(program)@),
        final(program)@.scopes.len() == old(program)@.scopes.len() + 1,
        final(program)@.scopes.last().body.len() == 0,
        final(table)@.stack == old(table)@.stack,
        final(table)@.current.substitutions == old(table)@.current.substitutions,
        final(table)@.images_below(final(program)@.variables.len()),
        r is Ok == convertible(old(table)@.current, old(program)@.scope(source).own_ids()),
        r is Err ==> r.unwrap_err()@ == crate::binary::problem_at(
            ProblemKind::DuplicateConversion,
            crate::position::FilePosition::spec_placeholder(),
        ),
        r is Ok ==> {
            &&& r.unwrap().0 == old(program)@.scopes.len()
            &&& final(table)@.converts_also(
                old(table)@,
                old(program)@.scope(source).own_ids(),
                old(program)@.variables.len(),
            )
            &&& final(table)@ == old(table)@.with_instances(
                old(program)@.scope(source).own_ids(),
                old(program)@.variables.len(),
            )
            &&& final(program)@ == old(program)@.with_copy(source, parent, final(table)@.current)
            &&& old(table)@.current.one_to_one() ==> final(table)@.current.one_to_one()
        },
{
    let ghost before = program@;
    let copy = match copy_scope(program, table, source, parent) {
        Ok(copy) => copy,
        Err(problem) => {
            return Err(problem);
        },
    };
    let ghost cloned = program@;
    let total: usize = program.variables.len();
    assert(cloned.scope(copy) == copy_of(before, source, parent, table@.current));
    convert_deferred_types(program, table, copy);
    proof {
        assert(total == before.variables.len() + before.scope(source).own_ids().len());
        lemma_converted_clone(before, source, parent, table@.current);
        let after = before.with_copy(source, parent, table@.current);
        assert(program@ == after);
        assert(after.grown_from(before));
    }
    Ok(copy)
}

/// A variable that has a conversion after some of `ids` were converted
/// either had one before or stands twice among `ids`.
proof fn lemma_not_convertible(
    before: TableView,
    now: TableView,
    ids: Seq<VariableId>,
    done: int,
    first: nat,
)
    requires
        0 <= done < ids.len(),
        now.converts_also(before, ids.subrange(0, done), first),
        now.current.conversions.contains_key(ids[done]),
    ensures
        !convertible(before.current, ids),
{
    if !before.current.conversions.contains_key(ids[done]) {
        let k = choose|k: int| 0 <= k < done && ids.subrange(0, done)[k] == ids[done];
        assert(ids[k] == ids[done]);
    }
}

/// The table after one more of `ids` got its conversion.
proof fn lemma_one_more_conversion(
    before: TableView,
    mid: TableView,
    now: TableView,
    ids: Seq<VariableId>,
    done: int,
    first: nat,
)
    requires
        0 <= done < ids.len(),
        first + done <= usize::MAX,
        mid.converts_also(before, ids.subrange(0, done), first),
        convertible(before.current, ids.subrange(0, done)),
        !mid.current.conversions.contains_key(ids[done]),
        now == mid.with_conversion(ids[done], VariableId((first + done) as usize)),
    ensures
        now.converts_also(before, ids.subrange(0, done + 1), first),
        convertible(before.current, ids.subrange(0, done + 1)),
{
    let earlier = ids.subrange(0, done);
    let later = ids.subrange(0, done + 1);
    assert forall|key: VariableId| #[trigger]
        now.current.conversions.contains_key(key) <==> (before.current.conversions.contains_key(
            key,
        ) || later.contains(key)) by {
        if later.contains(key) {
            let k = choose|k: int| 0 <= k < later.len() && later[k] == key;
            if k < done {
                assert(earlier[k] == key);
            }
        }
        if earlier.contains(key) {
            let k = choose|k: int| 0 <= k < earlier.len() && earlier[k] == key;
            assert(later[k] == key);
        }
        assert(later[done] == ids[done]);
    }
    assert forall|k: int| 0 <= k < later.len() implies now.current.conversions[#[trigger] later[k]].0
        == first + k by {
        if k < done {
            assert(earlier[k] == later[k]);
            assert(earlier.contains(later[k]));
        }
    }
    assert forall|k: int| 0 <= k < later.len() implies !before.current.conversions.contains_key(
        #[trigger] later[k],
    ) by {
        if k < done {
            assert(earlier[k] == later[k]);
        }
    }
    assert forall|k: int, l: int| 0 <= k < l < later.len() implies #[trigger] later[k]
        != #[trigger] later[l] by {
        if l < done {
            assert(earlier[k] == later[k]);
            assert(earlier[l] == later[l]);
        } else {
            assert(earlier[k] == later[k]);
            assert(earlier.contains(later[k]));
        }
    }
}

/// A copy is a new scope, so it is not its source. Two copies of one
/// source, however much the program grew between them, are two scopes
/// whose variables are pairwise different and different from those of the
/// source, so that a change to a variable of one copy leaves every
/// variable of the other as it was.
pub proof fn lemma_copies_are_distinct(
    start: ProgramView,
    once: ProgramView,
    later: ProgramView,
    twice: ProgramView,
    source: ScopeId,
    first_parent: Option<ScopeId>,
    first_frame: FrameView,
    second_parent: Option<ScopeId>,
    second_frame: FrameView,
    changed: crate::variable::VariableView,
)
    requires
        start.wf(),
        start.has_scope(source),
        copied(start, once, source, first_parent, first_frame),
        once.scopes.len() <= later.scopes.len(),
        once.variables.len() <= later.variables.len(),
        later.has_scope(source),
        copied(later, twice, source, second_parent, second_frame),
        twice.scopes.len() <= usize::MAX,
        twice.variables.len() <= usize::MAX,
    ensures
        ({
            let first = ScopeId(start.scopes.len() as usize);
            let second = ScopeId(later.scopes.len() as usize);
            &&& first != source
            &&& second != source
            &&& first != second
            &&& twice.has_scope(first)
            &&& twice.has_scope(second)
            &&& forall|i: int, j: int|
                0 <= i < once.scope(first).own_ids().len() && 0 <= j < twice.scope(
                    second,
                ).own_ids().len() ==> {
                    let one = #[trigger] once.scope(first).own_ids()[i];
                    let other = #[trigger] twice.scope(second).own_ids()[j];
                    &&& one != other
                    &&& twice.has_variable(one)
                    &&& twice.has_variable(other)
                    &&& twice.with_variable(one, changed).variable(other) == twice.variable(other)
                    &&& twice.with_variable(other, changed).variable(one) == twice.variable(one)
                }
            &&& forall|i: int, j: int|
                0 <= i < once.scope(first).own_ids().len() && 0 <= j < start.scope(
                    source,
                ).own_ids().len() ==> #[trigger] once.scope(first).own_ids()[i]
                    != #[trigger] start.scope(source).own_ids()[j]
        }),
{
    let first = ScopeId(start.scopes.len() as usize);
    let second = ScopeId(later.scopes.len() as usize);
    assert(start.scope(source).ids_below(start.variables.len()));
    assert(once.scope(first) == copy_of(start, source, first_parent, first_frame));
    assert(twice.scope(second) == copy_of(later, source, second_parent, second_frame));
}

} // verus!
