//! The builtin functions: generic functions without statements, which
//! later stages know how to carry out.

use crate::data_type::DataType;
use crate::ids::VariableId;
use crate::known_data::{BuiltinFunction, FunctionData};
use crate::position::FilePosition;
use crate::program::{Builtins, Program, ProgramView};
use crate::variable::Variable;
use vstd::prelude::*;

verus! {

impl ProgramView {
    /// The variable `id` is a permanent variable that holds the builtin
    /// `kind`, whose parameters stand in a scope of the program: `inputs`
    /// inputs and one output.
    #[verifier::opaque]
    pub open spec fn holds_builtin(self, id: VariableId, kind: BuiltinFunction, inputs: nat) -> bool {
        &&& self.has_variable(id)
        &&& self.variable(id).permanent
        &&& self.variable(id).initial_value is Function
        &&& self.variable(id).initial_value->Function_0.builtin == Some(kind)
        &&& self.has_scope(self.variable(id).initial_value->Function_0.body)
        &&& self.scope(self.variable(id).initial_value->Function_0.body).inputs.len() == inputs
        &&& self.scope(self.variable(id).initial_value->Function_0.body).outputs.len() == 1
    }

    /// Every variable and every scope of `before` is in this program as it was there,
    /// but that the root scope may have gained symbols.
    #[verifier::opaque]
    pub open spec fn keeps(self, before: ProgramView) -> bool {
        &&& before.variables.len() <= self.variables.len()
        &&& before.scopes.len() <= self.scopes.len()
        &&& forall|i: int|
            0 <= i < before.variables.len() ==> #[trigger] self.variables[i] == before.variables[i]
        &&& forall|i: int|
            0 < i < before.scopes.len() ==> #[trigger] self.scopes[i] == before.scopes[i]
    }
}

impl ProgramView {
    /// The program after a variable was added at its end and given a name in a scope.
    pub open spec fn with_named(self, scope: crate::ids::ScopeId, name: Seq<char>, variable: crate::variable::VariableView) -> ProgramView {
        self.plus_variable(variable).with_scope(
            scope,
            crate::scope::ScopeView {
                symbols: self.scope(scope).with_symbol(
                    name,
                    VariableId(self.variables.len() as usize),
                ),
                ..self.scope(scope)
            },
        )
    }

    /// The program after the variable `id` was declared the next input of a scope.
    pub open spec fn with_input(self, scope: crate::ids::ScopeId, id: VariableId) -> ProgramView {
        self.with_scope(
            scope,
            crate::scope::ScopeView { inputs: self.scope(scope).inputs.push(id), ..self.scope(scope) },
        )
    }

    /// The program after the variable `id` was declared the next output of a scope.
    pub open spec fn with_output(self, scope: crate::ids::ScopeId, id: VariableId) -> ProgramView {
        self.with_scope(
            scope,
            crate::scope::ScopeView {
                outputs: self.scope(scope).outputs.push(id),
                ..self.scope(scope)
            },
        )
    }

    /// The program after one builtin was added: a scope inside the root
    /// that declares the template parameter `T`, the inputs `a` and, with
    /// two inputs, `b`, of type `T`, and the output `x`, boolean for a
    /// comparison and of type `T` else; and in the root the permanent
    /// variable `name` that holds the builtin.
    #[verifier::opaque]
    pub open spec fn with_builtin(self, name: Seq<char>, kind: BuiltinFunction, two_inputs: bool, comparison: bool) -> ProgramView {
        let placeholder = FilePosition::spec_placeholder();
        let root = root_scope();
        let body = crate::ids::ScopeId(self.scopes.len() as usize);
        let parameter = VariableId(self.variables.len() as usize);
        let generic = DataType::LoadTemplateParameter(parameter);
        let declared = self.plus_scope(crate::scope::ScopeView::empty(Some(root))).with_named(
            body,
            "T"@,
            crate::variable::VariableView::fresh(
                placeholder,
                DataType::DataType_,
                Some(crate::known_data::Value::DataType(DataType::Automatic)),
                true,
            ),
        );
        let first = declared.with_named(
            body,
            "a"@,
            crate::variable::VariableView::fresh(placeholder, generic, None, false),
        ).with_input(body, VariableId((self.variables.len() + 1) as usize));
        let second = if two_inputs {
            first.with_named(
                body,
                "b"@,
                crate::variable::VariableView::fresh(placeholder, generic, None, false),
            ).with_input(body, VariableId((self.variables.len() + 2) as usize))
        } else {
            first
        };
        let result = VariableId(second.variables.len() as usize);
        let whole = second.with_named(
            body,
            "x"@,
            crate::variable::VariableView::fresh(
                placeholder,
                if comparison {
                    DataType::Bool
                } else {
                    generic
                },
                None,
                false,
            ),
        ).with_output(body, result);
        whole.with_named(
            root,
            name,
            crate::variable::VariableView::fresh(
                placeholder,
                DataType::Function_,
                Some(
                    crate::known_data::Value::Function(
                        FunctionData { body, builtin: Some(kind), header: placeholder },
                    ),
                ),
                true,
            ),
        )
    }
}

impl ProgramView {
    /// The program after every builtin was added, in their order, and the
    /// places of all of them were recorded.
    pub open spec fn with_builtins(self) -> ProgramView {
        let all = self.with_builtin(
            "!ADD"@,
            BuiltinFunction::Add,
            true,
            false,
        ).with_builtin(
            "!SUB"@,
            BuiltinFunction::Subtract,
            true,
            false,
        ).with_builtin(
            "!MUL"@,
            BuiltinFunction::Multiply,
            true,
            false,
        ).with_builtin(
            "!DIV"@,
            BuiltinFunction::Divide,
            true,
            false,
        ).with_builtin(
            "!INT_DIV"@,
            BuiltinFunction::IntDiv,
            true,
            false,
        ).with_builtin(
            "!MOD"@,
            BuiltinFunction::Modulo,
            true,
            false,
        ).with_builtin(
            "!POW"@,
            BuiltinFunction::Power,
            true,
            false,
        ).with_builtin(
            "!LTE"@,
            BuiltinFunction::LessThanOrEqual,
            true,
            true,
        ).with_builtin(
            "!LT"@,
            BuiltinFunction::LessThan,
            true,
            true,
        ).with_builtin(
            "!GTE"@,
            BuiltinFunction::GreaterThanOrEqual,
            true,
            true,
        ).with_builtin(
            "!GT"@,
            BuiltinFunction::GreaterThan,
            true,
            true,
        ).with_builtin(
            "!EQ"@,
            BuiltinFunction::Equal,
            true,
            true,
        ).with_builtin(
            "!NEQ"@,
            BuiltinFunction::NotEqual,
            true,
            true,
        ).with_builtin(
            "!BAND"@,
            BuiltinFunction::BAnd,
            true,
            false,
        ).with_builtin(
            "!BXOR"@,
            BuiltinFunction::BXor,
            true,
            false,
        ).with_builtin(
            "!BOR"@,
            BuiltinFunction::BOr,
            true,
            false,
        ).with_builtin(
            "!AND"@,
            BuiltinFunction::And,
            true,
            false,
        ).with_builtin(
            "!XOR"@,
            BuiltinFunction::Xor,
            true,
            false,
        ).with_builtin(
            "!OR"@,
            BuiltinFunction::Or,
            true,
            false,
        ).with_builtin(
            "!COPY"@,
            BuiltinFunction::Copy,
            false,
            false,
        );
        ProgramView { builtins: Some(Builtins::placed(self.variables.len())), ..all }
    }
}

impl Builtins {
    /// Where the builtins are when they were added to a program that had
    /// `first` variables: each takes five variables, and is the last of them.
    pub open spec fn placed(first: nat) -> Builtins {
        Builtins {
            add_func: VariableId((first + 4) as usize),
            sub_func: VariableId((first + 9) as usize),
            mul_func: VariableId((first + 14) as usize),
            div_func: VariableId((first + 19) as usize),
            int_div_func: VariableId((first + 24) as usize),
            mod_func: VariableId((first + 29) as usize),
            pow_func: VariableId((first + 34) as usize),
            lte_func: VariableId((first + 39) as usize),
            lt_func: VariableId((first + 44) as usize),
            gte_func: VariableId((first + 49) as usize),
            gt_func: VariableId((first + 54) as usize),
            eq_func: VariableId((first + 59) as usize),
            neq_func: VariableId((first + 64) as usize),
            band_func: VariableId((first + 69) as usize),
            bxor_func: VariableId((first + 74) as usize),
            bor_func: VariableId((first + 79) as usize),
            and_func: VariableId((first + 84) as usize),
            xor_func: VariableId((first + 89) as usize),
            or_func: VariableId((first + 94) as usize),
            copy_func: VariableId((first + 98) as usize),
        }
    }

    /// Each variable holds the builtin that it is named after.
    pub open spec fn all_hold(self, program: ProgramView) -> bool {
        &&& program.holds_builtin(self.add_func, BuiltinFunction::Add, 2)
        &&& program.holds_builtin(self.sub_func, BuiltinFunction::Subtract, 2)
        &&& program.holds_builtin(self.mul_func, BuiltinFunction::Multiply, 2)
        &&& program.holds_builtin(self.div_func, BuiltinFunction::Divide, 2)
        &&& program.holds_builtin(self.int_div_func, BuiltinFunction::IntDiv, 2)
        &&& program.holds_builtin(self.mod_func, BuiltinFunction::Modulo, 2)
        &&& program.holds_builtin(self.pow_func, BuiltinFunction::Power, 2)
        &&& program.holds_builtin(self.lte_func, BuiltinFunction::LessThanOrEqual, 2)
        &&& program.holds_builtin(self.lt_func, BuiltinFunction::LessThan, 2)
        &&& program.holds_builtin(self.gte_func, BuiltinFunction::GreaterThanOrEqual, 2)
        &&& program.holds_builtin(self.gt_func, BuiltinFunction::GreaterThan, 2)
        &&& program.holds_builtin(self.eq_func, BuiltinFunction::Equal, 2)
        &&& program.holds_builtin(self.neq_func, BuiltinFunction::NotEqual, 2)
        &&& program.holds_builtin(self.band_func, BuiltinFunction::BAnd, 2)
        &&& program.holds_builtin(self.bxor_func, BuiltinFunction::BXor, 2)
        &&& program.holds_builtin(self.bor_func, BuiltinFunction::BOr, 2)
        &&& program.holds_builtin(self.and_func, BuiltinFunction::And, 2)
        &&& program.holds_builtin(self.xor_func, BuiltinFunction::Xor, 2)
        &&& program.holds_builtin(self.or_func, BuiltinFunction::Or, 2)
        &&& program.holds_builtin(self.copy_func, BuiltinFunction::Copy, 1)
    }
}

/// What a program keeps of a program that kept something, it keeps of that.
pub proof fn lemma_keeps_transitive(first: ProgramView, second: ProgramView, third: ProgramView)
    requires
        second.keeps(first),
        third.keeps(second),
    ensures
        third.keeps(first),
{
    reveal(ProgramView::keeps);
}

/// Every program keeps itself.
pub proof fn lemma_keeps_itself(program: ProgramView)
    ensures
        program.keeps(program),
{
    reveal(ProgramView::keeps);
}

/// Adds one builtin to the program: a scope inside the root for its
/// parameters, and in the root the permanent variable `name` that holds it.
///
/// The scope declares the template parameter `T`, which holds the
/// automatic type until a call binds it, the inputs `a` and, with two
/// inputs, `b`, of type `T`, and the output `x`, which is boolean for a
/// comparison and of type `T` else.
pub fn add_builtin(program: &mut Program, name: &str, kind: BuiltinFunction, two_inputs: bool, comparison: bool) -> (id:
    VariableId)
    requires
        old(program)@.wf(),
    ensures
        final(program)@ == old(program)@.with_builtin(name@, kind, two_inputs, comparison),
        id.0 == old(program)@.variables.len() + if two_inputs { 4int } else { 3int },
        final(program)@.variables.len() == id.0 + 1,
        final(program)@.wf(),
        final(program)@.extends(old(program)@),
        final(program)@.keeps(old(program)@),
        final(program)@.builtins == old(program)@.builtins,
        final(program)@.holds_builtin(id, kind, if two_inputs { 2 } else { 1 }),
        final(program)@.variable(id).initial_value->Function_0.body.0 == old(program)@.scopes.len(),
        final(program)@.lookup(root_scope(), name@) == Some(id),
        forall|other: VariableId, held: BuiltinFunction, inputs: nat| #[trigger]
            old(program)@.holds_builtin(other, held, inputs) ==> final(program)@.holds_builtin(
                other,
                held,
                inputs,
            ),
{
    reveal(ProgramView::holds_builtin);
    reveal(ProgramView::keeps);
    reveal(ProgramView::with_builtin);
    let ghost before = program@;
    let placeholder = FilePosition::placeholder();
    let root = crate::ids::ScopeId(0);
    let body = program.create_child_scope(root);
    let parameter = program.adopt_and_define_symbol(
        body,
        "T",
        Variable::data_type(placeholder, DataType::Automatic),
    );
    let a = program.adopt_and_define_symbol(
        body,
        "a",
        Variable::variable(placeholder, DataType::LoadTemplateParameter(parameter), None),
    );
    program.add_input(body, a);
    if two_inputs {
        let b = program.adopt_and_define_symbol(
            body,
            "b",
            Variable::variable(placeholder, DataType::LoadTemplateParameter(parameter), None),
        );
        program.add_input(body, b);
    }
    let output_type = if comparison {
        DataType::Bool
    } else {
        DataType::LoadTemplateParameter(parameter)
    };
    let x = program.adopt_and_define_symbol(
        body,
        "x",
        Variable::variable(placeholder, output_type, None),
    );
    program.add_output(body, x);
    let ghost inner = program@;
    assert(inner.keeps(before));
    assert(inner.extends(before));
    let id = program.adopt_and_define_symbol(
        root,
        name,
        Variable::function_def(FunctionData::builtin(body, kind, placeholder)),
    );
    proof {
        crate::scope::lemma_with_symbol(inner.scope(root), name@, id, name@);
        assert(program@.scope(root).lookup(name@) == Some(id));
        assert forall|other: VariableId, held: BuiltinFunction, inputs: nat| #[trigger]
            before.holds_builtin(other, held, inputs) implies program@.holds_builtin(
            other,
            held,
            inputs,
        ) by {
            let scope = before.variable(other).initial_value->Function_0.body;
            assert(before.scopes[scope.0 as int].ids_below(before.variables.len()));
            if scope.0 == 0 {
                assert(program@.scope(scope).inputs == before.scope(scope).inputs);
                assert(program@.scope(scope).outputs == before.scope(scope).outputs);
            }
        }
    }
    id
}

/// Adds one builtin to a program that keeps what `start` held.
fn add_next(
    program: &mut Program,
    start: Ghost<ProgramView>,
    name: &str,
    kind: BuiltinFunction,
    two_inputs: bool,
    comparison: bool,
) -> (id: VariableId)
    requires
        old(program)@.wf(),
        old(program)@.keeps(start@),
        old(program)@.entry_point == start@.entry_point,
        old(program)@.builtins == start@.builtins,
    ensures
        final(program)@ == old(program)@.with_builtin(name@, kind, two_inputs, comparison),
        id.0 == old(program)@.variables.len() + if two_inputs { 4int } else { 3int },
        final(program)@.variables.len() == id.0 + 1,
        final(program)@.wf(),
        final(program)@.keeps(start@),
        final(program)@.entry_point == start@.entry_point,
        final(program)@.builtins == start@.builtins,
        final(program)@.holds_builtin(id, kind, if two_inputs { 2 } else { 1 }),
        forall|other: VariableId, held: BuiltinFunction, inputs: nat| #[trigger]
            old(program)@.holds_builtin(other, held, inputs) ==> final(program)@.holds_builtin(
                other,
                held,
                inputs,
            ),
{
    let ghost before = program@;
    let id = add_builtin(program, name, kind, two_inputs, comparison);
    proof {
        lemma_keeps_transitive(start@, before, program@);
    }
    id
}

/// Adds every builtin to the program and records where they are.
pub fn add_builtins(program: &mut Program) -> (r: Builtins)
    requires
        old(program)@.wf(),
    ensures
        final(program)@ == old(program)@.with_builtins(),
        r == Builtins::placed(old(program)@.variables.len()),
        final(program)@.wf(),
        final(program)@.keeps(old(program)@),
        final(program)@.builtins == Some(r),
        final(program)@.entry_point == old(program)@.entry_point,
        r.all_hold(final(program)@),
{
    let ghost start = program@;
    proof {
        lemma_keeps_itself(start);
    }
    let add_func = add_next(program, Ghost(start), "!ADD", BuiltinFunction::Add, true, false);
    let sub_func = add_next(program, Ghost(start), "!SUB", BuiltinFunction::Subtract, true, false);
    let mul_func = add_next(program, Ghost(start), "!MUL", BuiltinFunction::Multiply, true, false);
    let div_func = add_next(program, Ghost(start), "!DIV", BuiltinFunction::Divide, true, false);
    let int_div_func = add_next(program, Ghost(start), "!INT_DIV", BuiltinFunction::IntDiv, true, false);
    let mod_func = add_next(program, Ghost(start), "!MOD", BuiltinFunction::Modulo, true, false);
    let pow_func = add_next(program, Ghost(start), "!POW", BuiltinFunction::Power, true, false);
    let lte_func = add_next(program, Ghost(start), "!LTE", BuiltinFunction::LessThanOrEqual, true, true);
    let lt_func = add_next(program, Ghost(start), "!LT", BuiltinFunction::LessThan, true, true);
    let gte_func = add_next(program, Ghost(start), "!GTE", BuiltinFunction::GreaterThanOrEqual, true, true);
    let gt_func = add_next(program, Ghost(start), "!GT", BuiltinFunction::GreaterThan, true, true);
    let eq_func = add_next(program, Ghost(start), "!EQ", BuiltinFunction::Equal, true, true);
    let neq_func = add_next(program, Ghost(start), "!NEQ", BuiltinFunction::NotEqual, true, true);
    let band_func = add_next(program, Ghost(start), "!BAND", BuiltinFunction::BAnd, true, false);
    let bxor_func = add_next(program, Ghost(start), "!BXOR", BuiltinFunction::BXor, true, false);
    let bor_func = add_next(program, Ghost(start), "!BOR", BuiltinFunction::BOr, true, false);
    let and_func = add_next(program, Ghost(start), "!AND", BuiltinFunction::And, true, false);
    let xor_func = add_next(program, Ghost(start), "!XOR", BuiltinFunction::Xor, true, false);
    let or_func = add_next(program, Ghost(start), "!OR", BuiltinFunction::Or, true, false);
    let copy_func = add_next(program, Ghost(start), "!COPY", BuiltinFunction::Copy, false, false);
    let r = Builtins {
        add_func,
        sub_func,
        mul_func,
        div_func,
        int_div_func,
        mod_func,
        pow_func,
        lte_func,
        lt_func,
        gte_func,
        gt_func,
        eq_func,
        neq_func,
        band_func,
        bxor_func,
        bor_func,
        and_func,
        xor_func,
        or_func,
        copy_func,
    };
    let ghost added = program@;
    program.builtins = Some(r);
    proof {
        lemma_builtins_recorded(added, program@, r);
        lemma_keeps_recorded(start, added, program@);
    }
    r
}

/// Recording where the builtins are changes nothing of what they are.
proof fn lemma_builtins_recorded(before: ProgramView, after: ProgramView, builtins: Builtins)
    requires
        builtins.all_hold(before),
        after == (ProgramView { builtins: Some(builtins), ..before }),
    ensures
        builtins.all_hold(after),
{
    reveal(ProgramView::holds_builtin);
}

/// Recording where the builtins are changes nothing of what is kept.
proof fn lemma_keeps_recorded(start: ProgramView, before: ProgramView, after: ProgramView)
    requires
        before.keeps(start),
        after.scopes == before.scopes,
        after.variables == before.variables,
    ensures
        after.keeps(start),
{
    reveal(ProgramView::keeps);
}

/// The root scope of every program.
pub open spec fn root_scope() -> crate::ids::ScopeId {
    crate::ids::ScopeId(0)
}

} // verus!
