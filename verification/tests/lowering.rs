use waveguide::specialized;
use waveguide::specialized::ingest;
use waveguide::trivial::{
    BinaryOperator, Condition, DataType, Instruction, LabelId, LiteralData, Program, Value, ValueBase, Variable,
    VariableId,
};

fn list(len: usize, of: DataType) -> DataType {
    DataType::Array(len, Box::new(of))
}

fn bytes(variable: usize, length: usize) -> specialized::Value {
    specialized::Value::VariableAccess {
        variable: specialized::VariableId(variable),
        indexes: vec![],
        offset: 0,
        length,
    }
}

#[test]
fn a_value_takes_as_many_bytes_as_its_type_says() {
    assert_eq!(DataType::B1.get_physical_size(), Some(1));
    assert_eq!(DataType::I32.get_physical_size(), Some(4));
    assert_eq!(DataType::F32.get_physical_size(), Some(4));
    assert_eq!(list(3, DataType::I32).get_physical_size(), Some(12));
    assert_eq!(list(5, list(3, DataType::B1)).get_physical_size(), Some(15));
    assert_eq!(list(0, list(usize::MAX, DataType::I32)).get_physical_size(), Some(0));
    assert_eq!(list(usize::MAX, DataType::B1).get_physical_size(), Some(usize::MAX));
    assert_eq!(list(usize::MAX, DataType::I32).get_physical_size(), None);
    assert_eq!(list(2, list(usize::MAX, DataType::B1)).get_physical_size(), None);
    assert_eq!(Variable::new(list(2, DataType::F32)).get_physical_size(), Some(8));
    assert_eq!(*Variable::new(DataType::B1).borrow_type(), DataType::B1);
}

#[test]
fn each_variable_gets_a_variable_of_its_own_when_it_is_met_first() {
    let mut source = Program::new();
    let unused = source.adopt_variable(Variable::new(DataType::B1));
    let whole = source.adopt_variable(Variable::new(DataType::I32));
    let triple = source.adopt_variable(Variable::new(list(3, DataType::F32)));
    assert_eq!((unused, whole, triple), (VariableId(0), VariableId(1), VariableId(2)));
    source.add_instruction(Instruction::Move {
        from: Value::literal(LiteralData::Int(5)),
        to: Value::variable(triple),
    });
    source.add_instruction(Instruction::BinaryOperation {
        op: BinaryOperator::AddI,
        a: Value::variable(whole),
        b: Value::variable(triple),
        x: Value::variable(whole),
    });
    source.add_instruction(Instruction::Compare {
        a: Value::variable(whole),
        b: Value::literal(LiteralData::Bool(true)),
    });
    source.add_instruction(Instruction::Assert(Condition::LessThanOrEqual));
    let target = ingest(&source).unwrap();
    assert_eq!(target.variables, vec![Variable::new(list(3, DataType::F32)), Variable::new(DataType::I32)]);
    assert_eq!(
        target.instructions,
        vec![
            specialized::Instruction::Move {
                from: specialized::Value::Literal(LiteralData::Int(5)),
                to: bytes(0, 12),
            },
            specialized::Instruction::BinaryOperation {
                op: specialized::BinaryOperator::AddI,
                a: bytes(1, 4),
                b: bytes(0, 12),
                x: bytes(1, 4),
            },
            specialized::Instruction::Compare {
                a: bytes(1, 4),
                b: specialized::Value::Literal(LiteralData::Bool(true)),
            },
            specialized::Instruction::Assert(specialized::Condition::LessThanOrEqual),
        ]
    );
    assert_eq!(source.borrow_instructions().len(), 4);
}

#[test]
fn an_empty_program_stays_empty() {
    let target = ingest(&Program::new()).unwrap();
    assert!(target.instructions.is_empty());
    assert!(target.variables.is_empty());
}

#[test]
fn operators_and_conditions_keep_their_names() {
    let pairs = [
        (BinaryOperator::SubI, specialized::BinaryOperator::SubI),
        (BinaryOperator::MulF, specialized::BinaryOperator::MulF),
        (BinaryOperator::ModF, specialized::BinaryOperator::ModF),
        (BinaryOperator::BXor, specialized::BinaryOperator::BXor),
    ];
    for (from, to) in pairs {
        let mut source = Program::new();
        source.add_instruction(Instruction::BinaryOperation {
            op: from,
            a: Value::literal(LiteralData::Int(1)),
            b: Value::literal(LiteralData::Int(2)),
            x: Value::literal(LiteralData::Int(3)),
        });
        match &ingest(&source).unwrap().instructions[0] {
            specialized::Instruction::BinaryOperation { op, .. } => assert_eq!(*op, to),
            other => panic!("expected an operation, found {:?}", other),
        }
    }
    let mut source = Program::new();
    source.add_instruction(Instruction::Assert(Condition::NotEqual));
    source.add_instruction(Instruction::Assert(Condition::GreaterThan));
    assert_eq!(
        ingest(&source).unwrap().instructions,
        vec![
            specialized::Instruction::Assert(specialized::Condition::NotEqual),
            specialized::Instruction::Assert(specialized::Condition::GreaterThan),
        ]
    );
}

#[test]
fn what_cannot_be_specialized_has_no_result() {
    let mut labelled = Program::new();
    labelled.add_instruction(Instruction::Assert(Condition::Equal));
    labelled.add_instruction(Instruction::Label(LabelId(0)));
    assert!(ingest(&labelled).is_none());

    let mut jumping = Program::new();
    jumping.add_instruction(Instruction::Jump { label: LabelId(0) });
    assert!(ingest(&jumping).is_none());

    let mut indexed = Program::new();
    let items = indexed.adopt_variable(Variable::new(list(2, DataType::I32)));
    let at = indexed.adopt_variable(Variable::new(DataType::I32));
    indexed.add_instruction(Instruction::Move {
        from: Value { base: ValueBase::Variable(items), indexes: vec![at] },
        to: Value::variable(at),
    });
    assert!(ingest(&indexed).is_none());

    let mut missing = Program::new();
    missing.add_instruction(Instruction::Compare {
        a: Value::variable(VariableId(3)),
        b: Value::literal(LiteralData::Float(0)),
    });
    assert!(ingest(&missing).is_none());

    let mut huge = Program::new();
    let big = huge.adopt_variable(Variable::new(list(usize::MAX, DataType::I32)));
    huge.add_instruction(Instruction::Move { from: Value::variable(big), to: Value::variable(big) });
    assert!(ingest(&huge).is_none());
}
