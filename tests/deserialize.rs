use tinkerlang::instruction::{ArgValue, ArrayItem, Constant, DeserializeFault, Instruction};

fn des(parameters: usize, types: usize, name: &str, args: Vec<ArgValue>) -> Result<Instruction, DeserializeFault> {
    Instruction::deserialize(parameters, types, name.to_string(), args).map_err(|e| e.fault)
}

fn ints(values: &[i32]) -> Vec<ArgValue> {
    values.iter().map(|v| ArgValue::Int(*v)).collect()
}

#[test]
fn add_takes_result_then_operands() {
    assert_eq!(
        des(0, 0, "add", ints(&[3, 1, 2])),
        Ok(Instruction::Add { result: 3, a: 1, b: 2 })
    );
}

#[test]
fn ret_without_and_with_result() {
    assert_eq!(des(0, 0, "ret", vec![]), Ok(Instruction::Return { result: None }));
    assert_eq!(des(0, 0, "ret", ints(&[4])), Ok(Instruction::Return { result: Some(4) }));
    assert_eq!(
        des(0, 0, "ret", ints(&[4, 5])),
        Err(DeserializeFault::WrongArgumentCount { received: 2 })
    );
}

#[test]
fn unknown_mnemonic_is_refused() {
    let r = Instruction::deserialize(0, 0, "bogus".to_string(), ints(&[1, 2]));
    let e = r.unwrap_err();
    assert_eq!(e.fault, DeserializeFault::UnrecognizedInstruction);
    assert_eq!(e.mnemonic, "bogus");
    assert_eq!(e.args, ints(&[1, 2]));
}

#[test]
fn same_call_same_outcome() {
    let first = Instruction::deserialize(1, 1, "add".to_string(), ints(&[3, 1, 2]));
    let second = Instruction::deserialize(1, 1, "add".to_string(), ints(&[3, 1, 2]));
    assert_eq!(first, second);
    let first = Instruction::deserialize(1, 1, "bogus".to_string(), ints(&[1, 2]));
    let second = Instruction::deserialize(1, 1, "bogus".to_string(), ints(&[1, 2]));
    assert_eq!(first, second);
}

#[test]
fn ld_param_accepts_up_to_the_parameter_count() {
    assert_eq!(
        des(2, 0, "ld_param", ints(&[7, 0])),
        Ok(Instruction::LoadParameter { result: 7, parameter_number: 0 })
    );
    assert_eq!(
        des(2, 0, "ld_param", ints(&[7, 2])),
        Ok(Instruction::LoadParameter { result: 7, parameter_number: 2 })
    );
    assert_eq!(
        des(2, 0, "ld_param", ints(&[7, 3])),
        Err(DeserializeFault::ParameterOutOfRange { parameter_number: 3 })
    );
    assert_eq!(
        des(2, 0, "ld_param", ints(&[7, -1])),
        Err(DeserializeFault::ParameterOutOfRange { parameter_number: -1 })
    );
}

#[test]
fn ld_const_checks_the_type() {
    assert_eq!(
        des(0, 2, "ld_const", ints(&[1, 1, -5])),
        Ok(Instruction::LoadConstant { result: 1, type_id: 1, constant: Constant::Number(-5) })
    );
    assert_eq!(
        des(0, 2, "ld_const", ints(&[1, 2, 5])),
        Err(DeserializeFault::InvalidType { type_id: 2 })
    );
    assert_eq!(
        des(0, 2, "ld_const", ints(&[1, -1, 5])),
        Err(DeserializeFault::InvalidType { type_id: -1 })
    );
}

#[test]
fn call_takes_an_array_of_registers() {
    let args = vec![
        ArgValue::Int(5),
        ArgValue::Int(42),
        ArgValue::Array(vec![ArrayItem::Int(1), ArrayItem::Int(2)]),
    ];
    assert_eq!(
        des(0, 0, "call", args),
        Ok(Instruction::Call { result: 5, method_id: 42, parameters: vec![1, 2] })
    );
    let args = vec![ArgValue::Int(5), ArgValue::Int(0), ArgValue::Array(vec![])];
    assert_eq!(
        des(0, 0, "call", args),
        Ok(Instruction::Call { result: 5, method_id: 0, parameters: vec![] })
    );
}

#[test]
fn call_refuses_a_bad_array() {
    let args = vec![ArgValue::Int(5), ArgValue::Int(0), ArgValue::Int(1)];
    assert_eq!(des(0, 0, "call", args), Err(DeserializeFault::ExpectedArray { position: 2 }));
    let args = vec![
        ArgValue::Int(5),
        ArgValue::Int(0),
        ArgValue::Array(vec![ArrayItem::Int(1), ArrayItem::Other]),
    ];
    assert_eq!(des(0, 0, "call", args), Err(DeserializeFault::ExpectedInteger { position: 2 }));
}

#[test]
fn non_integer_arguments_are_not_coerced() {
    let args = vec![ArgValue::Int(3), ArgValue::Other, ArgValue::Int(2)];
    assert_eq!(des(0, 0, "add", args), Err(DeserializeFault::ExpectedInteger { position: 1 }));
    let args = vec![ArgValue::Array(vec![]), ArgValue::Int(1), ArgValue::Int(2)];
    assert_eq!(des(0, 0, "add", args), Err(DeserializeFault::ExpectedInteger { position: 0 }));
}

#[test]
fn argument_counts_are_checked() {
    assert_eq!(
        des(0, 0, "add", ints(&[1, 2])),
        Err(DeserializeFault::WrongArgumentCount { received: 2 })
    );
    assert_eq!(
        des(0, 0, "add", ints(&[1, 2, 3, 4])),
        Err(DeserializeFault::WrongArgumentCount { received: 4 })
    );
    assert_eq!(
        des(1, 0, "ld_param", ints(&[1])),
        Err(DeserializeFault::WrongArgumentCount { received: 1 })
    );
    assert_eq!(
        des(0, 1, "ld_const", ints(&[1, 0])),
        Err(DeserializeFault::WrongArgumentCount { received: 2 })
    );
    assert_eq!(
        des(0, 0, "call", ints(&[1, 0])),
        Err(DeserializeFault::WrongArgumentCount { received: 2 })
    );
}
