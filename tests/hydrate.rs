use tinkerlang::emit::{lower_program, HydrateError, Operation};
use tinkerlang::instruction::{ArgValue, ArrayItem, Instruction};
use tinkerlang::registry::{JsMeta, TypeDefinition};

fn ints(values: &[i32]) -> Vec<ArgValue> {
    values.iter().map(|v| ArgValue::Int(*v)).collect()
}

fn call(result: i32, method: i32, registers: &[i32]) -> Vec<ArgValue> {
    vec![
        ArgValue::Int(result),
        ArgValue::Int(method),
        ArgValue::Array(registers.iter().map(|r| ArrayItem::Int(*r)).collect()),
    ]
}

/// One `i32` type and a method `name` of signature `(i32) -> i32` with one block.
fn one_method(name: &str) -> JsMeta {
    let mut meta = JsMeta::new();
    assert_eq!(meta.add_type(true, 32), Ok(0));
    assert_eq!(meta.add_method(name.to_string(), 0, vec![0]), Ok(0));
    assert_eq!(meta.create_block(0, "entry".to_string()), Ok(0));
    meta
}

#[test]
fn add_one_end_to_end() {
    let mut meta = one_method("add_one");
    meta.emit(0, 0, "ld_param".to_string(), ints(&[0, 0])).unwrap();
    meta.emit(0, 0, "ld_const".to_string(), ints(&[1, 0, 1])).unwrap();
    meta.emit(0, 0, "add".to_string(), ints(&[2, 0, 1])).unwrap();
    meta.emit(0, 0, "ret".to_string(), ints(&[2])).unwrap();
    meta.set_main(0).unwrap();

    let program = lower_program(&meta).unwrap();
    assert_eq!(program.entry, 0);
    assert_eq!(program.types, vec![TypeDefinition { signed: true, bits: 32 }]);
    assert_eq!(program.methods.len(), 1);
    let method = &program.methods[0];
    assert_eq!(method.name, "add_one");
    assert_eq!(method.return_type, 0);
    assert_eq!(method.parameters, vec![0]);
    assert_eq!(method.blocks.len(), 1);
    assert_eq!(method.blocks[0].name, "entry");
    assert_eq!(
        method.blocks[0].operations,
        vec![
            Operation::LoadParameter { index: 0, type_index: 0 },
            Operation::LoadConstant { type_index: 0, value: 1, sign_extend: false },
            Operation::Add { a: 0, b: 1 },
            Operation::Return { value: Some(2) },
        ]
    );
}

#[test]
fn missing_entry_is_fatal() {
    let mut meta = one_method("f");
    meta.emit(0, 0, "ret".to_string(), vec![]).unwrap();
    assert_eq!(lower_program(&meta), Err(HydrateError::MissingEntry));
}

#[test]
fn entry_out_of_range_is_fatal() {
    let mut meta = one_method("f");
    meta.main_id = Some(4);
    assert_eq!(lower_program(&meta), Err(HydrateError::UnknownMethod(4)));
}

#[test]
fn call_to_a_later_method_hydrates() {
    let mut meta = JsMeta::new();
    meta.add_type(true, 32).unwrap();
    meta.add_method("main".to_string(), 0, vec![]).unwrap();
    meta.add_method("seven".to_string(), 0, vec![]).unwrap();
    meta.create_block(0, "entry".to_string()).unwrap();
    meta.create_block(1, "entry".to_string()).unwrap();
    meta.emit(0, 0, "call".to_string(), call(0, 1, &[])).unwrap();
    meta.emit(0, 0, "ret".to_string(), ints(&[0])).unwrap();
    meta.emit(1, 0, "ld_const".to_string(), ints(&[0, 0, 7])).unwrap();
    meta.emit(1, 0, "ret".to_string(), ints(&[0])).unwrap();
    meta.set_main(0).unwrap();

    let program = lower_program(&meta).unwrap();
    assert_eq!(
        program.methods[0].blocks[0].operations,
        vec![
            Operation::Call { method: 1, arguments: vec![] },
            Operation::Return { value: Some(0) },
        ]
    );
}

#[test]
fn call_to_a_method_never_declared_fails_at_hydration() {
    let mut meta = one_method("f");
    meta.emit(0, 0, "ld_param".to_string(), ints(&[0, 0])).unwrap();
    meta.emit(0, 0, "call".to_string(), call(1, 3, &[0])).unwrap();
    meta.set_main(0).unwrap();
    assert_eq!(lower_program(&meta), Err(HydrateError::UnknownMethod(3)));
}

#[test]
fn call_arguments_resolve_to_their_operations() {
    let mut meta = one_method("f");
    meta.emit(0, 0, "ld_param".to_string(), ints(&[4, 0])).unwrap();
    meta.emit(0, 0, "ld_const".to_string(), ints(&[5, 0, 2])).unwrap();
    meta.emit(0, 0, "call".to_string(), call(6, 0, &[5])).unwrap();
    meta.emit(0, 0, "call".to_string(), call(4, 0, &[6])).unwrap();
    meta.emit(0, 0, "ret".to_string(), ints(&[4])).unwrap();
    meta.set_main(0).unwrap();
    let program = lower_program(&meta).unwrap();
    assert_eq!(
        program.methods[0].blocks[0].operations[2..],
        [
            Operation::Call { method: 0, arguments: vec![1] },
            Operation::Call { method: 0, arguments: vec![2] },
            Operation::Return { value: Some(3) },
        ]
    );
}

#[test]
fn registers_do_not_cross_blocks() {
    let mut meta = one_method("f");
    meta.create_block(0, "next".to_string()).unwrap();
    meta.emit(0, 0, "ld_param".to_string(), ints(&[0, 0])).unwrap();
    meta.emit(0, 0, "ret".to_string(), ints(&[0])).unwrap();
    meta.emit(0, 1, "ret".to_string(), ints(&[0])).unwrap();
    meta.set_main(0).unwrap();
    assert_eq!(lower_program(&meta), Err(HydrateError::UnboundRegister(0)));
}

#[test]
fn register_read_before_it_is_bound_fails() {
    let mut meta = one_method("f");
    meta.emit(0, 0, "add".to_string(), ints(&[2, 0, 1])).unwrap();
    meta.set_main(0).unwrap();
    assert_eq!(lower_program(&meta), Err(HydrateError::UnboundRegister(0)));
}

#[test]
fn rebinding_a_register_takes_the_latest_value() {
    let mut meta = one_method("f");
    meta.emit(0, 0, "ld_const".to_string(), ints(&[0, 0, 1])).unwrap();
    meta.emit(0, 0, "ld_const".to_string(), ints(&[0, 0, 2])).unwrap();
    meta.emit(0, 0, "ret".to_string(), ints(&[0])).unwrap();
    meta.set_main(0).unwrap();
    let program = lower_program(&meta).unwrap();
    assert_eq!(program.methods[0].blocks[0].operations[2], Operation::Return { value: Some(1) });
}

#[test]
fn parameter_at_the_count_fails_at_hydration() {
    let mut meta = one_method("f");
    meta.emit(0, 0, "ld_param".to_string(), ints(&[0, 1])).unwrap();
    meta.set_main(0).unwrap();
    assert_eq!(lower_program(&meta), Err(HydrateError::ParameterOutOfRange(1)));
}

#[test]
fn negative_constant_of_signed_type_is_sign_extended() {
    let mut meta = JsMeta::new();
    meta.add_type(true, 32).unwrap();
    meta.add_type(false, 32).unwrap();
    meta.add_method("f".to_string(), 0, vec![]).unwrap();
    meta.create_block(0, "entry".to_string()).unwrap();
    meta.emit(0, 0, "ld_const".to_string(), ints(&[0, 0, -3])).unwrap();
    meta.emit(0, 0, "ld_const".to_string(), ints(&[1, 1, -3])).unwrap();
    meta.emit(0, 0, "ld_const".to_string(), ints(&[2, 0, 3])).unwrap();
    meta.set_main(0).unwrap();
    let program = lower_program(&meta).unwrap();
    assert_eq!(
        program.methods[0].blocks[0].operations,
        vec![
            Operation::LoadConstant { type_index: 0, value: -3, sign_extend: true },
            Operation::LoadConstant { type_index: 1, value: -3, sign_extend: false },
            Operation::LoadConstant { type_index: 0, value: 3, sign_extend: false },
        ]
    );
}

#[test]
fn declarations_are_checked_before_the_entry() {
    let mut meta = one_method("f");
    meta.methods[0].parameters.push(9);
    assert_eq!(lower_program(&meta), Err(HydrateError::UnknownType(9)));
    meta.methods[0].parameters.pop();
    meta.methods[0].return_type = 2;
    assert_eq!(lower_program(&meta), Err(HydrateError::UnknownType(2)));
}

#[test]
fn constant_of_unknown_type_fails_at_hydration() {
    let mut meta = one_method("f");
    meta.methods[0].blocks[0].instructions.push(Instruction::LoadConstant {
        result: 0,
        type_id: 3,
        constant: tinkerlang::instruction::Constant::Number(1),
    });
    meta.set_main(0).unwrap();
    assert_eq!(lower_program(&meta), Err(HydrateError::UnknownType(3)));
}

#[test]
fn first_failing_block_is_reported() {
    let mut meta = one_method("f");
    meta.create_block(0, "next".to_string()).unwrap();
    meta.emit(0, 0, "ret".to_string(), ints(&[5])).unwrap();
    meta.emit(0, 1, "ret".to_string(), ints(&[6])).unwrap();
    meta.set_main(0).unwrap();
    assert_eq!(lower_program(&meta), Err(HydrateError::UnboundRegister(5)));
}
