//! The IR's instruction set, and the deserializer that turns one host call
//! (a mnemonic and a list of untyped values) into a typed instruction.
use vstd::prelude::*;

use crate::registry::{MethodId, TypeId};

verus! {

/// A per-block value slot.
pub type Register = i32;

/// A constant operand.
#[derive(Debug, Clone, Copy, PartialEq, Eq)]
pub enum Constant {
    Number(i32),
}

/// One IR instruction. Registers and ids are held by value.
#[derive(Debug, Clone, PartialEq, Eq)]
#[allow(inconsistent_fields)]
pub enum Instruction {
    Add { result: Register, a: Register, b: Register },
    LoadParameter { result: Register, parameter_number: i32 },
    LoadConstant { result: Register, type_id: TypeId, constant: Constant },
    Call { result: Register, method_id: MethodId, parameters: Vec<Register> },
    Return { result: Option<Register> },
}

/// The mathematical value of an [`Instruction`].
#[allow(inconsistent_fields)]
pub enum InstrView {
    Add { result: Register, a: Register, b: Register },
    LoadParameter { result: Register, parameter_number: i32 },
    LoadConstant { result: Register, type_id: TypeId, constant: Constant },
    Call { result: Register, method_id: MethodId, parameters: Seq<Register> },
    Return { result: Option<Register> },
}

impl View for Instruction {
    type V = InstrView;

    open spec fn view(&self) -> InstrView {
        match self {
            Instruction::Add { result, a, b } => InstrView::Add { result: *result, a: *a, b: *b },
            Instruction::LoadParameter { result, parameter_number } => InstrView::LoadParameter {
                result: *result,
                parameter_number: *parameter_number,
            },
            Instruction::LoadConstant { result, type_id, constant } => InstrView::LoadConstant {
                result: *result,
                type_id: *type_id,
                constant: *constant,
            },
            Instruction::Call { result, method_id, parameters } => InstrView::Call {
                result: *result,
                method_id: *method_id,
                parameters: parameters@,
            },
            Instruction::Return { result } => InstrView::Return { result: *result },
        }
    }
}

impl Instruction {
    /// Whether this instruction binds register `reg`.
    pub open spec fn defines(&self, reg: Register) -> bool {
        match self {
            Instruction::Add { result, .. } => *result == reg,
            Instruction::LoadParameter { result, .. } => *result == reg,
            Instruction::LoadConstant { result, .. } => *result == reg,
            Instruction::Call { result, .. } => *result == reg,
            Instruction::Return { .. } => false,
        }
    }
}


/// An item of an array argument, as the script engine hands it over.
#[derive(Debug, Clone, Copy, PartialEq, Eq)]
pub enum ArrayItem {
    Int(i32),
    /// Any value that is not an integer.
    Other,
}

/// One argument of a host call, as the script engine hands it over.
#[derive(Debug, Clone, PartialEq, Eq)]
pub enum ArgValue {
    Int(i32),
    Array(Vec<ArrayItem>),
    /// Any value that is neither an integer nor an array.
    Other,
}

/// What was wrong with a host call's mnemonic or arguments.
#[derive(Debug, Clone, Copy, PartialEq, Eq)]
pub enum DeserializeFault {
    /// The mnemonic names no instruction.
    UnrecognizedInstruction,
    /// The mnemonic takes another number of arguments.
    WrongArgumentCount { received: usize },
    /// The argument at `position` (or an item of it) is not an integer.
    ExpectedInteger { position: usize },
    /// The argument at `position` is not an array.
    ExpectedArray { position: usize },
    /// `ld_param` names a parameter past the method's parameter count.
    ParameterOutOfRange { parameter_number: i32 },
    /// `ld_const` names a type that is not valid in this compilation.
    InvalidType { type_id: TypeId },
}

/// A refused host call: the mnemonic and arguments received, and the fault.
#[derive(Debug, Clone, PartialEq, Eq)]
pub struct DeserializeError {
    pub mnemonic: String,
    pub args: Vec<ArgValue>,
    pub fault: DeserializeFault,
}

/// The integer at `position` of `args`, if that argument is one.
pub open spec fn int_at(args: Seq<ArgValue>, position: int) -> Option<i32> {
    match args[position] {
        ArgValue::Int(v) => Some(v),
        _ => None,
    }
}

/// Whether an array item is an integer.
pub open spec fn is_int_item(item: ArrayItem) -> bool {
    item is Int
}

/// The integer of an array item (0 for one that is not an integer).
pub open spec fn item_value(item: ArrayItem) -> i32 {
    match item {
        ArrayItem::Int(v) => v,
        ArrayItem::Other => 0,
    }
}

/// The first argument among positions `0..n` that is not an integer.
pub open spec fn int_fault(args: Seq<ArgValue>, n: int) -> Option<DeserializeFault> {
    if n > 0 && int_at(args, 0) is None {
        Some(DeserializeFault::ExpectedInteger { position: 0 })
    } else if n > 1 && int_at(args, 1) is None {
        Some(DeserializeFault::ExpectedInteger { position: 1 })
    } else if n > 2 && int_at(args, 2) is None {
        Some(DeserializeFault::ExpectedInteger { position: 2 })
    } else {
        None
    }
}

/// `add(result, a, b)`.
pub open spec fn decode_add(args: Seq<ArgValue>) -> Result<InstrView, DeserializeFault> {
    if args.len() != 3 {
        Err(DeserializeFault::WrongArgumentCount { received: args.len() as usize })
    } else if let Some(f) = int_fault(args, 3) {
        Err(f)
    } else {
        Ok(
            InstrView::Add {
                result: int_at(args, 0)->0,
                a: int_at(args, 1)->0,
                b: int_at(args, 2)->0,
            },
        )
    }
}

/// `ld_param(result, parameter_number)`, with `parameter_number` in
/// `0..=parameters`.
pub open spec fn decode_ld_param(parameters: nat, args: Seq<ArgValue>) -> Result<
    InstrView,
    DeserializeFault,
> {
    if args.len() != 2 {
        Err(DeserializeFault::WrongArgumentCount { received: args.len() as usize })
    } else if let Some(f) = int_fault(args, 2) {
        Err(f)
    } else {
        let n = int_at(args, 1)->0;
        if n < 0 || n > parameters {
            Err(DeserializeFault::ParameterOutOfRange { parameter_number: n })
        } else {
            Ok(InstrView::LoadParameter { result: int_at(args, 0)->0, parameter_number: n })
        }
    }
}

/// `ld_const(result, type_id, value)`, with `type_id` below `type_count`.
pub open spec fn decode_ld_const(type_count: nat, args: Seq<ArgValue>) -> Result<
    InstrView,
    DeserializeFault,
> {
    if args.len() != 3 {
        Err(DeserializeFault::WrongArgumentCount { received: args.len() as usize })
    } else if let Some(f) = int_fault(args, 3) {
        Err(f)
    } else {
        let t = int_at(args, 1)->0;
        if !(0 <= t < type_count) {
            Err(DeserializeFault::InvalidType { type_id: t })
        } else {
            Ok(
                InstrView::LoadConstant {
                    result: int_at(args, 0)->0,
                    type_id: t,
                    constant: Constant::Number(int_at(args, 2)->0),
                },
            )
        }
    }
}

/// `call(result, method_id, [register...])`; the method id is not checked.
pub open spec fn decode_call(args: Seq<ArgValue>) -> Result<InstrView, DeserializeFault> {
    if args.len() != 3 {
        Err(DeserializeFault::WrongArgumentCount { received: args.len() as usize })
    } else if let Some(f) = int_fault(args, 2) {
        Err(f)
    } else {
        match args[2] {
            ArgValue::Array(items) => {
                if forall|j: int| 0 <= j < items@.len() ==> is_int_item(#[trigger] items@[j]) {
                    Ok(
                        InstrView::Call {
                            result: int_at(args, 0)->0,
                            method_id: int_at(args, 1)->0,
                            parameters: items@.map_values(|item: ArrayItem| item_value(item)),
                        },
                    )
                } else {
                    Err(DeserializeFault::ExpectedInteger { position: 2 })
                }
            },
            _ => Err(DeserializeFault::ExpectedArray { position: 2 }),
        }
    }
}

/// `ret()` or `ret(result)`.
pub open spec fn decode_ret(args: Seq<ArgValue>) -> Result<InstrView, DeserializeFault> {
    if args.len() == 0 {
        Ok(InstrView::Return { result: None })
    } else if args.len() != 1 {
        Err(DeserializeFault::WrongArgumentCount { received: args.len() as usize })
    } else if let Some(f) = int_fault(args, 1) {
        Err(f)
    } else {
        Ok(InstrView::Return { result: Some(int_at(args, 0)->0) })
    }
}

/// The instruction, or the fault, that mnemonic `name` with `args` stands for,
/// in a method with `parameters` parameters and a compilation with
/// `type_count` types.
pub open spec fn decode(parameters: nat, type_count: nat, name: Seq<char>, args: Seq<ArgValue>) -> Result<
    InstrView,
    DeserializeFault,
> {
    if name == "add"@ {
        decode_add(args)
    } else if name == "ld_param"@ {
        decode_ld_param(parameters, args)
    } else if name == "ld_const"@ {
        decode_ld_const(type_count, args)
    } else if name == "call"@ {
        decode_call(args)
    } else if name == "ret"@ {
        decode_ret(args)
    } else {
        Err(DeserializeFault::UnrecognizedInstruction)
    }
}

/// The value of a result of one of the decoders below.
pub open spec fn view_result(r: Result<Instruction, DeserializeFault>) -> Result<
    InstrView,
    DeserializeFault,
> {
    match r {
        Ok(i) => Ok(i@),
        Err(f) => Err(f),
    }
}

/// `r` is what [`Instruction::deserialize`] owes for these inputs.
pub open spec fn deserializes(
    parameters: nat,
    type_count: nat,
    name: Seq<char>,
    args: Seq<ArgValue>,
    r: Result<Instruction, DeserializeError>,
) -> bool {
    match r {
        Ok(i) => decode(parameters, type_count, name, args) == Ok::<InstrView, DeserializeFault>(i@),
        Err(e) => {
            &&& decode(parameters, type_count, name, args) == Err::<InstrView, DeserializeFault>(
                e.fault,
            )
            &&& e.mnemonic@ == name
            &&& e.args@ == args
        },
    }
}

/// Two results that [`Instruction::deserialize`] may give for the same call
/// are the same: the same instruction, or the same error.
pub proof fn lemma_deserialize_deterministic(
    parameters: nat,
    type_count: nat,
    name: Seq<char>,
    args: Seq<ArgValue>,
    r1: Result<Instruction, DeserializeError>,
    r2: Result<Instruction, DeserializeError>,
)
    requires
        deserializes(parameters, type_count, name, args, r1),
        deserializes(parameters, type_count, name, args, r2),
    ensures
        match (r1, r2) {
            (Ok(i1), Ok(i2)) => i1@ == i2@,
            (Err(e1), Err(e2)) => e1.fault == e2.fault && e1.mnemonic@ == e2.mnemonic@ && e1.args@
                == e2.args@,
            _ => false,
        },
{
}

/// Whether `name` reads `word`.
fn is_mnemonic(name: &String, word: &str) -> (r: bool)
    ensures
        r == (name@ == word@),
{
    *name == word.to_owned()
}

impl Instruction {
    /// Turns a host call into an instruction. `parameters` is the owning
    /// method's parameter count; a type id is valid below `type_count`.
    pub fn deserialize(parameters: usize, type_count: usize, name: String, args: Vec<ArgValue>) -> (r:
        Result<Instruction, DeserializeError>)
        ensures
            deserializes(parameters as nat, type_count as nat, name@, args@, r),
    {
        let decoded = if is_mnemonic(&name, "add") {
            Instruction::des_add(&args)
        } else if is_mnemonic(&name, "ld_param") {
            Instruction::des_ld_param(parameters, &args)
        } else if is_mnemonic(&name, "ld_const") {
            Instruction::des_ld_const(type_count, &args)
        } else if is_mnemonic(&name, "call") {
            Instruction::des_call(&args)
        } else if is_mnemonic(&name, "ret") {
            Instruction::des_ret(&args)
        } else {
            Err(DeserializeFault::UnrecognizedInstruction)
        };
        match decoded {
            Ok(i) => Ok(i),
            Err(fault) => Err(DeserializeError { mnemonic: name, args, fault }),
        }
    }

    fn des_add(args: &Vec<ArgValue>) -> (r: Result<Instruction, DeserializeFault>)
        ensures
            view_result(r) == decode_add(args@),
    {
        if args.len() != 3 {
            return Err(DeserializeFault::WrongArgumentCount { received: args.len() });
        }
        let result = Instruction::get_register(args, 0)?;
        let a = Instruction::get_register(args, 1)?;
        let b = Instruction::get_register(args, 2)?;
        Ok(Instruction::Add { result, a, b })
    }

    fn des_ld_param(parameters: usize, args: &Vec<ArgValue>) -> (r: Result<Instruction, DeserializeFault>)
        ensures
            view_result(r) == decode_ld_param(parameters as nat, args@),
    {
        if args.len() != 2 {
            return Err(DeserializeFault::WrongArgumentCount { received: args.len() });
        }
        let result = Instruction::get_register(args, 0)?;
        let parameter_number = Instruction::get_register(args, 1)?;
        if parameter_number < 0 || parameter_number as usize > parameters {
            return Err(DeserializeFault::ParameterOutOfRange { parameter_number });
        }
        Ok(Instruction::LoadParameter { result, parameter_number })
    }

    fn des_ld_const(type_count: usize, args: &Vec<ArgValue>) -> (r: Result<Instruction, DeserializeFault>)
        ensures
            view_result(r) == decode_ld_const(type_count as nat, args@),
    {
        if args.len() != 3 {
            return Err(DeserializeFault::WrongArgumentCount { received: args.len() });
        }
        let result = Instruction::get_register(args, 0)?;
        let type_id = Instruction::get_register(args, 1)?;
        let number = Instruction::get_register(args, 2)?;
        if type_id < 0 || type_id as usize >= type_count {
            return Err(DeserializeFault::InvalidType { type_id });
        }
        Ok(Instruction::LoadConstant { result, type_id, constant: Constant::Number(number) })
    }

    fn des_call(args: &Vec<ArgValue>) -> (r: Result<Instruction, DeserializeFault>)
        ensures
            view_result(r) == decode_call(args@),
    {
        if args.len() != 3 {
            return Err(DeserializeFault::WrongArgumentCount { received: args.len() });
        }
        let result = Instruction::get_register(args, 0)?;
        let method_id = Instruction::get_register(args, 1)?;
        let items = Instruction::get_arr(args, 2)?;
        let mut parameters: Vec<Register> = Vec::new();
        let mut j: usize = 0;
        while j < items.len()
            invariant
                args@.len() == 3,
                int_fault(args@, 2) is None,
                int_at(args@, 0) == Some(result),
                int_at(args@, 1) == Some(method_id),
                args@[2] == ArgValue::Array(*items),
                j <= items@.len(),
                forall|k: int| 0 <= k < j ==> is_int_item(#[trigger] items@[k]),
                parameters@ == items@.take(j as int).map_values(|item: ArrayItem| item_value(item)),
            decreases items@.len() - j,
        {
            match items[j] {
                ArrayItem::Int(v) => parameters.push(v),
                ArrayItem::Other => {
                    assert(!is_int_item(items@[j as int]));
                    return Err(DeserializeFault::ExpectedInteger { position: 2 });
                },
            }
            proof {
                assert(items@.take(j + 1) =~= items@.take(j as int).push(items@[j as int]));
            }
            j += 1;
        }
        proof {
            assert(items@.take(j as int) =~= items@);
        }
        Ok(Instruction::Call { result, method_id, parameters })
    }

    fn des_ret(args: &Vec<ArgValue>) -> (r: Result<Instruction, DeserializeFault>)
        ensures
            view_result(r) == decode_ret(args@),
    {
        if args.len() == 0 {
            return Ok(Instruction::Return { result: None });
        }
        if args.len() != 1 {
            return Err(DeserializeFault::WrongArgumentCount { received: args.len() });
        }
        let result = Instruction::get_register(args, 0)?;
        Ok(Instruction::Return { result: Some(result) })
    }

    /// The integer argument at `position`.
    fn get_register(args: &Vec<ArgValue>, position: usize) -> (r: Result<i32, DeserializeFault>)
        requires
            position < args@.len(),
        ensures
            r == (match int_at(args@, position as int) {
                Some(v) => Ok::<i32, DeserializeFault>(v),
                None => Err(DeserializeFault::ExpectedInteger { position }),
            }),
    {
        match &args[position] {
            ArgValue::Int(v) => Ok(*v),
            _ => Err(DeserializeFault::ExpectedInteger { position }),
        }
    }

    /// The array argument at `position`.
    fn get_arr(args: &Vec<ArgValue>, position: usize) -> (r: Result<&Vec<ArrayItem>, DeserializeFault>)
        requires
            position < args@.len(),
        ensures
            r == (match args@[position as int] {
                ArgValue::Array(items) => Ok::<&Vec<ArrayItem>, DeserializeFault>(&items),
                _ => Err(DeserializeFault::ExpectedArray { position }),
            }),
    {
        match &args[position] {
            ArgValue::Array(items) => Ok(items),
            _ => Err(DeserializeFault::ExpectedArray { position }),
        }
    }
}

} // verus!
