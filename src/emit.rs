//! Hydration: the walk that turns a finished registry into a program ready for
//! a code-generation backend. All declarations are checked before any body,
//! so a call may name a method declared after its caller. Registers are
//! resolved per block: each operand becomes the position, within its block,
//! of the operation that last bound the register before it.
use vstd::prelude::*;

use crate::instruction::{Constant, Instruction, Register};
use crate::registry::{type_faults, BlockDefinition, JsMeta, MethodDefinition, MethodId, TypeDefinition, TypeId};
use crate::search::{first_some, lemma_first_some_at, lemma_first_some_exists, lemma_first_some_none};

verus! {

/// A backend operation. Each operand is the position, in the same block, of
/// the operation whose value it takes.
#[derive(Debug, Clone, PartialEq, Eq)]
pub enum Operation {
    /// Integer addition.
    Add { a: usize, b: usize },
    /// The method's formal parameter `index`, of type `type_index`.
    LoadParameter { index: usize, type_index: usize },
    /// A constant of type `type_index`, sign-extended where `sign_extend`.
    LoadConstant { type_index: usize, value: i32, sign_extend: bool },
    /// A call of method `method`.
    Call { method: usize, arguments: Vec<usize> },
    /// A return, of a value or of nothing.
    Return { value: Option<usize> },
}

/// A basic block of resolved operations.
#[derive(Debug, Clone, PartialEq, Eq)]
pub struct TargetBlock {
    pub name: String,
    pub operations: Vec<Operation>,
}

/// A callable: its signature, as indices into [`Program::types`], and body.
#[derive(Debug, Clone, PartialEq, Eq)]
pub struct TargetMethod {
    pub name: String,
    pub return_type: usize,
    pub parameters: Vec<usize>,
    pub blocks: Vec<TargetBlock>,
}

/// What the backend receives: the types, the callables, and the index of the
/// one that the program's entry point calls.
#[derive(Debug, Clone, PartialEq, Eq)]
pub struct Program {
    pub types: Vec<TypeDefinition>,
    pub methods: Vec<TargetMethod>,
    pub entry: usize,
}

/// Why hydration stopped.
#[derive(Debug, Clone, Copy, PartialEq, Eq)]
pub enum HydrateError {
    /// No entry method was set.
    MissingEntry,
    /// A type id out of range.
    UnknownType(TypeId),
    /// A method id out of range.
    UnknownMethod(MethodId),
    /// A register read before anything in its block bound it.
    UnboundRegister(Register),
    /// `ld_param` of a parameter that the method does not have.
    ParameterOutOfRange(i32),
}

/// Position of the last instruction before `k` that binds `reg`.
pub open spec fn binding(insts: Seq<Instruction>, k: int, reg: Register) -> Option<int>
    decreases k,
{
    if k <= 0 {
        None
    } else if insts[k - 1].defines(reg) {
        Some(k - 1)
    } else {
        binding(insts, k - 1, reg)
    }
}

/// The error for reading `reg` at position `k`, if nothing binds it there.
pub open spec fn unbound_fault(insts: Seq<Instruction>, k: int, reg: Register) -> Option<HydrateError> {
    if binding(insts, k, reg) is None {
        Some(HydrateError::UnboundRegister(reg))
    } else {
        None
    }
}

/// The error for type id `t`, if it is out of range.
pub open spec fn type_fault(meta: JsMeta, t: TypeId) -> Option<HydrateError> {
    if meta.valid_type(t) {
        None
    } else {
        Some(HydrateError::UnknownType(t))
    }
}

/// The error for a method's signature: its return type, then the first
/// parameter type out of range.
pub open spec fn declaration_fault(meta: JsMeta, m: MethodDefinition) -> Option<HydrateError> {
    if type_fault(meta, m.return_type) is Some {
        type_fault(meta, m.return_type)
    } else {
        first_some(m.parameters@.map_values(|p: TypeId| type_fault(meta, p)))
    }
}

/// The error for the entry method.
pub open spec fn entry_fault(meta: JsMeta) -> Option<HydrateError> {
    match meta.main_id {
        None => Some(HydrateError::MissingEntry),
        Some(id) => if meta.valid_method(id) {
            None
        } else {
            Some(HydrateError::UnknownMethod(id))
        },
    }
}

/// The error for instruction `k` of a block of method `m`.
pub open spec fn instruction_fault(meta: JsMeta, m: MethodDefinition, insts: Seq<Instruction>, k: int) -> Option<
    HydrateError,
> {
    match insts[k] {
        Instruction::Add { a, b, .. } => if unbound_fault(insts, k, a) is Some {
            unbound_fault(insts, k, a)
        } else {
            unbound_fault(insts, k, b)
        },
        Instruction::LoadParameter { parameter_number, .. } => if 0 <= parameter_number
            < m.parameters@.len() {
            None
        } else {
            Some(HydrateError::ParameterOutOfRange(parameter_number))
        },
        Instruction::LoadConstant { type_id, .. } => type_fault(meta, type_id),
        Instruction::Call { method_id, parameters, .. } => if !meta.valid_method(method_id) {
            Some(HydrateError::UnknownMethod(method_id))
        } else {
            first_some(parameters@.map_values(|r: Register| unbound_fault(insts, k, r)))
        },
        Instruction::Return { result } => match result {
            Some(r) => unbound_fault(insts, k, r),
            None => None,
        },
    }
}

/// The first error among the instructions of a block.
pub open spec fn block_fault(meta: JsMeta, m: MethodDefinition, b: BlockDefinition) -> Option<HydrateError> {
    first_some(
        Seq::new(
            b.instructions@.len(),
            |k: int| instruction_fault(meta, m, b.instructions@, k),
        ),
    )
}

/// The first error among the blocks of a method.
pub open spec fn body_fault(meta: JsMeta, m: MethodDefinition) -> Option<HydrateError> {
    first_some(Seq::new(m.blocks@.len(), |j: int| block_fault(meta, m, m.blocks@[j])))
}

/// The first error of hydration: the declarations in order, then the entry
/// method, then the bodies in order.
pub open spec fn hydrate_fault(meta: JsMeta) -> Option<HydrateError> {
    let declarations = first_some(
        meta.methods@.map_values(|m: MethodDefinition| declaration_fault(meta, m)),
    );
    if declarations is Some {
        declarations
    } else if entry_fault(meta) is Some {
        entry_fault(meta)
    } else {
        first_some(meta.methods@.map_values(|m: MethodDefinition| body_fault(meta, m)))
    }
}

/// The operand that reads `reg` at position `k`.
pub open spec fn operand(insts: Seq<Instruction>, k: int, reg: Register) -> usize {
    binding(insts, k, reg)->0 as usize
}

/// `op` is what instruction `k` of a block of method `m` becomes.
pub open spec fn lowers_instruction(
    meta: JsMeta,
    m: MethodDefinition,
    insts: Seq<Instruction>,
    k: int,
    op: Operation,
) -> bool {
    match insts[k] {
        Instruction::Add { a, b, .. } => op == Operation::Add {
            a: operand(insts, k, a),
            b: operand(insts, k, b),
        },
        Instruction::LoadParameter { parameter_number, .. } => op == Operation::LoadParameter {
            index: parameter_number as usize,
            type_index: m.parameters@[parameter_number as int] as usize,
        },
        Instruction::LoadConstant { type_id, constant: Constant::Number(v), .. } => op
            == Operation::LoadConstant {
            type_index: type_id as usize,
            value: v,
            sign_extend: meta.types@[type_id as int].signed && v < 0,
        },
        Instruction::Call { method_id, parameters, .. } => match op {
            Operation::Call { method, arguments } => {
                &&& method == method_id as usize
                &&& arguments@ == parameters@.map_values(|r: Register| operand(insts, k, r))
            },
            _ => false,
        },
        Instruction::Return { result } => op == Operation::Return {
            value: match result {
                Some(r) => Some(operand(insts, k, r)),
                None => None,
            },
        },
    }
}

/// `t` is what block `b` of method `m` becomes.
pub open spec fn lowers_block(meta: JsMeta, m: MethodDefinition, b: BlockDefinition, t: TargetBlock) -> bool {
    &&& t.name@ == b.name@
    &&& t.operations@.len() == b.instructions@.len()
    &&& forall|k: int|
        0 <= k < b.instructions@.len() ==> lowers_instruction(
            meta,
            m,
            b.instructions@,
            k,
            #[trigger] t.operations@[k],
        )
}

/// `t` is what method `m` becomes.
pub open spec fn lowers_method(meta: JsMeta, m: MethodDefinition, t: TargetMethod) -> bool {
    &&& t.name@ == m.name@
    &&& t.return_type == m.return_type as usize
    &&& t.parameters@ == m.parameters@.map_values(|p: TypeId| p as usize)
    &&& t.blocks@.len() == m.blocks@.len()
    &&& forall|j: int|
        0 <= j < m.blocks@.len() ==> lowers_block(meta, m, m.blocks@[j], #[trigger] t.blocks@[j])
}

/// `p` is what the registry becomes.
pub open spec fn lowers(meta: JsMeta, p: Program) -> bool {
    &&& p.types@ == meta.types@
    &&& p.entry == meta.main_id->0 as usize
    &&& p.methods@.len() == meta.methods@.len()
    &&& forall|i: int|
        0 <= i < meta.methods@.len() ==> lowers_method(meta, meta.methods@[i], #[trigger] p.methods@[i])
}

/// A well-formed registry, which is what the registry's operations keep,
/// passes the declaration phase, and fails on its entry method only where
/// none is set.
pub proof fn lemma_well_formed_declarations(meta: JsMeta)
    requires
        meta.well_formed(),
    ensures
        first_some(meta.methods@.map_values(|m: MethodDefinition| declaration_fault(meta, m))) is None,
        meta.main_id is Some ==> entry_fault(meta) is None,
{
    let declarations = meta.methods@.map_values(|m: MethodDefinition| declaration_fault(meta, m));
    assert forall|i: int| 0 <= i < declarations.len() implies declarations[i] is None by {
        let m = meta.methods@[i];
        assert(meta.signature_fault(m.return_type, m.parameters@) is None);
        let s = type_faults(meta.types@.len(), m.parameters@);
        let t = m.parameters@.map_values(|p: TypeId| type_fault(meta, p));
        assert forall|k: int| 0 <= k < t.len() implies t[k] is None by {
            if s[k] is Some {
                lemma_first_some_exists(s, k);
            }
        }
        lemma_first_some_none(t);
    }
    lemma_first_some_none(declarations);
}

/// Whether `inst` reads register `reg`.
pub open spec fn reads(inst: Instruction, reg: Register) -> bool {
    match inst {
        Instruction::Add { a, b, .. } => a == reg || b == reg,
        Instruction::Call { parameters, .. } => parameters@.contains(reg),
        Instruction::Return { result } => result == Some(reg),
        _ => false,
    }
}

/// A call may name a method declared after its caller: the call instruction
/// passes where the method id is in range and its registers are bound,
/// whatever the order of the two methods.
pub proof fn lemma_forward_call(meta: JsMeta, m: MethodDefinition, insts: Seq<Instruction>, k: int)
    requires
        0 <= k < insts.len(),
        insts[k] is Call,
        meta.valid_method(insts[k]->Call_method_id),
        forall|r: Register| #[trigger] insts[k]->Call_parameters@.contains(r) ==> binding(insts, k, r) is Some,
    ensures
        instruction_fault(meta, m, insts, k) is None,
{
    let ps = insts[k]->Call_parameters@;
    let faults = ps.map_values(|r: Register| unbound_fault(insts, k, r));
    assert forall|j: int| 0 <= j < faults.len() implies faults[j] is None by {
        assert(ps.contains(ps[j]));
    }
    lemma_first_some_none(faults);
}

/// Registers are local to their block: where an instruction reads a register
/// that no earlier instruction of its own block binds, hydration fails,
/// whatever the method's other blocks bind.
pub proof fn lemma_block_local_registers(meta: JsMeta, i: int, j: int, k: int, reg: Register)
    requires
        0 <= i < meta.methods@.len(),
        0 <= j < meta.methods@[i].blocks@.len(),
        0 <= k < meta.methods@[i].blocks@[j].instructions@.len(),
        reads(meta.methods@[i].blocks@[j].instructions@[k], reg),
        forall|l: int| 0 <= l < k ==> !(#[trigger] meta.methods@[i].blocks@[j].instructions@[l]).defines(reg),
    ensures
        binding(meta.methods@[i].blocks@[j].instructions@, k, reg) is None,
        hydrate_fault(meta) is Some,
{
    let m = meta.methods@[i];
    let b = m.blocks@[j];
    let insts = b.instructions@;
    lemma_no_binding(insts, k, reg);
    match insts[k] {
        Instruction::Call { method_id, parameters, .. } => {
            if meta.valid_method(method_id) {
                let faults = parameters@.map_values(|r: Register| unbound_fault(insts, k, r));
                let q = choose|q: int| 0 <= q < parameters@.len() && parameters@[q] == reg;
                assert(faults[q] is Some);
                lemma_first_some_exists(faults, q);
            }
        },
        _ => {},
    }
    assert(instruction_fault(meta, m, insts, k) is Some);
    let in_block = Seq::new(insts.len(), |l: int| instruction_fault(meta, m, insts, l));
    assert(in_block[k] is Some);
    lemma_first_some_exists(in_block, k);
    let in_method = Seq::new(m.blocks@.len(), |l: int| block_fault(meta, m, m.blocks@[l]));
    assert(in_method[j] is Some);
    lemma_first_some_exists(in_method, j);
    let bodies = meta.methods@.map_values(|m: MethodDefinition| body_fault(meta, m));
    assert(bodies[i] is Some);
    lemma_first_some_exists(bodies, i);
}

/// With no binding of `reg` among the first `k` instructions, `reg` is
/// unbound at `k`.
proof fn lemma_no_binding(insts: Seq<Instruction>, k: int, reg: Register)
    requires
        0 <= k <= insts.len(),
        forall|l: int| 0 <= l < k ==> !(#[trigger] insts[l]).defines(reg),
    ensures
        binding(insts, k, reg) is None,
    decreases k,
{
    if k > 0 {
        lemma_no_binding(insts, k - 1, reg);
    }
}

/// The position of the operation that holds `reg` at position `k`.
fn register_value(insts: &Vec<Instruction>, k: usize, reg: Register) -> (r: Option<usize>)
    requires
        k <= insts@.len(),
    ensures
        match binding(insts@, k as int, reg) {
            Some(j) => r == Some(j as usize),
            None => r is None,
        },
{
    let mut j: usize = k;
    while j > 0
        invariant
            j <= k <= insts@.len(),
            binding(insts@, k as int, reg) == binding(insts@, j as int, reg),
        decreases j,
    {
        let defines = match &insts[j - 1] {
            Instruction::Add { result, .. } => *result == reg,
            Instruction::LoadParameter { result, .. } => *result == reg,
            Instruction::LoadConstant { result, .. } => *result == reg,
            Instruction::Call { result, .. } => *result == reg,
            Instruction::Return { .. } => false,
        };
        if defines {
            return Some(j - 1);
        }
        j -= 1;
    }
    None
}

/// The operand for `reg` at position `k`, or the error for reading it there.
fn resolve(insts: &Vec<Instruction>, k: usize, reg: Register) -> (r: Result<usize, HydrateError>)
    requires
        k <= insts@.len(),
    ensures
        match r {
            Ok(v) => unbound_fault(insts@, k as int, reg) is None && v == operand(insts@, k as int, reg),
            Err(e) => unbound_fault(insts@, k as int, reg) == Some(e),
        },
{
    match register_value(insts, k, reg) {
        Some(v) => Ok(v),
        None => Err(HydrateError::UnboundRegister(reg)),
    }
}

/// Resolves instruction `k` of a block of method `m`.
fn lower_instruction(meta: &JsMeta, m: &MethodDefinition, insts: &Vec<Instruction>, k: usize) -> (r:
    Result<Operation, HydrateError>)
    requires
        k < insts@.len(),
    ensures
        match r {
            Ok(op) => instruction_fault(*meta, *m, insts@, k as int) is None && lowers_instruction(
                *meta,
                *m,
                insts@,
                k as int,
                op,
            ),
            Err(e) => instruction_fault(*meta, *m, insts@, k as int) == Some(e),
        },
{
    match &insts[k] {
        Instruction::Add { a, b, .. } => {
            let a = resolve(insts, k, *a)?;
            let b = resolve(insts, k, *b)?;
            Ok(Operation::Add { a, b })
        },
        Instruction::LoadParameter { parameter_number, .. } => {
            let n = *parameter_number;
            if n < 0 || n as usize >= m.parameters.len() {
                return Err(HydrateError::ParameterOutOfRange(n));
            }
            Ok(Operation::LoadParameter { index: n as usize, type_index: m.parameters[n as usize] as usize })
        },
        Instruction::LoadConstant { type_id, constant, .. } => {
            let t = *type_id;
            if t < 0 || t as usize >= meta.types.len() {
                return Err(HydrateError::UnknownType(t));
            }
            match constant {
                Constant::Number(v) => Ok(
                    Operation::LoadConstant {
                        type_index: t as usize,
                        value: *v,
                        sign_extend: meta.types[t as usize].signed && *v < 0,
                    },
                ),
            }
        },
        Instruction::Call { method_id, parameters, .. } => {
            let id = *method_id;
            if id < 0 || id as usize >= meta.methods.len() {
                return Err(HydrateError::UnknownMethod(id));
            }
            let ghost faults = parameters@.map_values(|r: Register| unbound_fault(insts@, k as int, r));
            let mut arguments: Vec<usize> = Vec::new();
            let mut i: usize = 0;
            while i < parameters.len()
                invariant
                    k < insts@.len(),
                    insts@[k as int] == (Instruction::Call { result: insts@[k as int]->Call_result, method_id: id, parameters: *parameters }),
                    meta.valid_method(id),
                    faults == parameters@.map_values(|r: Register| unbound_fault(insts@, k as int, r)),
                    i <= parameters@.len(),
                    forall|j: int| 0 <= j < i ==> faults[j] is None,
                    arguments@ == parameters@.take(i as int).map_values(|r: Register| operand(insts@, k as int, r)),
                decreases parameters@.len() - i,
            {
                match resolve(insts, k, parameters[i]) {
                    Ok(v) => {
                        arguments.push(v);
                    },
                    Err(e) => {
                        proof {
                            assert(faults[i as int] is Some);
                            lemma_first_some_at(faults, i as int);
                        }
                        return Err(e);
                    },
                }
                proof {
                    assert(parameters@.take(i + 1) =~= parameters@.take(i as int).push(parameters@[i as int]));
                }
                i += 1;
            }
            proof {
                lemma_first_some_none(faults);
                assert(parameters@.take(i as int) =~= parameters@);
            }
            Ok(Operation::Call { method: id as usize, arguments })
        },
        Instruction::Return { result } => match result {
            Some(reg) => {
                let v = resolve(insts, k, *reg)?;
                Ok(Operation::Return { value: Some(v) })
            },
            None => Ok(Operation::Return { value: None }),
        },
    }
}

/// Resolves one block of method `m`, with no register bound at its start.
fn lower_block(meta: &JsMeta, m: &MethodDefinition, b: &BlockDefinition) -> (r: Result<TargetBlock, HydrateError>)
    ensures
        match r {
            Ok(t) => block_fault(*meta, *m, *b) is None && lowers_block(*meta, *m, *b, t),
            Err(e) => block_fault(*meta, *m, *b) == Some(e),
        },
{
    let insts = &b.instructions;
    let ghost faults = Seq::new(insts@.len(), |k: int| instruction_fault(*meta, *m, insts@, k));
    let mut operations: Vec<Operation> = Vec::new();
    let mut k: usize = 0;
    while k < insts.len()
        invariant
            insts == &b.instructions,
            faults == Seq::new(insts@.len(), |k: int| instruction_fault(*meta, *m, insts@, k)),
            k <= insts@.len(),
            operations@.len() == k,
            forall|j: int| 0 <= j < k ==> faults[j] is None,
            forall|j: int|
                0 <= j < k ==> lowers_instruction(*meta, *m, insts@, j, #[trigger] operations@[j]),
        decreases insts@.len() - k,
    {
        match lower_instruction(meta, m, insts, k) {
            Ok(op) => operations.push(op),
            Err(e) => {
                proof {
                    lemma_first_some_at(faults, k as int);
                }
                return Err(e);
            },
        }
        k += 1;
    }
    proof {
        lemma_first_some_none(faults);
    }
    Ok(TargetBlock { name: b.name.clone(), operations })
}

/// Resolves method `m`: its signature and each of its blocks, in order.
fn lower_method(meta: &JsMeta, m: &MethodDefinition) -> (r: Result<TargetMethod, HydrateError>)
    ensures
        match r {
            Ok(t) => body_fault(*meta, *m) is None && lowers_method(*meta, *m, t),
            Err(e) => body_fault(*meta, *m) == Some(e),
        },
{
    let mut parameters: Vec<usize> = Vec::new();
    let mut i: usize = 0;
    while i < m.parameters.len()
        invariant
            i <= m.parameters@.len(),
            parameters@ == m.parameters@.take(i as int).map_values(|p: TypeId| p as usize),
        decreases m.parameters@.len() - i,
    {
        parameters.push(m.parameters[i] as usize);
        proof {
            assert(m.parameters@.take(i + 1) =~= m.parameters@.take(i as int).push(m.parameters@[i as int]));
        }
        i += 1;
    }
    proof {
        assert(m.parameters@.take(i as int) =~= m.parameters@);
    }
    let ghost faults = Seq::new(m.blocks@.len(), |j: int| block_fault(*meta, *m, m.blocks@[j]));
    let mut blocks: Vec<TargetBlock> = Vec::new();
    let mut j: usize = 0;
    while j < m.blocks.len()
        invariant
            faults == Seq::new(m.blocks@.len(), |j: int| block_fault(*meta, *m, m.blocks@[j])),
            j <= m.blocks@.len(),
            blocks@.len() == j,
            forall|l: int| 0 <= l < j ==> faults[l] is None,
            forall|l: int| 0 <= l < j ==> lowers_block(*meta, *m, m.blocks@[l], #[trigger] blocks@[l]),
        decreases m.blocks@.len() - j,
    {
        match lower_block(meta, m, &m.blocks[j]) {
            Ok(t) => blocks.push(t),
            Err(e) => {
                proof {
                    lemma_first_some_at(faults, j as int);
                }
                return Err(e);
            },
        }
        j += 1;
    }
    proof {
        lemma_first_some_none(faults);
    }
    Ok(TargetMethod { name: m.name.clone(), return_type: m.return_type as usize, parameters, blocks })
}

/// Checks the signature of method `m` against the registry's types.
fn check_declaration(meta: &JsMeta, m: &MethodDefinition) -> (r: Result<(), HydrateError>)
    ensures
        match r {
            Ok(()) => declaration_fault(*meta, *m) is None,
            Err(e) => declaration_fault(*meta, *m) == Some(e),
        },
{
    if m.return_type < 0 || m.return_type as usize >= meta.types.len() {
        return Err(HydrateError::UnknownType(m.return_type));
    }
    let ghost faults = m.parameters@.map_values(|p: TypeId| type_fault(*meta, p));
    let mut i: usize = 0;
    while i < m.parameters.len()
        invariant
            faults == m.parameters@.map_values(|p: TypeId| type_fault(*meta, p)),
            type_fault(*meta, m.return_type) is None,
            i <= m.parameters@.len(),
            forall|l: int| 0 <= l < i ==> faults[l] is None,
        decreases m.parameters@.len() - i,
    {
        let p = m.parameters[i];
        if p < 0 || p as usize >= meta.types.len() {
            proof {
                assert(faults[i as int] is Some);
                lemma_first_some_at(faults, i as int);
            }
            return Err(HydrateError::UnknownType(p));
        }
        i += 1;
    }
    proof {
        lemma_first_some_none(faults);
    }
    Ok(())
}

/// Hydrates the registry. Phase one checks every method's declaration;
/// then the entry method is resolved; then every body is resolved, method by
/// method and block by block. The first error stops the walk.
pub fn lower_program(meta: &JsMeta) -> (r: Result<Program, HydrateError>)
    ensures
        match r {
            Ok(p) => hydrate_fault(*meta) is None && lowers(*meta, p),
            Err(e) => hydrate_fault(*meta) == Some(e),
        },
{
    let mut types: Vec<TypeDefinition> = Vec::new();
    let mut i: usize = 0;
    while i < meta.types.len()
        invariant
            i <= meta.types@.len(),
            types@ == meta.types@.take(i as int),
        decreases meta.types@.len() - i,
    {
        types.push(meta.types[i]);
        proof {
            assert(meta.types@.take(i + 1) =~= meta.types@.take(i as int).push(meta.types@[i as int]));
        }
        i += 1;
    }
    proof {
        assert(meta.types@.take(i as int) =~= meta.types@);
    }
    let ghost declarations = meta.methods@.map_values(|m: MethodDefinition| declaration_fault(*meta, m));
    let mut i: usize = 0;
    while i < meta.methods.len()
        invariant
            declarations == meta.methods@.map_values(|m: MethodDefinition| declaration_fault(*meta, m)),
            i <= meta.methods@.len(),
            forall|l: int| 0 <= l < i ==> declarations[l] is None,
        decreases meta.methods@.len() - i,
    {
        match check_declaration(meta, &meta.methods[i]) {
            Ok(()) => {},
            Err(e) => {
                proof {
                    lemma_first_some_at(declarations, i as int);
                }
                return Err(e);
            },
        }
        i += 1;
    }
    proof {
        lemma_first_some_none(declarations);
    }
    let entry = match meta.main_id {
        None => {
            return Err(HydrateError::MissingEntry);
        },
        Some(id) => {
            if id < 0 || id as usize >= meta.methods.len() {
                return Err(HydrateError::UnknownMethod(id));
            }
            id as usize
        },
    };
    let ghost bodies = meta.methods@.map_values(|m: MethodDefinition| body_fault(*meta, m));
    let mut methods: Vec<TargetMethod> = Vec::new();
    let mut i: usize = 0;
    while i < meta.methods.len()
        invariant
            bodies == meta.methods@.map_values(|m: MethodDefinition| body_fault(*meta, m)),
            first_some(declarations) is None,
            declarations == meta.methods@.map_values(|m: MethodDefinition| declaration_fault(*meta, m)),
            entry_fault(*meta) is None,
            i <= meta.methods@.len(),
            methods@.len() == i,
            forall|l: int| 0 <= l < i ==> bodies[l] is None,
            forall|l: int| 0 <= l < i ==> lowers_method(*meta, meta.methods@[l], #[trigger] methods@[l]),
        decreases meta.methods@.len() - i,
    {
        match lower_method(meta, &meta.methods[i]) {
            Ok(t) => methods.push(t),
            Err(e) => {
                proof {
                    lemma_first_some_at(bodies, i as int);
                }
                return Err(e);
            },
        }
        i += 1;
    }
    proof {
        lemma_first_some_none(bodies);
    }
    Ok(Program { types, methods, entry })
}

} // verus!
