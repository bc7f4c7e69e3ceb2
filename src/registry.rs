//! The registry: the append-only store of types, methods, blocks and
//! instructions that the primitives of the scripting boundary build up.
use vstd::prelude::*;

use crate::instruction::{decode, ArgValue, DeserializeError, InstrView, Instruction};

verus! {

/// Index of a type in [`JsMeta::types`].
pub type TypeId = i32;

/// Index of a method in [`JsMeta::methods`].
pub type MethodId = i32;

/// Index of a block in [`MethodDefinition::blocks`].
pub type BlockId = i32;

/// A fixed-width integer type.
#[derive(Debug, Clone, Copy, PartialEq, Eq)]
pub struct TypeDefinition {
    pub signed: bool,
    pub bits: u32,
}

/// A named, ordered list of instructions, owned by one method.
#[derive(Debug, Clone)]
pub struct BlockDefinition {
    pub name: String,
    pub instructions: Vec<Instruction>,
}

/// A method: its signature, given by type ids, and its blocks.
#[derive(Debug, Clone)]
pub struct MethodDefinition {
    pub name: String,
    pub return_type: TypeId,
    pub parameters: Vec<TypeId>,
    pub blocks: Vec<BlockDefinition>,
}

/// The whole compilation unit.
#[derive(Debug, Clone)]
pub struct JsMeta {
    pub main_id: Option<MethodId>,
    pub types: Vec<TypeDefinition>,
    pub methods: Vec<MethodDefinition>,
}

/// Why a primitive call on the registry was refused.
#[derive(Debug, Clone, PartialEq, Eq)]
pub enum RegistryError {
    /// A type was asked for with a negative bit width.
    NegativeBits(i32),
    /// A type id that the registry never issued.
    UnknownType(TypeId),
    /// A method id that the registry never issued.
    UnknownMethod(MethodId),
    /// A block id that the method never issued.
    UnknownBlock(BlockId),
    /// The instruction could not be deserialized.
    Instruction(DeserializeError),
}

/// The largest number of ids of one kind: each must fit in an `i32`.
pub const MAX_IDS: usize = 0x7fff_ffff;

/// A fresh method: the given signature and no blocks.
pub open spec fn is_fresh_method(
    m: MethodDefinition,
    name: Seq<char>,
    return_type: TypeId,
    parameters: Seq<TypeId>,
) -> bool {
    &&& m.name@ == name
    &&& m.return_type == return_type
    &&& m.parameters@ == parameters
    &&& m.blocks@.len() == 0
}

/// `after` is `before` with one instruction appended, whose value is `inst`.
pub open spec fn is_block_appended(before: BlockDefinition, after: BlockDefinition, inst: InstrView) -> bool {
    &&& after.name == before.name
    &&& after.instructions@.len() == before.instructions@.len() + 1
    &&& after.instructions@.take(before.instructions@.len() as int) == before.instructions@
    &&& after.instructions@.last()@ == inst
}

/// For each of `ids`, the error that names it if it is no type id below
/// `type_count`.
pub open spec fn type_faults(type_count: nat, ids: Seq<TypeId>) -> Seq<Option<RegistryError>> {
    ids.map_values(
        |p: TypeId|
            if 0 <= p < type_count {
                None
            } else {
                Some(RegistryError::UnknownType(p))
            },
    )
}

/// The error for a signature over `type_count` types, if any: the return
/// type first, then the first unknown parameter type.
pub open spec fn signature_fault(type_count: nat, return_type: TypeId, parameters: Seq<TypeId>) -> Option<
    RegistryError,
> {
    if !(0 <= return_type < type_count) {
        Some(RegistryError::UnknownType(return_type))
    } else {
        crate::search::first_some(type_faults(type_count, parameters))
    }
}

/// With more types, a signature that was accepted stays accepted.
pub proof fn lemma_signature_fault_grows(
    smaller: nat,
    larger: nat,
    return_type: TypeId,
    parameters: Seq<TypeId>,
)
    requires
        smaller <= larger,
        signature_fault(smaller, return_type, parameters) is None,
    ensures
        signature_fault(larger, return_type, parameters) is None,
{
    let s = type_faults(smaller, parameters);
    let t = type_faults(larger, parameters);
    assert forall|k: int| 0 <= k < s.len() implies s[k] is None by {
        if s[k] is Some {
            crate::search::lemma_first_some_exists(s, k);
        }
    }
    assert forall|k: int| 0 <= k < t.len() implies t[k] is None by {
        assert(s[k] is None);
    }
    crate::search::lemma_first_some_none(t);
}

/// `after` is `before` with one empty block, named `name`, appended.
pub open spec fn is_block_added(before: MethodDefinition, after: MethodDefinition, name: Seq<char>) -> bool {
    &&& after.name == before.name
    &&& after.return_type == before.return_type
    &&& after.parameters == before.parameters
    &&& after.blocks@.len() == before.blocks@.len() + 1
    &&& after.blocks@.take(before.blocks@.len() as int) == before.blocks@
    &&& after.blocks@.last().name@ == name
    &&& after.blocks@.last().instructions@.len() == 0
}

/// `after` is `before` with one instruction, whose value is `inst`, appended to
/// block `b`.
pub open spec fn is_instruction_added(before: MethodDefinition, after: MethodDefinition, b: int, inst: InstrView) -> bool {
    &&& after.name == before.name
    &&& after.return_type == before.return_type
    &&& after.parameters == before.parameters
    &&& after.blocks@ == before.blocks@.update(b, after.blocks@[b])
    &&& is_block_appended(before.blocks@[b], after.blocks@[b], inst)
}

impl JsMeta {
    /// Whether `id` names a type of this registry.
    pub open spec fn valid_type(&self, id: TypeId) -> bool {
        0 <= id < self.types@.len()
    }

    /// Whether `id` names a method of this registry.
    pub open spec fn valid_method(&self, id: MethodId) -> bool {
        0 <= id < self.methods@.len()
    }

    /// The error that `add_method` reports for a signature, if any.
    pub open spec fn signature_fault(&self, return_type: TypeId, parameters: Seq<TypeId>) -> Option<
        RegistryError,
    > {
        signature_fault(self.types@.len(), return_type, parameters)
    }

    /// Every method's signature names types of this registry, and the entry
    /// method, if set, is one of its methods.
    pub open spec fn well_formed(&self) -> bool {
        &&& forall|i: int|
            0 <= i < self.methods@.len() ==> self.signature_fault(
                #[trigger] self.methods@[i].return_type,
                self.methods@[i].parameters@,
            ) is None
        &&& self.main_id matches Some(m) ==> self.valid_method(m)
    }

    /// An empty registry.
    pub fn new() -> (r: JsMeta)
        ensures
            r.main_id is None,
            r.types@.len() == 0,
            r.methods@.len() == 0,
            r.well_formed(),
    {
        JsMeta { main_id: None, types: Vec::new(), methods: Vec::new() }
    }

    /// Appends a type; its id is the number of types before the call.
    pub fn add_type(&mut self, signed: bool, bits: i32) -> (r: Result<TypeId, RegistryError>)
        requires
            old(self).types@.len() < MAX_IDS,
        ensures
            bits < 0 ==> r == Err::<TypeId, RegistryError>(RegistryError::NegativeBits(bits))
                && *final(self) == *old(self),
            bits >= 0 ==> r == Ok::<TypeId, RegistryError>(old(self).types@.len() as TypeId)
                && final(self).types@ == old(self).types@.push(
                TypeDefinition { signed, bits: bits as u32 },
            ) && final(self).methods == old(self).methods && final(self).main_id == old(
                self,
            ).main_id,
            old(self).well_formed() ==> final(self).well_formed(),
    {
        if bits < 0 {
            return Err(RegistryError::NegativeBits(bits));
        }
        let type_id = self.types.len();
        self.types.push(TypeDefinition { signed, bits: bits as u32 });
        proof {
            assert forall|i: int| 0 <= i < self.methods@.len() && old(self).signature_fault(
                self.methods@[i].return_type,
                self.methods@[i].parameters@,
            ) is None implies self.signature_fault(
                #[trigger] self.methods@[i].return_type,
                self.methods@[i].parameters@,
            ) is None by {
                lemma_signature_fault_grows(
                    old(self).types@.len(),
                    self.types@.len(),
                    self.methods@[i].return_type,
                    self.methods@[i].parameters@,
                );
            }
        }
        Ok(type_id as TypeId)
    }

    /// Appends a method with no blocks; its id is the number of methods
    /// before the call. Fails, leaving the registry as it was, where the
    /// return type or a parameter type is not a type of this registry.
    pub fn add_method(&mut self, name: String, return_type: TypeId, parameters: Vec<TypeId>) -> (r:
        Result<MethodId, RegistryError>)
        requires
            old(self).methods@.len() < MAX_IDS,
        ensures
            match r {
                Ok(id) => {
                    &&& old(self).signature_fault(return_type, parameters@) is None
                    &&& id == old(self).methods@.len()
                    &&& final(self).methods@.len() == old(self).methods@.len() + 1
                    &&& final(self).methods@.take(id as int) == old(self).methods@
                    &&& is_fresh_method(final(self).methods@[id as int], name@, return_type, parameters@)
                    &&& final(self).types == old(self).types
                    &&& final(self).main_id == old(self).main_id
                },
                Err(e) => {
                    &&& old(self).signature_fault(return_type, parameters@) == Some(e)
                    &&& *final(self) == *old(self)
                },
            },
            old(self).well_formed() ==> final(self).well_formed(),
    {
        if return_type < 0 || return_type as usize >= self.types.len() {
            return Err(RegistryError::UnknownType(return_type));
        }
        let ghost faults = type_faults(self.types@.len(), parameters@);
        let mut i: usize = 0;
        while i < parameters.len()
            invariant
                i <= parameters@.len(),
                faults == type_faults(old(self).types@.len(), parameters@),
                0 <= return_type < old(self).types@.len(),
                forall|k: int| 0 <= k < i ==> faults[k] is None,
                self == old(self),
            decreases parameters@.len() - i,
        {
            let p = parameters[i];
            if p < 0 || p as usize >= self.types.len() {
                proof {
                    assert(faults[i as int] is Some);
                    crate::search::lemma_first_some_at(faults, i as int);
                }
                return Err(RegistryError::UnknownType(p));
            }
            i += 1;
        }
        proof {
            crate::search::lemma_first_some_none(faults);
        }
        let method_id = self.methods.len();
        self.methods.push(MethodDefinition { name, return_type, parameters, blocks: Vec::new() });
        proof {
            assert(self.methods@.take(method_id as int) =~= old(self).methods@);
            assert forall|k: int| 0 <= k < self.methods@.len() && old(self).well_formed() implies self.signature_fault(
                #[trigger] self.methods@[k].return_type,
                self.methods@[k].parameters@,
            ) is None by {
                if k < method_id {
                    assert(self.methods@[k] == old(self).methods@[k]);
                } else {
                    assert(self.methods@[k].parameters@ == parameters@);
                }
            }
        }
        Ok(method_id as MethodId)
    }

    /// The type with id `id`.
    pub fn get_type(&self, id: TypeId) -> (r: Option<&TypeDefinition>)
        ensures
            self.valid_type(id) ==> r == Some(&self.types@[id as int]),
            !self.valid_type(id) ==> r is None,
    {
        if id < 0 || id as usize >= self.types.len() {
            None
        } else {
            Some(&self.types[id as usize])
        }
    }

    /// The method with id `id`, to add blocks or instructions to.
    pub fn get_method_mut(&mut self, id: MethodId) -> (r: &mut MethodDefinition)
        requires
            old(self).valid_method(id),
        ensures
            *r == old(self).methods@[id as int],
            final(self).methods@ == old(self).methods@.update(id as int, *final(r)),
            final(self).types == old(self).types,
            final(self).main_id == old(self).main_id,
    {
        &mut self.methods[id as usize]
    }

    /// Designates the entry method. Fails, leaving the registry as it was,
    /// where `method_id` is not a method of this registry.
    pub fn set_main(&mut self, method_id: MethodId) -> (r: Result<(), RegistryError>)
        ensures
            old(self).valid_method(method_id) ==> r is Ok && final(self).main_id == Some(method_id)
                && final(self).types == old(self).types && final(self).methods == old(self).methods,
            !old(self).valid_method(method_id) ==> r == Err::<(), RegistryError>(
                RegistryError::UnknownMethod(method_id),
            ) && *final(self) == *old(self),
            old(self).well_formed() ==> final(self).well_formed(),
    {
        if method_id < 0 || method_id as usize >= self.methods.len() {
            return Err(RegistryError::UnknownMethod(method_id));
        }
        self.main_id = Some(method_id);
        Ok(())
    }

    /// Appends an empty block to method `method_id`; its id is the number of
    /// blocks the method had. Fails, leaving the registry as it was, where
    /// `method_id` is not a method of this registry.
    pub fn create_block(&mut self, method_id: MethodId, name: String) -> (r: Result<BlockId, RegistryError>)
        requires
            old(self).valid_method(method_id) ==> old(self).methods@[method_id as int].blocks@.len()
                < MAX_IDS,
        ensures
            !old(self).valid_method(method_id) ==> r == Err::<BlockId, RegistryError>(
                RegistryError::UnknownMethod(method_id),
            ) && *final(self) == *old(self),
            old(self).valid_method(method_id) ==> r == Ok::<BlockId, RegistryError>(
                old(self).methods@[method_id as int].blocks@.len() as BlockId,
            ) && final(self).types == old(self).types && final(self).main_id == old(self).main_id
                && final(self).methods@ == old(self).methods@.update(
                method_id as int,
                final(self).methods@[method_id as int],
            ) && is_block_added(
                old(self).methods@[method_id as int],
                final(self).methods@[method_id as int],
                name@,
            ),
            old(self).well_formed() ==> final(self).well_formed(),
    {
        if method_id < 0 || method_id as usize >= self.methods.len() {
            return Err(RegistryError::UnknownMethod(method_id));
        }
        let method = self.get_method_mut(method_id);
        let block_id = method.add_block(name);
        proof {
            self.lemma_same_signatures(*old(self), method_id as int);
        }
        Ok(block_id)
    }

    /// Deserializes a host call and appends the instruction to block
    /// `block_id` of method `method_id`. Checks, in this order, the method
    /// id, the call, and the block id; the first that fails is reported and
    /// leaves the registry as it was.
    pub fn emit(&mut self, method_id: MethodId, block_id: BlockId, mnemonic: String, args: Vec<ArgValue>) -> (r:
        Result<(), RegistryError>)
        ensures
            !old(self).valid_method(method_id) ==> r == Err::<(), RegistryError>(
                RegistryError::UnknownMethod(method_id),
            ) && *final(self) == *old(self),
            old(self).valid_method(method_id) ==> ({
                let m = old(self).methods@[method_id as int];
                let d = decode(m.parameters@.len(), old(self).types@.len(), mnemonic@, args@);
                match d {
                    Err(fault) => ({
                        &&& r matches Err(RegistryError::Instruction(e))
                        &&& e.fault == fault
                        &&& e.mnemonic@ == mnemonic@
                        &&& e.args@ == args@
                        &&& *final(self) == *old(self)
                    }),
                    Ok(inst) => if 0 <= block_id < m.blocks@.len() {
                        &&& r is Ok
                        &&& final(self).types == old(self).types
                        &&& final(self).main_id == old(self).main_id
                        &&& final(self).methods@ == old(self).methods@.update(
                            method_id as int,
                            final(self).methods@[method_id as int],
                        )
                        &&& is_instruction_added(
                            m,
                            final(self).methods@[method_id as int],
                            block_id as int,
                            inst,
                        )
                    } else {
                        &&& r == Err::<(), RegistryError>(RegistryError::UnknownBlock(block_id))
                        &&& *final(self) == *old(self)
                    },
                }
            }),
            old(self).well_formed() ==> final(self).well_formed(),
    {
        if method_id < 0 || method_id as usize >= self.methods.len() {
            return Err(RegistryError::UnknownMethod(method_id));
        }
        let parameters = self.methods[method_id as usize].parameters.len();
        let instruction = match Instruction::deserialize(parameters, self.types.len(), mnemonic, args) {
            Ok(i) => i,
            Err(e) => {
                return Err(RegistryError::Instruction(e));
            },
        };
        if block_id < 0 || block_id as usize >= self.methods[method_id as usize].blocks.len() {
            return Err(RegistryError::UnknownBlock(block_id));
        }
        let method = self.get_method_mut(method_id);
        let block = method.get_block_mut(block_id);
        block.instructions.push(instruction);
        proof {
            let m = final(self).methods@[method_id as int];
            assert(m.blocks@[block_id as int].instructions@.take(
                old(self).methods@[method_id as int].blocks@[block_id as int].instructions@.len() as int,
            ) =~= old(self).methods@[method_id as int].blocks@[block_id as int].instructions@);
            self.lemma_same_signatures(*old(self), method_id as int);
        }
        Ok(())
    }

    /// A registry that differs from a well-formed one only in the blocks of
    /// method `m` is well formed.
    proof fn lemma_same_signatures(&self, before: JsMeta, m: int)
        requires
            0 <= m < before.methods@.len(),
            self.types == before.types,
            self.main_id == before.main_id,
            self.methods@ == before.methods@.update(m, self.methods@[m]),
            self.methods@[m].return_type == before.methods@[m].return_type,
            self.methods@[m].parameters@ == before.methods@[m].parameters@,
        ensures
            before.well_formed() ==> self.well_formed(),
    {
        assert forall|i: int| 0 <= i < self.methods@.len() && before.well_formed() implies self.signature_fault(
            #[trigger] self.methods@[i].return_type,
            self.methods@[i].parameters@,
        ) is None by {
            if i != m {
                assert(self.methods@[i] == before.methods@[i]);
            } else {
                assert(before.signature_fault(before.methods@[i].return_type, before.methods@[i].parameters@) is None);
            }
        }
    }
}

impl MethodDefinition {
    /// Appends an empty block; its id is the number of blocks before the call.
    pub fn add_block(&mut self, name: String) -> (r: BlockId)
        requires
            old(self).blocks@.len() < MAX_IDS,
        ensures
            r == old(self).blocks@.len(),
            is_block_added(*old(self), *final(self), name@),
    {
        let block_id = self.blocks.len();
        self.blocks.push(BlockDefinition { name, instructions: Vec::new() });
        proof {
            assert(self.blocks@.take(block_id as int) =~= old(self).blocks@);
        }
        block_id as BlockId
    }

    /// The block with id `id`, to append instructions to.
    pub fn get_block_mut(&mut self, id: BlockId) -> (r: &mut BlockDefinition)
        requires
            0 <= id < old(self).blocks@.len(),
        ensures
            *r == old(self).blocks@[id as int],
            final(self).blocks@ == old(self).blocks@.update(id as int, *final(r)),
            final(self).name == old(self).name,
            final(self).return_type == old(self).return_type,
            final(self).parameters == old(self).parameters,
    {
        &mut self.blocks[id as usize]
    }
}

} // verus!
