//! Plain-data snapshot of the foreign module graph.
//!
//! The decoder walks an already-materialized, in-memory representation of
//! a compiler-IR module. The provider that materializes it hands the
//! decoder these records; every field mirrors one query the provider can
//! answer about a foreign handle (an opcode, an operand at an index, an
//! optional explicit name, ...). Foreign handles themselves are dense
//! indices into the snapshot's tables, compared by identity.

use vstd::prelude::*;

verus! {

/// One attribute slot as the foreign library exposes it: an enumerated
/// attribute (a kind identifier and a 64-bit payload), a string attribute
/// (key and value), or something that is neither.
pub enum FAttribute {
    Enum { kind: u32, value: u64 },
    String { kind: String, value: String },
    Other,
}

} // verus!

verus! {

use crate::types::FPType;

/// Structural shape of one foreign type node. Children are handles:
/// indices into the snapshot's type table. The provider emits the table
/// in dependency order — every child handle is smaller than its parent's
/// — which is always possible because recursive types go through a named
/// structure, carried here as its name only.
pub enum FTypeDesc {
    Void,
    Integer { bits: u32 },
    Pointer { pointee: usize, addr_space: u32 },
    FP { fp: FPType },
    Func { result: usize, params: Vec<usize>, is_var_arg: bool },
    Vector { element: usize, num_elements: usize, scalable: bool },
    Array { element: usize, num_elements: usize },
    Struct { elements: Vec<usize>, is_packed: bool },
    NamedStruct { name: String },
    Metadata,
    Label,
    Token,
}

/// All child handles of a foreign type node lie below `bound`.
pub open spec fn ftype_node_bounded(t: FTypeDesc, bound: int) -> bool {
    match t {
        FTypeDesc::Pointer { pointee, .. } => (pointee as int) < bound,
        FTypeDesc::Func { result, params, .. } => (result as int) < bound && (forall|j: int|
            0 <= j < params@.len() ==> (#[trigger] params@[j] as int) < bound),
        FTypeDesc::Vector { element, .. } => (element as int) < bound,
        FTypeDesc::Array { element, .. } => (element as int) < bound,
        FTypeDesc::Struct { elements, .. } => forall|j: int|
            0 <= j < elements@.len() ==> (#[trigger] elements@[j] as int) < bound,
        _ => true,
    }
}

/// The snapshot's type table is in dependency order: every node's
/// children stand before it.
pub open spec fn wf_ftypes(ft: Seq<FTypeDesc>) -> bool {
    forall|i: int| 0 <= i < ft.len() ==> ftype_node_bounded(#[trigger] ft[i], i)
}

} // verus!

verus! {

/// Structural shape of one foreign constant node. Children are handles:
/// indices into the snapshot's constant table, which the provider emits
/// in dependency order; type fields are handles into the type table.
pub enum FConstDesc {
    Int { bits: u32, value: u64 },
    Null { ty: usize },
    Undef { ty: usize },
    Struct { name: Option<String>, values: Vec<usize>, is_packed: bool },
    Array { element_ty: usize, elements: Vec<usize> },
    GlobalReference { name: String, ty: usize },
}

/// All child constant handles of a foreign constant node lie below
/// `bound`, and its type handles lie inside the type table.
pub open spec fn fconst_node_bounded(c: FConstDesc, bound: int, n_types: int) -> bool {
    match c {
        FConstDesc::Int { .. } => true,
        FConstDesc::Null { ty } => (ty as int) < n_types,
        FConstDesc::Undef { ty } => (ty as int) < n_types,
        FConstDesc::Struct { values, .. } => forall|j: int|
            0 <= j < values@.len() ==> (#[trigger] values@[j] as int) < bound,
        FConstDesc::Array { element_ty, elements } => (element_ty as int) < n_types && (forall|
            j: int,
        |
            0 <= j < elements@.len() ==> (#[trigger] elements@[j] as int) < bound),
        FConstDesc::GlobalReference { ty, .. } => (ty as int) < n_types,
    }
}

/// The snapshot's constant table is in dependency order and refers only
/// to types the type table holds.
pub open spec fn wf_fconsts(fc: Seq<FConstDesc>, n_types: int) -> bool {
    forall|i: int| 0 <= i < fc.len() ==> fconst_node_bounded(#[trigger] fc[i], i, n_types)
}

} // verus!

verus! {

use crate::debugloc::DebugLoc;
use crate::module::Comdat;
use crate::module::DLLStorageClass;
use crate::module::Linkage;
use crate::module::Visibility;

/// Opcode of a `ret` instruction.
pub const OPCODE_RET: u32 = 1;

/// Opcode of a `br` instruction, both the unconditional and the
/// conditional form; the operand count tells them apart.
pub const OPCODE_BR: u32 = 2;

/// Opcode of a `switch` instruction.
pub const OPCODE_SWITCH: u32 = 3;

/// Opcode of an `indirectbr` instruction.
pub const OPCODE_INDIRECT_BR: u32 = 4;

/// Opcode of an `invoke` instruction.
pub const OPCODE_INVOKE: u32 = 5;

/// Opcode of an `unreachable` instruction.
pub const OPCODE_UNREACHABLE: u32 = 7;

/// Opcode of a `resume` instruction.
pub const OPCODE_RESUME: u32 = 58;

/// Opcode of a `cleanupret` instruction.
pub const OPCODE_CLEANUP_RET: u32 = 61;

/// Opcode of a `catchret` instruction.
pub const OPCODE_CATCH_RET: u32 = 62;

/// Opcode of a `catchswitch` instruction.
pub const OPCODE_CATCH_SWITCH: u32 = 65;

/// Opcode of a `callbr` instruction.
pub const OPCODE_CALL_BR: u32 = 67;

/// What kind of thing a foreign value handle denotes. A value handle is
/// an index into the snapshot's value table.
pub enum FValueDesc {
    /// A constant; the payload is a handle into the constant table.
    Constant { c: usize },
    /// Non-IR metadata attached as a value.
    Metadata,
    /// A local: a parameter or an instruction result, with the handle of
    /// its type.
    Local { ty: usize },
    /// A basic block used as a value; the payload is the block's index
    /// within the function in whose body the handle appears.
    Block { block: usize },
}

/// The callee of a call-style instruction: an ordinary value, or inline
/// assembly of a given function type.
pub enum FCallee {
    Value { v: usize },
    Asm { ty: usize },
}

/// Call-site information of an `invoke` or `callbr` instruction, as the
/// foreign call-site queries expose it.
pub struct FCallInfo {
    pub callee: FCallee,
    /// Argument value handles, each with its parameter attributes.
    pub arguments: Vec<(usize, Vec<FAttribute>)>,
    pub return_attributes: Vec<FAttribute>,
    pub function_attributes: Vec<FAttribute>,
    pub calling_convention: u32,
}

/// One foreign instruction, terminator or not: its identity in the value
/// table, its opcode, its explicit result name (empty when unnamed), its
/// result type handle, and everything the positional foreign queries
/// answer about it.
pub struct FInstruction {
    pub value: usize,
    pub opcode: u32,
    pub name: String,
    pub ty: usize,
    /// Operand value handles, in foreign positional order.
    pub operands: Vec<usize>,
    /// Successor block indices, in foreign successor order.
    pub successors: Vec<usize>,
    /// The unwind destination; `None` means "no destination" (unwind to
    /// caller).
    pub unwind_dest: Option<usize>,
    /// The normal (return) destination of an `invoke` or `callbr`.
    pub normal_dest: Option<usize>,
    /// Handler block indices of a `catchswitch`.
    pub handlers: Vec<usize>,
    /// Call-site information, present on call-style instructions.
    pub call: Option<FCallInfo>,
    pub debugloc: Option<DebugLoc>,
}

/// One foreign basic block: its explicit name (empty when unnamed), its
/// non-terminator instructions in order, and its terminator.
pub struct FBlock {
    pub name: String,
    pub instructions: Vec<FInstruction>,
    pub terminator: FInstruction,
}

/// One foreign parameter: its identity in the value table, its explicit
/// name (empty when unnamed), its type handle, and its attributes.
pub struct FParameter {
    pub value: usize,
    pub name: String,
    pub ty: usize,
    pub attributes: Vec<FAttribute>,
}

/// One foreign function, with everything the function-level foreign
/// queries answer about it.
pub struct FFunction {
    pub name: String,
    pub parameters: Vec<FParameter>,
    pub is_var_arg: bool,
    pub return_type: usize,
    pub blocks: Vec<FBlock>,
    pub function_attributes: Vec<FAttribute>,
    pub return_attributes: Vec<FAttribute>,
    pub linkage: Linkage,
    pub visibility: Visibility,
    pub dll_storage_class: DLLStorageClass,
    pub calling_convention: u32,
    pub section: Option<String>,
    pub comdat: Option<Comdat>,
    pub alignment: u32,
    pub garbage_collector_name: Option<String>,
    /// The exception personality, as a constant handle, when the function
    /// has one.
    pub personality_function: Option<usize>,
    pub debugloc: Option<DebugLoc>,
}

/// The whole foreign module snapshot: the attribute kind-for-name query
/// table, the type, named-structure, constant, and value tables, and the
/// functions in module order.
pub struct FModule {
    pub name: String,
    pub attr_kinds: Vec<(String, u32)>,
    pub types: Vec<FTypeDesc>,
    pub named_structs: Vec<(String, Option<usize>)>,
    pub constants: Vec<FConstDesc>,
    pub values: Vec<FValueDesc>,
    pub functions: Vec<FFunction>,
}

/// A foreign instruction's cross-references stay inside the snapshot's
/// tables.
pub open spec fn wf_finstruction(m: FModule, i: FInstruction) -> bool {
    &&& (i.value as int) < m.values@.len()
    &&& (i.ty as int) < m.types@.len()
    &&& forall|j: int|
        0 <= j < i.operands@.len() ==> (#[trigger] i.operands@[j] as int) < m.values@.len()
    &&& match i.call {
        Some(ci) => {
            &&& match ci.callee {
                FCallee::Value { v } => (v as int) < m.values@.len(),
                FCallee::Asm { ty } => (ty as int) < m.types@.len(),
            }
            &&& forall|j: int|
                0 <= j < ci.arguments@.len() ==> ((#[trigger] ci.arguments@[j]).0 as int)
                    < m.values@.len()
        },
        None => true,
    }
}

/// A foreign block's instructions are well-formed.
pub open spec fn wf_fblock(m: FModule, b: FBlock) -> bool {
    &&& forall|j: int|
        0 <= j < b.instructions@.len() ==> wf_finstruction(m, #[trigger] b.instructions@[j])
    &&& wf_finstruction(m, b.terminator)
}

/// Whether value handle `v` is the handle of instruction `(bi, j)` of the
/// function — `j == blocks[bi].instructions.len()` standing for the
/// block's terminator — and that instruction registers a result name in
/// the first pass.
pub open spec fn is_registering_instr(ts: Seq<FTypeDesc>, f: FFunction, bi: int, j: int, v: int) -> bool {
    &&& 0 <= bi < f.blocks@.len()
    &&& {
        let b = f.blocks@[bi];
        if 0 <= j < b.instructions@.len() {
            &&& instr_produces_result(ts, b.instructions@[j])
            &&& b.instructions@[j].value as int == v
        } else if j == b.instructions@.len() {
            &&& term_produces_result(b.terminator)
            &&& b.terminator.value as int == v
        } else {
            false
        }
    }
}

/// A non-terminator instruction produces a result exactly when its type
/// is not void.
pub open spec fn instr_produces_result(ts: Seq<FTypeDesc>, i: FInstruction) -> bool {
    (i.ty as int) < ts.len() && !(ts[i.ty as int] is Void)
}

/// A terminator produces a result exactly when it is an `invoke`, a
/// `catchswitch`, or a `callbr`.
pub open spec fn term_produces_result(i: FInstruction) -> bool {
    i.opcode == OPCODE_INVOKE || i.opcode == OPCODE_CATCH_SWITCH || i.opcode == OPCODE_CALL_BR
}

/// Value handle `v` is registered by the function's first pass: it is a
/// parameter or a result-producing instruction of the function.
pub open spec fn is_registered(ts: Seq<FTypeDesc>, f: FFunction, v: int) -> bool {
    ||| exists|k: int|
        0 <= k < f.parameters@.len() && (#[trigger] f.parameters@[k]).value as int == v
    ||| exists|bi: int, j: int| is_registering_instr(ts, f, bi, j, v)
}

/// The entities a function's first pass registers have pairwise distinct
/// value handles: parameters among themselves, result-producing
/// instructions among themselves, and parameters against instructions.
pub open spec fn distinct_entities(ts: Seq<FTypeDesc>, f: FFunction) -> bool {
    &&& forall|k1: int, k2: int|
        0 <= k1 < k2 < f.parameters@.len() ==> (#[trigger] f.parameters@[k1]).value != (
        #[trigger] f.parameters@[k2]).value
    &&& forall|k: int, bi: int, j: int, v: int|
        0 <= k < f.parameters@.len() && #[trigger] is_registering_instr(ts, f, bi, j, v)
            ==> (#[trigger] f.parameters@[k]).value as int != v
    &&& forall|bi1: int, j1: int, bi2: int, j2: int, v1: int, v2: int|
        #[trigger] is_registering_instr(ts, f, bi1, j1, v1) && #[trigger] is_registering_instr(
            ts,
            f,
            bi2,
            j2,
            v2,
        ) && (bi1, j1) != (bi2, j2) ==> v1 != v2
}

/// A foreign function's cross-references stay inside the snapshot's
/// tables, its parameter handles exist, and the entities its first pass
/// registers are pairwise distinct.
pub open spec fn wf_ffunction(m: FModule, f: FFunction) -> bool {
    &&& (f.return_type as int) < m.types@.len()
    &&& forall|k: int|
        0 <= k < f.parameters@.len() ==> ((#[trigger] f.parameters@[k]).value as int)
            < m.values@.len() && ((f.parameters@[k]).ty as int) < m.types@.len()
    &&& forall|bi: int| 0 <= bi < f.blocks@.len() ==> wf_fblock(m, #[trigger] f.blocks@[bi])
    &&& match f.personality_function {
        Some(c) => (c as int) < m.constants@.len(),
        None => true,
    }
    &&& distinct_entities(m.types@, f)
}

/// The whole snapshot is well-formed: tables in dependency order, all
/// cross-references in range, and per-function registration handles
/// distinct. The provider guarantees this by construction; the decoder
/// requires it.
pub open spec fn wf_fmodule(m: FModule) -> bool {
    &&& wf_ftypes(m.types@)
    &&& wf_fconsts(m.constants@, m.types@.len() as int)
    &&& forall|k: int|
        0 <= k < m.named_structs@.len() ==> match (#[trigger] m.named_structs@[k]).1 {
            Some(h) => (h as int) < m.types@.len(),
            None => true,
        }
    &&& forall|v: int|
        0 <= v < m.values@.len() ==> match #[trigger] m.values@[v] {
            FValueDesc::Constant { c } => (c as int) < m.constants@.len(),
            FValueDesc::Local { ty } => (ty as int) < m.types@.len(),
            _ => true,
        }
    &&& forall|fi: int| 0 <= fi < m.functions@.len() ==> wf_ffunction(m, #[trigger] m.functions@[fi])
}

} // verus!
