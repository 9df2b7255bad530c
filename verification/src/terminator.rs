//! Terminator instructions end a basic block, and their decoding from
//! foreign terminator handles. Dispatch is by the foreign opcode; the
//! branch opcode is additionally disambiguated by operand count, and the
//! call-style terminators by the foreign call-site and destination
//! queries. Any opcode with no decode rule, and any operand or successor
//! outside the bounds a rule expects, is fatal.

use vstd::prelude::*;

use crate::constant::fshape_const;
use crate::constant::ConstantRef;
use crate::constant::Constants;
use crate::debugloc::clone_opt_debugloc;
use crate::debugloc::opt_debugloc_view;
use crate::debugloc::DebugLoc;
use crate::error::DecodeError;
use crate::foreign::wf_finstruction;
use crate::foreign::wf_fmodule;
use crate::foreign::FInstruction;
use crate::foreign::FModule;
use crate::foreign::FValueDesc;
use crate::foreign::OPCODE_BR;
use crate::foreign::OPCODE_CALL_BR;
use crate::foreign::OPCODE_CATCH_RET;
use crate::foreign::OPCODE_CATCH_SWITCH;
use crate::foreign::OPCODE_CLEANUP_RET;
use crate::foreign::OPCODE_INDIRECT_BR;
use crate::foreign::OPCODE_INVOKE;
use crate::foreign::OPCODE_RESUME;
use crate::foreign::OPCODE_RET;
use crate::foreign::OPCODE_SWITCH;
use crate::foreign::OPCODE_UNREACHABLE;
use crate::function::CallingConvention;
use crate::function::FunctionAttribute;
use crate::function::FunctionContext;
use crate::function::ParameterAttribute;
use crate::instruction::callinfo_decodable;
use crate::instruction::callinfo_matches;
use crate::instruction::CallInfo;
use crate::instruction::InlineAssembly;
use crate::module::ModuleContext;
use crate::name::Name;
use crate::operand::operand_decodable;
use crate::operand::operand_matches;
use crate::operand::Operand;

verus! {

/// A terminator instruction: one variant of a closed sum type, each with
/// its own decode rule.
#[derive(PartialEq, Clone, Debug)]
pub enum Terminator {
    Ret(Ret),
    Br(Br),
    CondBr(CondBr),
    Switch(Switch),
    IndirectBr(IndirectBr),
    Invoke(Invoke),
    Resume(Resume),
    Unreachable(Unreachable),
    CleanupRet(CleanupRet),
    CatchRet(CatchRet),
    CatchSwitch(CatchSwitch),
    CallBr(CallBr),
}

/// A function return. An empty return is represented distinctly from a
/// non-empty one, not as a special constant.
#[derive(PartialEq, Clone, Debug)]
pub struct Ret {
    /// The value being returned, or `None` if returning void.
    pub return_operand: Option<Operand>,
    pub debugloc: Option<DebugLoc>,
}

/// An unconditional branch. The foreign branch opcode covers both the
/// unconditional and the conditional form; they are separated here.
#[derive(PartialEq, Clone, Debug)]
pub struct Br {
    /// The name of the destination basic block.
    pub dest: Name,
    pub debugloc: Option<DebugLoc>,
}

/// A conditional branch.
#[derive(PartialEq, Clone, Debug)]
pub struct CondBr {
    /// The branch condition.
    pub condition: Operand,
    /// The destination if the condition is true.
    pub true_dest: Name,
    /// The destination if the condition is false.
    pub false_dest: Name,
    pub debugloc: Option<DebugLoc>,
}

/// A multi-way branch over an integer value.
#[derive(PartialEq, Clone, Debug)]
pub struct Switch {
    pub operand: Operand,
    /// The case values with their destinations, in declaration order.
    pub dests: Vec<(ConstantRef, Name)>,
    pub default_dest: Name,
    pub debugloc: Option<DebugLoc>,
}

/// An indirect branch through a block address.
#[derive(PartialEq, Clone, Debug)]
pub struct IndirectBr {
    /// Address to jump to, derived from a block-address constant.
    pub operand: Operand,
    /// The full set of possible destination blocks, all within the
    /// current function.
    pub possible_dests: Vec<Name>,
    pub debugloc: Option<DebugLoc>,
}

/// A call that may unwind: control resumes at `return_label` on a normal
/// return and at `exception_label` on an unwind.
#[derive(PartialEq, Debug)]
pub struct Invoke {
    pub function: either::Either<InlineAssembly, Operand>,
    pub arguments: Vec<(Operand, Vec<ParameterAttribute>)>,
    pub return_attributes: Vec<ParameterAttribute>,
    /// The name that receives the call's result.
    pub result: Name,
    pub return_label: Name,
    pub exception_label: Name,
    pub function_attributes: Vec<FunctionAttribute>,
    pub calling_convention: CallingConvention,
    pub debugloc: Option<DebugLoc>,
}

/// A resumption of exception propagation.
#[derive(PartialEq, Clone, Debug)]
pub struct Resume {
    pub operand: Operand,
    pub debugloc: Option<DebugLoc>,
}

/// An unreachable point of control flow.
#[derive(PartialEq, Clone, Debug)]
pub struct Unreachable {
    pub debugloc: Option<DebugLoc>,
}

/// The end of a cleanup pad.
#[derive(PartialEq, Clone, Debug)]
pub struct CleanupRet {
    pub cleanup_pad: Operand,
    /// `None` indicates "unwind to caller": an explicit absence, not an
    /// error and not a default block.
    pub unwind_dest: Option<Name>,
    pub debugloc: Option<DebugLoc>,
}

/// The end of a catch pad.
#[derive(PartialEq, Clone, Debug)]
pub struct CatchRet {
    pub catch_pad: Operand,
    pub successor: Name,
    pub debugloc: Option<DebugLoc>,
}

/// A dispatch among exception handlers.
#[derive(PartialEq, Clone, Debug)]
pub struct CatchSwitch {
    pub parent_pad: Operand,
    /// The handler blocks, in declaration order.
    pub catch_handlers: Vec<Name>,
    /// `None` indicates "unwind to caller".
    pub default_unwind_dest: Option<Name>,
    pub result: Name,
    pub debugloc: Option<DebugLoc>,
}

/// A call with additional possible control transfers.
#[derive(PartialEq, Debug)]
pub struct CallBr {
    pub function: either::Either<InlineAssembly, Operand>,
    pub arguments: Vec<(Operand, Vec<ParameterAttribute>)>,
    pub return_attributes: Vec<ParameterAttribute>,
    /// The name that receives the call's result.
    pub result: Name,
    pub return_label: Name,
    /// The other possible destinations. The chosen foreign query surface
    /// cannot recover this list, so it is an explicit unit placeholder,
    /// not a guess.
    pub other_labels: (),
    pub function_attributes: Vec<FunctionAttribute>,
    pub calling_convention: CallingConvention,
    pub debugloc: Option<DebugLoc>,
}

impl Clone for Invoke {
    fn clone(&self) -> (r: Self) {
        Invoke {
            function: match &self.function {
                either::Either::Left(a) => either::Either::Left(a.clone()),
                either::Either::Right(o) => either::Either::Right(o.clone()),
            },
            arguments: self.arguments.clone(),
            return_attributes: self.return_attributes.clone(),
            result: self.result.clone(),
            return_label: self.return_label.clone(),
            exception_label: self.exception_label.clone(),
            function_attributes: self.function_attributes.clone(),
            calling_convention: self.calling_convention,
            debugloc: self.debugloc.clone(),
        }
    }
}

impl Clone for CallBr {
    fn clone(&self) -> (r: Self) {
        CallBr {
            function: match &self.function {
                either::Either::Left(a) => either::Either::Left(a.clone()),
                either::Either::Right(o) => either::Either::Right(o.clone()),
            },
            arguments: self.arguments.clone(),
            return_attributes: self.return_attributes.clone(),
            result: self.result.clone(),
            return_label: self.return_label.clone(),
            other_labels: (),
            function_attributes: self.function_attributes.clone(),
            calling_convention: self.calling_convention,
            debugloc: self.debugloc.clone(),
        }
    }
}

/// Whether foreign value handle `v` is a block handle whose block index
/// the first-pass block-name map covers.
pub open spec fn block_name_ok(m: FModule, bb: Seq<Name>, v: int) -> bool {
    match m.values@[v] {
        FValueDesc::Block { block } => (block as int) < bb.len(),
        _ => false,
    }
}

/// The first-pass name of the block that foreign value handle `v`
/// denotes.
pub open spec fn block_name_of(m: FModule, bb: Seq<Name>, v: int) -> Name {
    bb[m.values@[v]->Block_block as int]
}

/// Resolve a block-as-value operand to the block's first-pass name; a
/// handle that is not a block, or a block the map does not cover, is
/// fatal.
pub fn op_to_bb_name(v: usize, m: &FModule, func_ctx: &FunctionContext) -> (r: Result<
    Name,
    DecodeError,
>)
    requires
        (v as int) < m.values@.len(),
    ensures
        r.is_ok() <==> block_name_ok(*m, func_ctx.bb_names@, v as int),
        r matches Ok(n) ==> n@ == block_name_of(*m, func_ctx.bb_names@, v as int)@,
        r is Err ==> r == Err::<Name, DecodeError>(DecodeError::BlockNotFound),
{
    match &m.values[v] {
        FValueDesc::Block { block } => {
            if *block < func_ctx.bb_names.len() {
                Ok(func_ctx.bb_names[*block].clone())
            } else {
                Err(DecodeError::BlockNotFound)
            }
        },
        _ => Err(DecodeError::BlockNotFound),
    }
}

/// Resolve a successor block index to the block's first-pass name; an
/// index the map does not cover is fatal.
pub fn bb_name_at(bi: usize, func_ctx: &FunctionContext) -> (r: Result<Name, DecodeError>)
    ensures
        r.is_ok() <==> (bi as int) < func_ctx.bb_names@.len(),
        r matches Ok(n) ==> n@ == func_ctx.bb_names@[bi as int]@,
        r is Err ==> r == Err::<Name, DecodeError>(DecodeError::BlockNotFound),
{
    if bi < func_ctx.bb_names.len() {
        Ok(func_ctx.bb_names[bi].clone())
    } else {
        Err(DecodeError::BlockNotFound)
    }
}

} // verus!

verus! {

/// Whether a `ret` decodes: no operand (void return) or one decodable
/// operand.
pub open spec fn ret_decodable(m: FModule, vn: Seq<Option<Name>>, t: FInstruction) -> bool {
    ||| t.operands@.len() == 0
    ||| (t.operands@.len() == 1 && operand_decodable(m, vn, t.operands@[0] as int))
}

/// The decoded `ret` is exactly what the foreign instruction denotes.
pub open spec fn ret_matches(
    x: Ret,
    m: FModule,
    vn: Seq<Option<Name>>,
    t: FInstruction,
    ctx: ModuleContext,
) -> bool {
    &&& if t.operands@.len() == 0 {
        x.return_operand is None
    } else {
        x.return_operand matches Some(op) && operand_matches(
            op,
            m,
            vn,
            t.operands@[0] as int,
            ctx.types,
            ctx.constants,
        )
    }
    &&& opt_debugloc_view(x.debugloc) == opt_debugloc_view(t.debugloc)
}

impl Ret {
    /// Decode a `ret`: zero operands return void; one operand is the
    /// returned value; more is fatal.
    pub fn from_llvm_ref(
        t: &FInstruction,
        m: &FModule,
        ctx: &mut ModuleContext,
        func_ctx: &FunctionContext,
    ) -> (r: Result<Ret, DecodeError>)
        requires
            old(ctx).wf(*m),
            wf_fmodule(*m),
            wf_finstruction(*m, *t),
            func_ctx.val_names@.len() == m.values@.len(),
        ensures
            final(ctx).wf(*m),
            final(ctx).extends(*old(ctx)),
            r.is_ok() <==> ret_decodable(*m, func_ctx.val_names@, *t),
            r matches Ok(x) ==> ret_matches(x, *m, func_ctx.val_names@, *t, *final(ctx)),
            t.operands@.len() >= 2 ==> r == Err::<Ret, DecodeError>(
                (DecodeError::WrongOperandCount { found: t.operands@.len() as usize }),
            ),
            t.operands@.len() == 1 && !operand_decodable(*m, func_ctx.val_names@, t.operands@[0] as int)
                ==> r == Err::<Ret, DecodeError>(DecodeError::LocalNotFound),
    {
        let n = t.operands.len();
        let return_operand = if n == 0 {
            None
        } else if n == 1 {
            match Operand::from_llvm_ref(t.operands[0], m, ctx, func_ctx) {
                Ok(op) => Some(op),
                Err(e) => {
                    return Err(e);
                },
            }
        } else {
            return Err(DecodeError::WrongOperandCount { found: n });
        };
        Ok(Ret { return_operand, debugloc: clone_opt_debugloc(&t.debugloc) })
    }
}

/// Whether an unconditional `br` decodes: exactly one operand, a block
/// handle the block-name map covers.
pub open spec fn br_decodable(m: FModule, bb: Seq<Name>, t: FInstruction) -> bool {
    t.operands@.len() == 1 && block_name_ok(m, bb, t.operands@[0] as int)
}

/// The decoded unconditional `br` is exactly what the foreign
/// instruction denotes: its single destination name.
pub open spec fn br_matches(x: Br, m: FModule, bb: Seq<Name>, t: FInstruction) -> bool {
    &&& x.dest@ == block_name_of(m, bb, t.operands@[0] as int)@
    &&& opt_debugloc_view(x.debugloc) == opt_debugloc_view(t.debugloc)
}

impl Br {
    /// Decode an unconditional `br`: one operand, the destination block.
    pub fn from_llvm_ref(t: &FInstruction, m: &FModule, func_ctx: &FunctionContext) -> (r: Result<
        Br,
        DecodeError,
    >)
        requires
            wf_fmodule(*m),
            wf_finstruction(*m, *t),
        ensures
            r.is_ok() <==> br_decodable(*m, func_ctx.bb_names@, *t),
            r matches Ok(x) ==> br_matches(x, *m, func_ctx.bb_names@, *t),
            t.operands@.len() != 1 ==> r == Err::<Br, DecodeError>(
                (DecodeError::WrongOperandCount { found: t.operands@.len() as usize }),
            ),
            t.operands@.len() == 1 && !block_name_ok(*m, func_ctx.bb_names@, t.operands@[0] as int)
                ==> r == Err::<Br, DecodeError>(DecodeError::BlockNotFound),
    {
        if t.operands.len() != 1 {
            return Err(DecodeError::WrongOperandCount { found: t.operands.len() });
        }
        let dest = match op_to_bb_name(t.operands[0], m, func_ctx) {
            Ok(n) => n,
            Err(e) => {
                return Err(e);
            },
        };
        Ok(Br { dest, debugloc: clone_opt_debugloc(&t.debugloc) })
    }
}

/// Whether a conditional `br` decodes: exactly three operands — the
/// condition, then the false destination, then the true destination.
pub open spec fn condbr_decodable(
    m: FModule,
    bb: Seq<Name>,
    vn: Seq<Option<Name>>,
    t: FInstruction,
) -> bool {
    &&& t.operands@.len() == 3
    &&& operand_decodable(m, vn, t.operands@[0] as int)
    &&& block_name_ok(m, bb, t.operands@[2] as int)
    &&& block_name_ok(m, bb, t.operands@[1] as int)
}

/// The decoded conditional `br` is exactly what the foreign instruction
/// denotes: condition from operand 0, true destination from operand 2,
/// false destination from operand 1 — note the swap.
pub open spec fn condbr_matches(
    x: CondBr,
    m: FModule,
    bb: Seq<Name>,
    vn: Seq<Option<Name>>,
    t: FInstruction,
    ctx: ModuleContext,
) -> bool {
    &&& operand_matches(x.condition, m, vn, t.operands@[0] as int, ctx.types, ctx.constants)
    &&& x.true_dest@ == block_name_of(m, bb, t.operands@[2] as int)@
    &&& x.false_dest@ == block_name_of(m, bb, t.operands@[1] as int)@
    &&& opt_debugloc_view(x.debugloc) == opt_debugloc_view(t.debugloc)
}

impl CondBr {
    /// Decode a conditional `br`: three operands; the true destination
    /// sits in slot 2 and the false destination in slot 1.
    pub fn from_llvm_ref(
        t: &FInstruction,
        m: &FModule,
        ctx: &mut ModuleContext,
        func_ctx: &FunctionContext,
    ) -> (r: Result<CondBr, DecodeError>)
        requires
            old(ctx).wf(*m),
            wf_fmodule(*m),
            wf_finstruction(*m, *t),
            func_ctx.val_names@.len() == m.values@.len(),
        ensures
            final(ctx).wf(*m),
            final(ctx).extends(*old(ctx)),
            r.is_ok() <==> condbr_decodable(*m, func_ctx.bb_names@, func_ctx.val_names@, *t),
            r matches Ok(x) ==> condbr_matches(
                x,
                *m,
                func_ctx.bb_names@,
                func_ctx.val_names@,
                *t,
                *final(ctx),
            ),
            t.operands@.len() != 3 ==> r == Err::<CondBr, DecodeError>(
                (DecodeError::WrongOperandCount { found: t.operands@.len() as usize }),
            ),
    {
        if t.operands.len() != 3 {
            return Err(DecodeError::WrongOperandCount { found: t.operands.len() });
        }
        let condition = match Operand::from_llvm_ref(t.operands[0], m, ctx, func_ctx) {
            Ok(op) => op,
            Err(e) => {
                return Err(e);
            },
        };
        let true_dest = match op_to_bb_name(t.operands[2], m, func_ctx) {
            Ok(n) => n,
            Err(e) => {
                return Err(e);
            },
        };
        let false_dest = match op_to_bb_name(t.operands[1], m, func_ctx) {
            Ok(n) => n,
            Err(e) => {
                return Err(e);
            },
        };
        Ok(CondBr { condition, true_dest, false_dest, debugloc: clone_opt_debugloc(&t.debugloc) })
    }
}

/// Whether a `resume` decodes: exactly one decodable operand.
pub open spec fn resume_decodable(m: FModule, vn: Seq<Option<Name>>, t: FInstruction) -> bool {
    t.operands@.len() == 1 && operand_decodable(m, vn, t.operands@[0] as int)
}

/// The decoded `resume` is exactly what the foreign instruction denotes.
pub open spec fn resume_matches(
    x: Resume,
    m: FModule,
    vn: Seq<Option<Name>>,
    t: FInstruction,
    ctx: ModuleContext,
) -> bool {
    &&& operand_matches(x.operand, m, vn, t.operands@[0] as int, ctx.types, ctx.constants)
    &&& opt_debugloc_view(x.debugloc) == opt_debugloc_view(t.debugloc)
}

impl Resume {
    /// Decode a `resume`: one operand, the exception value.
    pub fn from_llvm_ref(
        t: &FInstruction,
        m: &FModule,
        ctx: &mut ModuleContext,
        func_ctx: &FunctionContext,
    ) -> (r: Result<Resume, DecodeError>)
        requires
            old(ctx).wf(*m),
            wf_fmodule(*m),
            wf_finstruction(*m, *t),
            func_ctx.val_names@.len() == m.values@.len(),
        ensures
            final(ctx).wf(*m),
            final(ctx).extends(*old(ctx)),
            r.is_ok() <==> resume_decodable(*m, func_ctx.val_names@, *t),
            r matches Ok(x) ==> resume_matches(x, *m, func_ctx.val_names@, *t, *final(ctx)),
            t.operands@.len() != 1 ==> r == Err::<Resume, DecodeError>(
                (DecodeError::WrongOperandCount { found: t.operands@.len() as usize }),
            ),
    {
        if t.operands.len() != 1 {
            return Err(DecodeError::WrongOperandCount { found: t.operands.len() });
        }
        let operand = match Operand::from_llvm_ref(t.operands[0], m, ctx, func_ctx) {
            Ok(op) => op,
            Err(e) => {
                return Err(e);
            },
        };
        Ok(Resume { operand, debugloc: clone_opt_debugloc(&t.debugloc) })
    }
}

/// Whether an `unreachable` decodes: no operands.
pub open spec fn unreachable_decodable(t: FInstruction) -> bool {
    t.operands@.len() == 0
}

impl Unreachable {
    /// Decode an `unreachable`: it has no operands.
    pub fn from_llvm_ref(t: &FInstruction) -> (r: Result<Unreachable, DecodeError>)
        ensures
            r.is_ok() <==> unreachable_decodable(*t),
            r matches Ok(x) ==> opt_debugloc_view(x.debugloc) == opt_debugloc_view(t.debugloc),
            r is Err ==> r == Err::<Unreachable, DecodeError>(
                (DecodeError::WrongOperandCount { found: t.operands@.len() as usize }),
            ),
    {
        if t.operands.len() != 0 {
            return Err(DecodeError::WrongOperandCount { found: t.operands.len() });
        }
        Ok(Unreachable { debugloc: clone_opt_debugloc(&t.debugloc) })
    }
}

/// Whether a `cleanupret` decodes: one decodable operand, and an unwind
/// destination — when there is one — that the block-name map covers. "No
/// unwind destination" is a normal outcome, not a failure.
pub open spec fn cleanupret_decodable(
    m: FModule,
    bb: Seq<Name>,
    vn: Seq<Option<Name>>,
    t: FInstruction,
) -> bool {
    &&& t.operands@.len() == 1
    &&& operand_decodable(m, vn, t.operands@[0] as int)
    &&& match t.unwind_dest {
        Some(bi) => (bi as int) < bb.len(),
        None => true,
    }
}

/// The decoded `cleanupret` is exactly what the foreign instruction
/// denotes; a foreign "no destination" answer becomes an explicit
/// absence.
pub open spec fn cleanupret_matches(
    x: CleanupRet,
    m: FModule,
    bb: Seq<Name>,
    vn: Seq<Option<Name>>,
    t: FInstruction,
    ctx: ModuleContext,
) -> bool {
    &&& operand_matches(x.cleanup_pad, m, vn, t.operands@[0] as int, ctx.types, ctx.constants)
    &&& match t.unwind_dest {
        Some(bi) => x.unwind_dest matches Some(n) && n@ == bb[bi as int]@,
        None => x.unwind_dest is None,
    }
    &&& opt_debugloc_view(x.debugloc) == opt_debugloc_view(t.debugloc)
}

impl CleanupRet {
    /// Decode a `cleanupret`: one operand, the cleanup pad; the foreign
    /// unwind-destination query may answer "no destination", which
    /// decodes to an explicit `None` (unwind to caller).
    pub fn from_llvm_ref(
        t: &FInstruction,
        m: &FModule,
        ctx: &mut ModuleContext,
        func_ctx: &FunctionContext,
    ) -> (r: Result<CleanupRet, DecodeError>)
        requires
            old(ctx).wf(*m),
            wf_fmodule(*m),
            wf_finstruction(*m, *t),
            func_ctx.val_names@.len() == m.values@.len(),
        ensures
            final(ctx).wf(*m),
            final(ctx).extends(*old(ctx)),
            r.is_ok() <==> cleanupret_decodable(*m, func_ctx.bb_names@, func_ctx.val_names@, *t),
            r matches Ok(x) ==> cleanupret_matches(
                x,
                *m,
                func_ctx.bb_names@,
                func_ctx.val_names@,
                *t,
                *final(ctx),
            ),
            t.operands@.len() != 1 ==> r == Err::<CleanupRet, DecodeError>(
                (DecodeError::WrongOperandCount { found: t.operands@.len() as usize }),
            ),
    {
        if t.operands.len() != 1 {
            return Err(DecodeError::WrongOperandCount { found: t.operands.len() });
        }
        let cleanup_pad = match Operand::from_llvm_ref(t.operands[0], m, ctx, func_ctx) {
            Ok(op) => op,
            Err(e) => {
                return Err(e);
            },
        };
        let unwind_dest = match &t.unwind_dest {
            Some(bi) => match bb_name_at(*bi, func_ctx) {
                Ok(n) => Some(n),
                Err(e) => {
                    return Err(e);
                },
            },
            None => None,
        };
        Ok(CleanupRet { cleanup_pad, unwind_dest, debugloc: clone_opt_debugloc(&t.debugloc) })
    }
}

/// Whether a `catchret` decodes: at least one operand (the catch pad) and
/// a first successor the block-name map covers.
pub open spec fn catchret_decodable(
    m: FModule,
    bb: Seq<Name>,
    vn: Seq<Option<Name>>,
    t: FInstruction,
) -> bool {
    &&& t.operands@.len() >= 1
    &&& operand_decodable(m, vn, t.operands@[0] as int)
    &&& t.successors@.len() >= 1
    &&& (t.successors@[0] as int) < bb.len()
}

/// The decoded `catchret` is exactly what the foreign instruction
/// denotes.
pub open spec fn catchret_matches(
    x: CatchRet,
    m: FModule,
    bb: Seq<Name>,
    vn: Seq<Option<Name>>,
    t: FInstruction,
    ctx: ModuleContext,
) -> bool {
    &&& operand_matches(x.catch_pad, m, vn, t.operands@[0] as int, ctx.types, ctx.constants)
    &&& x.successor@ == bb[t.successors@[0] as int]@
    &&& opt_debugloc_view(x.debugloc) == opt_debugloc_view(t.debugloc)
}

impl CatchRet {
    /// Decode a `catchret`: operand 0 is the catch pad, successor 0 the
    /// block control transfers to.
    pub fn from_llvm_ref(
        t: &FInstruction,
        m: &FModule,
        ctx: &mut ModuleContext,
        func_ctx: &FunctionContext,
    ) -> (r: Result<CatchRet, DecodeError>)
        requires
            old(ctx).wf(*m),
            wf_fmodule(*m),
            wf_finstruction(*m, *t),
            func_ctx.val_names@.len() == m.values@.len(),
        ensures
            final(ctx).wf(*m),
            final(ctx).extends(*old(ctx)),
            r.is_ok() <==> catchret_decodable(*m, func_ctx.bb_names@, func_ctx.val_names@, *t),
            r matches Ok(x) ==> catchret_matches(
                x,
                *m,
                func_ctx.bb_names@,
                func_ctx.val_names@,
                *t,
                *final(ctx),
            ),
            r is Err ==> (r == Err::<CatchRet, DecodeError>(
                (DecodeError::WrongOperandCount { found: t.operands@.len() as usize }),
            ) || r == Err::<CatchRet, DecodeError>(DecodeError::LocalNotFound) || r == Err::<
                CatchRet,
                DecodeError,
            >(DecodeError::BlockNotFound)),
    {
        if t.operands.len() < 1 {
            return Err(DecodeError::WrongOperandCount { found: t.operands.len() });
        }
        let catch_pad = match Operand::from_llvm_ref(t.operands[0], m, ctx, func_ctx) {
            Ok(op) => op,
            Err(e) => {
                return Err(e);
            },
        };
        if t.successors.len() < 1 {
            return Err(DecodeError::BlockNotFound);
        }
        let successor = match bb_name_at(t.successors[0], func_ctx) {
            Ok(n) => n,
            Err(e) => {
                return Err(e);
            },
        };
        Ok(CatchRet { catch_pad, successor, debugloc: clone_opt_debugloc(&t.debugloc) })
    }
}

} // verus!

verus! {

/// Whether a `switch` decodes: a decodable scrutinee in operand 0, at
/// least one successor (slot 0 holds the default destination), and, for
/// each case `i` counted from 1, a constant case value in operand slot
/// `2*i` and a covered destination in successor slot `i`.
pub open spec fn switch_decodable(
    m: FModule,
    bb: Seq<Name>,
    vn: Seq<Option<Name>>,
    t: FInstruction,
) -> bool {
    &&& t.operands@.len() >= 1
    &&& operand_decodable(m, vn, t.operands@[0] as int)
    &&& t.successors@.len() >= 1
    &&& (t.successors@[0] as int) < bb.len()
    &&& forall|i: int|
        1 <= i < t.successors@.len() ==> ((#[trigger] t.successors@[i]) as int) < bb.len() && 2 * i
            < t.operands@.len() && (m.values@[t.operands@[2 * i] as int] matches FValueDesc::Constant {
            ..
        })
}

/// The decoded `switch` is exactly what the foreign instruction denotes:
/// default destination from successor slot 0; case values from the
/// even-indexed operand slots starting at 2, paired in declaration order
/// with the destinations from successor slots starting at 1.
pub open spec fn switch_matches(
    x: Switch,
    m: FModule,
    bb: Seq<Name>,
    vn: Seq<Option<Name>>,
    t: FInstruction,
    ctx: ModuleContext,
) -> bool {
    &&& operand_matches(x.operand, m, vn, t.operands@[0] as int, ctx.types, ctx.constants)
    &&& x.default_dest@ == bb[t.successors@[0] as int]@
    &&& x.dests@.len() == t.successors@.len() - 1
    &&& forall|i: int|
        0 <= i < x.dests@.len() ==> ctx.constants.valid_ref((#[trigger] x.dests@[i]).0)
            && ctx.constants.shape_of(ctx.types, x.dests@[i].0) == fshape_const(
            m.constants@,
            m.types@,
            m.values@[t.operands@[2 * (i + 1)] as int]->Constant_c as int,
        ) && x.dests@[i].1@ == bb[t.successors@[i + 1] as int]@
    &&& opt_debugloc_view(x.debugloc) == opt_debugloc_view(t.debugloc)
}

impl Switch {
    /// Decode a `switch`. The scrutinee is operand 0. Successor slot 0
    /// holds the default destination; the case destinations are successor
    /// slots 1 and up, and the case values the operand slots 2, 4, 6, ...
    /// in the same order.
    pub fn from_llvm_ref(
        t: &FInstruction,
        m: &FModule,
        ctx: &mut ModuleContext,
        func_ctx: &FunctionContext,
    ) -> (r: Result<Switch, DecodeError>)
        requires
            old(ctx).wf(*m),
            wf_fmodule(*m),
            wf_finstruction(*m, *t),
            func_ctx.val_names@.len() == m.values@.len(),
        ensures
            final(ctx).wf(*m),
            final(ctx).extends(*old(ctx)),
            r.is_ok() <==> switch_decodable(*m, func_ctx.bb_names@, func_ctx.val_names@, *t),
            r matches Ok(x) ==> switch_matches(
                x,
                *m,
                func_ctx.bb_names@,
                func_ctx.val_names@,
                *t,
                *final(ctx),
            ),
            r is Err ==> (r == Err::<Switch, DecodeError>(
                (DecodeError::WrongOperandCount { found: t.operands@.len() as usize }),
            ) || r == Err::<Switch, DecodeError>(DecodeError::LocalNotFound) || r == Err::<
                Switch,
                DecodeError,
            >(DecodeError::BlockNotFound) || r == Err::<Switch, DecodeError>(
                DecodeError::ConstantExpected,
            )),
    {
        let ghost bb = func_ctx.bb_names@;
        let ghost vn = func_ctx.val_names@;
        if t.operands.len() < 1 {
            return Err(DecodeError::WrongOperandCount { found: t.operands.len() });
        }
        let operand = match Operand::from_llvm_ref(t.operands[0], m, ctx, func_ctx) {
            Ok(op) => op,
            Err(e) => {
                return Err(e);
            },
        };
        let ghost c_op = *ctx;
        if t.successors.len() < 1 {
            return Err(DecodeError::BlockNotFound);
        }
        let default_dest = match bb_name_at(t.successors[0], func_ctx) {
            Ok(n) => n,
            Err(e) => {
                return Err(e);
            },
        };
        let mut dests: Vec<(ConstantRef, Name)> = Vec::new();
        let mut i: usize = 1;
        while i < t.successors.len()
            invariant
                ctx.wf(*m),
                wf_fmodule(*m),
                wf_finstruction(*m, *t),
                func_ctx.val_names@.len() == m.values@.len(),
                bb == func_ctx.bb_names@,
                vn == func_ctx.val_names@,
                ctx.extends(c_op),
                c_op.extends(*old(ctx)),
                operand_matches(operand, *m, vn, t.operands@[0] as int, c_op.types, c_op.constants),
                1 <= i <= t.successors@.len(),
                dests@.len() == i - 1,
                forall|k: int|
                    1 <= k < i ==> ((#[trigger] t.successors@[k]) as int) < bb.len() && 2 * k
                        < t.operands@.len() && (m.values@[t.operands@[2 * k] as int]
                        matches FValueDesc::Constant { .. }),
                forall|k: int|
                    0 <= k < dests@.len() ==> ctx.constants.valid_ref((#[trigger] dests@[k]).0)
                        && ctx.constants.shape_of(ctx.types, dests@[k].0) == fshape_const(
                        m.constants@,
                        m.types@,
                        m.values@[t.operands@[2 * (k + 1)] as int]->Constant_c as int,
                    ) && dests@[k].1@ == bb[t.successors@[k + 1] as int]@,
            decreases t.successors@.len() - i,
        {
            let dest_name = match bb_name_at(t.successors[i], func_ctx) {
                Ok(n) => n,
                Err(e) => {
                    return Err(e);
                },
            };
            if i > usize::MAX / 2 || 2 * i >= t.operands.len() {
                return Err(DecodeError::WrongOperandCount { found: t.operands.len() });
            }
            let opv = t.operands[2 * i];
            let c = match &m.values[opv] {
                FValueDesc::Constant { c } => *c,
                _ => {
                    return Err(DecodeError::ConstantExpected);
                },
            };
            let ghost c_pre = *ctx;
            let cr = ctx.constants.intern_constant(&m.constants, &m.types, &mut ctx.types, c);
            proof {
                ModuleContext::lemma_extends_trans(ctx, &c_pre, &c_op);
                assert forall|k: int| 0 <= k < dests@.len() implies ctx.constants.valid_ref(
                    (#[trigger] dests@[k]).0,
                ) && ctx.constants.shape_of(ctx.types, dests@[k].0) == fshape_const(
                    m.constants@,
                    m.types@,
                    m.values@[t.operands@[2 * (k + 1)] as int]->Constant_c as int,
                ) by {
                    crate::constant::lemma_resolve_const_prefix(
                        c_pre.constants.arena(),
                        ctx.constants.arena(),
                        c_pre.types.arena(),
                        ctx.types.arena(),
                        dests@[k].0.0 as int,
                    );
                }
            }
            dests.push((cr, dest_name));
            i = i + 1;
        }
        proof {
            ModuleContext::lemma_extends_trans(ctx, &c_op, old(ctx));
            crate::operand::lemma_operand_matches_extend(
                operand,
                *m,
                vn,
                t.operands@[0] as int,
                c_op.types,
                c_op.constants,
                ctx.types,
                ctx.constants,
            );
        }
        Ok(Switch { operand, dests, default_dest, debugloc: clone_opt_debugloc(&t.debugloc) })
    }
}

/// Whether an `indirectbr` decodes: a decodable address operand in slot
/// 0, and every successor covered by the block-name map.
pub open spec fn indirectbr_decodable(
    m: FModule,
    bb: Seq<Name>,
    vn: Seq<Option<Name>>,
    t: FInstruction,
) -> bool {
    &&& t.operands@.len() >= 1
    &&& operand_decodable(m, vn, t.operands@[0] as int)
    &&& forall|i: int| 0 <= i < t.successors@.len() ==> ((#[trigger] t.successors@[i]) as int) < bb.len()
}

/// The decoded `indirectbr` is exactly what the foreign instruction
/// denotes: the address operand and the full successor list, in order.
pub open spec fn indirectbr_matches(
    x: IndirectBr,
    m: FModule,
    bb: Seq<Name>,
    vn: Seq<Option<Name>>,
    t: FInstruction,
    ctx: ModuleContext,
) -> bool {
    &&& operand_matches(x.operand, m, vn, t.operands@[0] as int, ctx.types, ctx.constants)
    &&& x.possible_dests@.len() == t.successors@.len()
    &&& forall|i: int|
        0 <= i < t.successors@.len() ==> (#[trigger] x.possible_dests@[i])@ == bb[t.successors@[i] as int]@
    &&& opt_debugloc_view(x.debugloc) == opt_debugloc_view(t.debugloc)
}

impl IndirectBr {
    /// Decode an `indirectbr`: operand 0 is the address; the successor
    /// list gives every possible destination.
    pub fn from_llvm_ref(
        t: &FInstruction,
        m: &FModule,
        ctx: &mut ModuleContext,
        func_ctx: &FunctionContext,
    ) -> (r: Result<IndirectBr, DecodeError>)
        requires
            old(ctx).wf(*m),
            wf_fmodule(*m),
            wf_finstruction(*m, *t),
            func_ctx.val_names@.len() == m.values@.len(),
        ensures
            final(ctx).wf(*m),
            final(ctx).extends(*old(ctx)),
            r.is_ok() <==> indirectbr_decodable(*m, func_ctx.bb_names@, func_ctx.val_names@, *t),
            r matches Ok(x) ==> indirectbr_matches(
                x,
                *m,
                func_ctx.bb_names@,
                func_ctx.val_names@,
                *t,
                *final(ctx),
            ),
            r is Err ==> (r == Err::<IndirectBr, DecodeError>(
                (DecodeError::WrongOperandCount { found: t.operands@.len() as usize }),
            ) || r == Err::<IndirectBr, DecodeError>(DecodeError::LocalNotFound) || r == Err::<
                IndirectBr,
                DecodeError,
            >(DecodeError::BlockNotFound)),
    {
        let ghost bb = func_ctx.bb_names@;
        let ghost vn = func_ctx.val_names@;
        if t.operands.len() < 1 {
            return Err(DecodeError::WrongOperandCount { found: t.operands.len() });
        }
        let operand = match Operand::from_llvm_ref(t.operands[0], m, ctx, func_ctx) {
            Ok(op) => op,
            Err(e) => {
                return Err(e);
            },
        };
        let mut possible_dests: Vec<Name> = Vec::new();
        let mut i: usize = 0;
        while i < t.successors.len()
            invariant
                ctx.wf(*m),
                ctx.extends(*old(ctx)),
                operand_matches(operand, *m, vn, t.operands@[0] as int, ctx.types, ctx.constants),
                operand_decodable(*m, vn, t.operands@[0] as int),
                0 <= i <= t.successors@.len(),
                bb == func_ctx.bb_names@,
                possible_dests@.len() == i,
                forall|k: int| 0 <= k < i ==> ((#[trigger] t.successors@[k]) as int) < bb.len(),
                forall|k: int|
                    0 <= k < i ==> (#[trigger] possible_dests@[k])@ == bb[t.successors@[k] as int]@,
            decreases t.successors@.len() - i,
        {
            let n = match bb_name_at(t.successors[i], func_ctx) {
                Ok(n) => n,
                Err(e) => {
                    return Err(e);
                },
            };
            possible_dests.push(n);
            i = i + 1;
        }
        Ok(IndirectBr { operand, possible_dests, debugloc: clone_opt_debugloc(&t.debugloc) })
    }
}

/// Whether a `catchswitch` decodes: a decodable parent pad in operand 0,
/// every handler covered by the block-name map, a covered unwind
/// destination when there is one ("none" meaning unwind to caller), and a
/// first-pass name for its result.
pub open spec fn catchswitch_decodable(
    m: FModule,
    bb: Seq<Name>,
    vn: Seq<Option<Name>>,
    t: FInstruction,
) -> bool {
    &&& t.operands@.len() >= 1
    &&& operand_decodable(m, vn, t.operands@[0] as int)
    &&& forall|i: int| 0 <= i < t.handlers@.len() ==> ((#[trigger] t.handlers@[i]) as int) < bb.len()
    &&& match t.unwind_dest {
        Some(bi) => (bi as int) < bb.len(),
        None => true,
    }
    &&& vn[t.value as int] is Some
}

/// The decoded `catchswitch` is exactly what the foreign instruction
/// denotes.
pub open spec fn catchswitch_matches(
    x: CatchSwitch,
    m: FModule,
    bb: Seq<Name>,
    vn: Seq<Option<Name>>,
    t: FInstruction,
    ctx: ModuleContext,
) -> bool {
    &&& operand_matches(x.parent_pad, m, vn, t.operands@[0] as int, ctx.types, ctx.constants)
    &&& x.catch_handlers@.len() == t.handlers@.len()
    &&& forall|i: int|
        0 <= i < t.handlers@.len() ==> (#[trigger] x.catch_handlers@[i])@ == bb[t.handlers@[i] as int]@
    &&& match t.unwind_dest {
        Some(bi) => x.default_unwind_dest matches Some(n) && n@ == bb[bi as int]@,
        None => x.default_unwind_dest is None,
    }
    &&& (vn[t.value as int] matches Some(n) && x.result@ == n@)
    &&& opt_debugloc_view(x.debugloc) == opt_debugloc_view(t.debugloc)
}

impl CatchSwitch {
    /// Decode a `catchswitch`: operand 0 is the parent pad; the handler
    /// list comes from the foreign handler query; a foreign "no
    /// destination" answer for the unwind destination decodes to an
    /// explicit `None`; the result name is the already-assigned
    /// first-pass name.
    pub fn from_llvm_ref(
        t: &FInstruction,
        m: &FModule,
        ctx: &mut ModuleContext,
        func_ctx: &FunctionContext,
    ) -> (r: Result<CatchSwitch, DecodeError>)
        requires
            old(ctx).wf(*m),
            wf_fmodule(*m),
            wf_finstruction(*m, *t),
            func_ctx.val_names@.len() == m.values@.len(),
        ensures
            final(ctx).wf(*m),
            final(ctx).extends(*old(ctx)),
            r.is_ok() <==> catchswitch_decodable(*m, func_ctx.bb_names@, func_ctx.val_names@, *t),
            r matches Ok(x) ==> catchswitch_matches(
                x,
                *m,
                func_ctx.bb_names@,
                func_ctx.val_names@,
                *t,
                *final(ctx),
            ),
            r is Err ==> (r == Err::<CatchSwitch, DecodeError>(
                (DecodeError::WrongOperandCount { found: t.operands@.len() as usize }),
            ) || r == Err::<CatchSwitch, DecodeError>(DecodeError::LocalNotFound) || r == Err::<
                CatchSwitch,
                DecodeError,
            >(DecodeError::BlockNotFound)),
    {
        let ghost bb = func_ctx.bb_names@;
        let ghost vn = func_ctx.val_names@;
        if t.operands.len() < 1 {
            return Err(DecodeError::WrongOperandCount { found: t.operands.len() });
        }
        let parent_pad = match Operand::from_llvm_ref(t.operands[0], m, ctx, func_ctx) {
            Ok(op) => op,
            Err(e) => {
                return Err(e);
            },
        };
        let mut catch_handlers: Vec<Name> = Vec::new();
        let mut i: usize = 0;
        while i < t.handlers.len()
            invariant
                ctx.wf(*m),
                ctx.extends(*old(ctx)),
                operand_matches(parent_pad, *m, vn, t.operands@[0] as int, ctx.types, ctx.constants),
                operand_decodable(*m, vn, t.operands@[0] as int),
                0 <= i <= t.handlers@.len(),
                bb == func_ctx.bb_names@,
                catch_handlers@.len() == i,
                forall|k: int| 0 <= k < i ==> ((#[trigger] t.handlers@[k]) as int) < bb.len(),
                forall|k: int|
                    0 <= k < i ==> (#[trigger] catch_handlers@[k])@ == bb[t.handlers@[k] as int]@,
            decreases t.handlers@.len() - i,
        {
            let n = match bb_name_at(t.handlers[i], func_ctx) {
                Ok(n) => n,
                Err(e) => {
                    return Err(e);
                },
            };
            catch_handlers.push(n);
            i = i + 1;
        }
        let default_unwind_dest = match &t.unwind_dest {
            Some(bi) => match bb_name_at(*bi, func_ctx) {
                Ok(n) => Some(n),
                Err(e) => {
                    return Err(e);
                },
            },
            None => None,
        };
        let result = match &func_ctx.val_names[t.value] {
            Some(n) => n.clone(),
            None => {
                return Err(DecodeError::LocalNotFound);
            },
        };
        Ok(
            CatchSwitch {
                parent_pad,
                catch_handlers,
                default_unwind_dest,
                result,
                debugloc: clone_opt_debugloc(&t.debugloc),
            },
        )
    }
}

} // verus!

verus! {

/// Whether an `invoke` decodes: it carries call-site information that
/// decodes, its result has a first-pass name, and both its return and its
/// unwind destinations exist and are covered by the block-name map.
pub open spec fn invoke_decodable(
    m: FModule,
    bb: Seq<Name>,
    vn: Seq<Option<Name>>,
    t: FInstruction,
) -> bool {
    &&& t.call matches Some(ci) && callinfo_decodable(m, vn, ci)
    &&& vn[t.value as int] is Some
    &&& (t.normal_dest matches Some(bi) && (bi as int) < bb.len())
    &&& (t.unwind_dest matches Some(bi) && (bi as int) < bb.len())
}

/// The decoded `invoke` is exactly what the foreign instruction denotes.
pub open spec fn invoke_matches(
    x: Invoke,
    m: FModule,
    bb: Seq<Name>,
    vn: Seq<Option<Name>>,
    t: FInstruction,
    ctx: ModuleContext,
) -> bool {
    &&& callinfo_matches(
        (CallInfo {
            function: x.function,
            arguments: x.arguments,
            return_attributes: x.return_attributes,
            function_attributes: x.function_attributes,
            calling_convention: x.calling_convention,
        }),
        m,
        vn,
        t.call->0,
        ctx,
    )
    &&& (vn[t.value as int] matches Some(n) && x.result@ == n@)
    &&& x.return_label@ == bb[t.normal_dest->0 as int]@
    &&& x.exception_label@ == bb[t.unwind_dest->0 as int]@
    &&& opt_debugloc_view(x.debugloc) == opt_debugloc_view(t.debugloc)
}

impl Invoke {
    /// Decode an `invoke`: the call-site information gives the callee,
    /// arguments, attributes, and calling convention; the result name is
    /// the already-assigned first-pass name; the return and exception
    /// labels come from the foreign destination queries.
    pub fn from_llvm_ref(
        t: &FInstruction,
        m: &FModule,
        ctx: &mut ModuleContext,
        func_ctx: &FunctionContext,
    ) -> (r: Result<Invoke, DecodeError>)
        requires
            old(ctx).wf(*m),
            wf_fmodule(*m),
            wf_finstruction(*m, *t),
            func_ctx.val_names@.len() == m.values@.len(),
        ensures
            final(ctx).wf(*m),
            final(ctx).extends(*old(ctx)),
            r.is_ok() <==> invoke_decodable(*m, func_ctx.bb_names@, func_ctx.val_names@, *t),
            r matches Ok(x) ==> invoke_matches(
                x,
                *m,
                func_ctx.bb_names@,
                func_ctx.val_names@,
                *t,
                *final(ctx),
            ),
            t.call is None ==> r == Err::<Invoke, DecodeError>(DecodeError::MissingCallInfo),
            r is Err ==> (r == Err::<Invoke, DecodeError>(DecodeError::MissingCallInfo) || r
                == Err::<Invoke, DecodeError>(DecodeError::LocalNotFound) || r == Err::<
                Invoke,
                DecodeError,
            >(DecodeError::BlockNotFound)),
    {
        let fci = match &t.call {
            Some(ci) => ci,
            None => {
                return Err(DecodeError::MissingCallInfo);
            },
        };
        let callinfo = match CallInfo::from_llvm_ref(fci, m, ctx, func_ctx) {
            Ok(c) => c,
            Err(e) => {
                return Err(e);
            },
        };
        let result = match &func_ctx.val_names[t.value] {
            Some(n) => n.clone(),
            None => {
                return Err(DecodeError::LocalNotFound);
            },
        };
        let return_label = match &t.normal_dest {
            Some(bi) => match bb_name_at(*bi, func_ctx) {
                Ok(n) => n,
                Err(e) => {
                    return Err(e);
                },
            },
            None => {
                return Err(DecodeError::BlockNotFound);
            },
        };
        let exception_label = match &t.unwind_dest {
            Some(bi) => match bb_name_at(*bi, func_ctx) {
                Ok(n) => n,
                Err(e) => {
                    return Err(e);
                },
            },
            None => {
                return Err(DecodeError::BlockNotFound);
            },
        };
        let CallInfo { function, arguments, return_attributes, function_attributes, calling_convention } = callinfo;
        Ok(
            Invoke {
                function,
                arguments,
                return_attributes,
                result,
                return_label,
                exception_label,
                function_attributes,
                calling_convention,
                debugloc: clone_opt_debugloc(&t.debugloc),
            },
        )
    }
}

/// Whether a `callbr` decodes: it carries call-site information that
/// decodes, its result has a first-pass name, and its return destination
/// exists and is covered by the block-name map.
pub open spec fn callbr_decodable(
    m: FModule,
    bb: Seq<Name>,
    vn: Seq<Option<Name>>,
    t: FInstruction,
) -> bool {
    &&& t.call matches Some(ci) && callinfo_decodable(m, vn, ci)
    &&& vn[t.value as int] is Some
    &&& (t.normal_dest matches Some(bi) && (bi as int) < bb.len())
}

/// The decoded `callbr` is exactly what the foreign instruction denotes;
/// its other-destinations field is the explicit unit placeholder.
pub open spec fn callbr_matches(
    x: CallBr,
    m: FModule,
    bb: Seq<Name>,
    vn: Seq<Option<Name>>,
    t: FInstruction,
    ctx: ModuleContext,
) -> bool {
    &&& callinfo_matches(
        (CallInfo {
            function: x.function,
            arguments: x.arguments,
            return_attributes: x.return_attributes,
            function_attributes: x.function_attributes,
            calling_convention: x.calling_convention,
        }),
        m,
        vn,
        t.call->0,
        ctx,
    )
    &&& (vn[t.value as int] matches Some(n) && x.result@ == n@)
    &&& x.return_label@ == bb[t.normal_dest->0 as int]@
    &&& x.other_labels == ()
    &&& opt_debugloc_view(x.debugloc) == opt_debugloc_view(t.debugloc)
}

impl CallBr {
    /// Decode a `callbr`: like an `invoke` with only the return label;
    /// the other possible destinations cannot be recovered through the
    /// chosen foreign query surface and stay an explicit unit
    /// placeholder.
    pub fn from_llvm_ref(
        t: &FInstruction,
        m: &FModule,
        ctx: &mut ModuleContext,
        func_ctx: &FunctionContext,
    ) -> (r: Result<CallBr, DecodeError>)
        requires
            old(ctx).wf(*m),
            wf_fmodule(*m),
            wf_finstruction(*m, *t),
            func_ctx.val_names@.len() == m.values@.len(),
        ensures
            final(ctx).wf(*m),
            final(ctx).extends(*old(ctx)),
            r.is_ok() <==> callbr_decodable(*m, func_ctx.bb_names@, func_ctx.val_names@, *t),
            r matches Ok(x) ==> callbr_matches(
                x,
                *m,
                func_ctx.bb_names@,
                func_ctx.val_names@,
                *t,
                *final(ctx),
            ),
            t.call is None ==> r == Err::<CallBr, DecodeError>(DecodeError::MissingCallInfo),
            r is Err ==> (r == Err::<CallBr, DecodeError>(DecodeError::MissingCallInfo) || r
                == Err::<CallBr, DecodeError>(DecodeError::LocalNotFound) || r == Err::<
                CallBr,
                DecodeError,
            >(DecodeError::BlockNotFound)),
    {
        let fci = match &t.call {
            Some(ci) => ci,
            None => {
                return Err(DecodeError::MissingCallInfo);
            },
        };
        let callinfo = match CallInfo::from_llvm_ref(fci, m, ctx, func_ctx) {
            Ok(c) => c,
            Err(e) => {
                return Err(e);
            },
        };
        let result = match &func_ctx.val_names[t.value] {
            Some(n) => n.clone(),
            None => {
                return Err(DecodeError::LocalNotFound);
            },
        };
        let return_label = match &t.normal_dest {
            Some(bi) => match bb_name_at(*bi, func_ctx) {
                Ok(n) => n,
                Err(e) => {
                    return Err(e);
                },
            },
            None => {
                return Err(DecodeError::BlockNotFound);
            },
        };
        let CallInfo { function, arguments, return_attributes, function_attributes, calling_convention } = callinfo;
        Ok(
            CallBr {
                function,
                arguments,
                return_attributes,
                result,
                return_label,
                other_labels: (),
                function_attributes,
                calling_convention,
                debugloc: clone_opt_debugloc(&t.debugloc),
            },
        )
    }
}

} // verus!

verus! {

/// Whether a foreign terminator decodes: its opcode must have a decode
/// rule — the branch opcode with exactly one or exactly three operands —
/// and the rule's own conditions must hold.
pub open spec fn term_decodable(
    m: FModule,
    bb: Seq<Name>,
    vn: Seq<Option<Name>>,
    t: FInstruction,
) -> bool {
    if t.opcode == OPCODE_RET {
        ret_decodable(m, vn, t)
    } else if t.opcode == OPCODE_BR {
        ||| (t.operands@.len() == 1 && br_decodable(m, bb, t))
        ||| (t.operands@.len() == 3 && condbr_decodable(m, bb, vn, t))
    } else if t.opcode == OPCODE_SWITCH {
        switch_decodable(m, bb, vn, t)
    } else if t.opcode == OPCODE_INDIRECT_BR {
        indirectbr_decodable(m, bb, vn, t)
    } else if t.opcode == OPCODE_INVOKE {
        invoke_decodable(m, bb, vn, t)
    } else if t.opcode == OPCODE_RESUME {
        resume_decodable(m, vn, t)
    } else if t.opcode == OPCODE_UNREACHABLE {
        unreachable_decodable(t)
    } else if t.opcode == OPCODE_CLEANUP_RET {
        cleanupret_decodable(m, bb, vn, t)
    } else if t.opcode == OPCODE_CATCH_RET {
        catchret_decodable(m, bb, vn, t)
    } else if t.opcode == OPCODE_CATCH_SWITCH {
        catchswitch_decodable(m, bb, vn, t)
    } else if t.opcode == OPCODE_CALL_BR {
        callbr_decodable(m, bb, vn, t)
    } else {
        false
    }
}

/// The decoded terminator is the variant the foreign opcode selects, and
/// that variant is exactly what the foreign instruction denotes.
pub open spec fn term_matches(
    r: Terminator,
    m: FModule,
    bb: Seq<Name>,
    vn: Seq<Option<Name>>,
    t: FInstruction,
    ctx: ModuleContext,
) -> bool {
    if t.opcode == OPCODE_RET {
        r matches Terminator::Ret(x) && ret_matches(x, m, vn, t, ctx)
    } else if t.opcode == OPCODE_BR {
        if t.operands@.len() == 1 {
            r matches Terminator::Br(x) && br_matches(x, m, bb, t)
        } else {
            r matches Terminator::CondBr(x) && condbr_matches(x, m, bb, vn, t, ctx)
        }
    } else if t.opcode == OPCODE_SWITCH {
        r matches Terminator::Switch(x) && switch_matches(x, m, bb, vn, t, ctx)
    } else if t.opcode == OPCODE_INDIRECT_BR {
        r matches Terminator::IndirectBr(x) && indirectbr_matches(x, m, bb, vn, t, ctx)
    } else if t.opcode == OPCODE_INVOKE {
        r matches Terminator::Invoke(x) && invoke_matches(x, m, bb, vn, t, ctx)
    } else if t.opcode == OPCODE_RESUME {
        r matches Terminator::Resume(x) && resume_matches(x, m, vn, t, ctx)
    } else if t.opcode == OPCODE_UNREACHABLE {
        r matches Terminator::Unreachable(x) && opt_debugloc_view(x.debugloc) == opt_debugloc_view(
            t.debugloc,
        )
    } else if t.opcode == OPCODE_CLEANUP_RET {
        r matches Terminator::CleanupRet(x) && cleanupret_matches(x, m, bb, vn, t, ctx)
    } else if t.opcode == OPCODE_CATCH_RET {
        r matches Terminator::CatchRet(x) && catchret_matches(x, m, bb, vn, t, ctx)
    } else if t.opcode == OPCODE_CATCH_SWITCH {
        r matches Terminator::CatchSwitch(x) && catchswitch_matches(x, m, bb, vn, t, ctx)
    } else if t.opcode == OPCODE_CALL_BR {
        r matches Terminator::CallBr(x) && callbr_matches(x, m, bb, vn, t, ctx)
    } else {
        false
    }
}

impl Terminator {
    /// Decode one foreign terminator. The dispatch key is the opcode; the
    /// branch opcode is further told apart by operand count (one operand:
    /// unconditional; three: conditional; anything else is fatal). An
    /// opcode with no rule here — a non-terminator in terminator position
    /// among them — is fatal.
    pub fn from_llvm_ref(
        t: &FInstruction,
        m: &FModule,
        ctx: &mut ModuleContext,
        func_ctx: &FunctionContext,
    ) -> (r: Result<Terminator, DecodeError>)
        requires
            old(ctx).wf(*m),
            wf_fmodule(*m),
            wf_finstruction(*m, *t),
            func_ctx.val_names@.len() == m.values@.len(),
        ensures
            final(ctx).wf(*m),
            final(ctx).extends(*old(ctx)),
            r.is_ok() <==> term_decodable(*m, func_ctx.bb_names@, func_ctx.val_names@, *t),
            r matches Ok(x) ==> term_matches(
                x,
                *m,
                func_ctx.bb_names@,
                func_ctx.val_names@,
                *t,
                *final(ctx),
            ),
            !(t.opcode == OPCODE_RET || t.opcode == OPCODE_BR || t.opcode == OPCODE_SWITCH
                || t.opcode == OPCODE_INDIRECT_BR || t.opcode == OPCODE_INVOKE || t.opcode
                == OPCODE_RESUME || t.opcode == OPCODE_UNREACHABLE || t.opcode
                == OPCODE_CLEANUP_RET || t.opcode == OPCODE_CATCH_RET || t.opcode
                == OPCODE_CATCH_SWITCH || t.opcode == OPCODE_CALL_BR) ==> r == Err::<
                Terminator,
                DecodeError,
            >((DecodeError::UnknownOpcode { opcode: t.opcode })),
    {
        if t.opcode == OPCODE_RET {
            match Ret::from_llvm_ref(t, m, ctx, func_ctx) {
                Ok(x) => Ok(Terminator::Ret(x)),
                Err(e) => Err(e),
            }
        } else if t.opcode == OPCODE_BR {
            let n = t.operands.len();
            if n == 1 {
                match Br::from_llvm_ref(t, m, func_ctx) {
                    Ok(x) => Ok(Terminator::Br(x)),
                    Err(e) => Err(e),
                }
            } else if n == 3 {
                match CondBr::from_llvm_ref(t, m, ctx, func_ctx) {
                    Ok(x) => Ok(Terminator::CondBr(x)),
                    Err(e) => Err(e),
                }
            } else {
                Err(DecodeError::WrongOperandCount { found: n })
            }
        } else if t.opcode == OPCODE_SWITCH {
            match Switch::from_llvm_ref(t, m, ctx, func_ctx) {
                Ok(x) => Ok(Terminator::Switch(x)),
                Err(e) => Err(e),
            }
        } else if t.opcode == OPCODE_INDIRECT_BR {
            match IndirectBr::from_llvm_ref(t, m, ctx, func_ctx) {
                Ok(x) => Ok(Terminator::IndirectBr(x)),
                Err(e) => Err(e),
            }
        } else if t.opcode == OPCODE_INVOKE {
            match Invoke::from_llvm_ref(t, m, ctx, func_ctx) {
                Ok(x) => Ok(Terminator::Invoke(x)),
                Err(e) => Err(e),
            }
        } else if t.opcode == OPCODE_RESUME {
            match Resume::from_llvm_ref(t, m, ctx, func_ctx) {
                Ok(x) => Ok(Terminator::Resume(x)),
                Err(e) => Err(e),
            }
        } else if t.opcode == OPCODE_UNREACHABLE {
            match Unreachable::from_llvm_ref(t) {
                Ok(x) => Ok(Terminator::Unreachable(x)),
                Err(e) => Err(e),
            }
        } else if t.opcode == OPCODE_CLEANUP_RET {
            match CleanupRet::from_llvm_ref(t, m, ctx, func_ctx) {
                Ok(x) => Ok(Terminator::CleanupRet(x)),
                Err(e) => Err(e),
            }
        } else if t.opcode == OPCODE_CATCH_RET {
            match CatchRet::from_llvm_ref(t, m, ctx, func_ctx) {
                Ok(x) => Ok(Terminator::CatchRet(x)),
                Err(e) => Err(e),
            }
        } else if t.opcode == OPCODE_CATCH_SWITCH {
            match CatchSwitch::from_llvm_ref(t, m, ctx, func_ctx) {
                Ok(x) => Ok(Terminator::CatchSwitch(x)),
                Err(e) => Err(e),
            }
        } else if t.opcode == OPCODE_CALL_BR {
            match CallBr::from_llvm_ref(t, m, ctx, func_ctx) {
                Ok(x) => Ok(Terminator::CallBr(x)),
                Err(e) => Err(e),
            }
        } else {
            Err(DecodeError::UnknownOpcode { opcode: t.opcode })
        }
    }

    /// The source-location tag of this terminator.
    pub fn get_debug_loc(&self) -> (r: &Option<DebugLoc>)
        ensures
            *r == match self {
                Terminator::Ret(x) => x.debugloc,
                Terminator::Br(x) => x.debugloc,
                Terminator::CondBr(x) => x.debugloc,
                Terminator::Switch(x) => x.debugloc,
                Terminator::IndirectBr(x) => x.debugloc,
                Terminator::Invoke(x) => x.debugloc,
                Terminator::Resume(x) => x.debugloc,
                Terminator::Unreachable(x) => x.debugloc,
                Terminator::CleanupRet(x) => x.debugloc,
                Terminator::CatchRet(x) => x.debugloc,
                Terminator::CatchSwitch(x) => x.debugloc,
                Terminator::CallBr(x) => x.debugloc,
            },
    {
        match self {
            Terminator::Ret(x) => &x.debugloc,
            Terminator::Br(x) => &x.debugloc,
            Terminator::CondBr(x) => &x.debugloc,
            Terminator::Switch(x) => &x.debugloc,
            Terminator::IndirectBr(x) => &x.debugloc,
            Terminator::Invoke(x) => &x.debugloc,
            Terminator::Resume(x) => &x.debugloc,
            Terminator::Unreachable(x) => &x.debugloc,
            Terminator::CleanupRet(x) => &x.debugloc,
            Terminator::CatchRet(x) => &x.debugloc,
            Terminator::CatchSwitch(x) => &x.debugloc,
            Terminator::CallBr(x) => &x.debugloc,
        }
    }
}

} // verus!

verus! {

use crate::types::Type;
use crate::types::TypeRef;
use crate::types::Types;

/// The type reference an operand's type query answers, given the
/// constant session that recorded constant types.
pub open spec fn operand_type_ref(op: Operand, consts: Constants) -> TypeRef {
    match op {
        Operand::LocalOperand { ty, .. } => ty,
        Operand::ConstantOperand(c) => consts.tys()[c.0 as int],
        Operand::MetadataOperand => TypeRef(1usize),
    }
}

/// The type reference of a callee: the declared type of inline assembly,
/// or the callee operand's type.
pub open spec fn callee_type_ref(f: either::Either<InlineAssembly, Operand>, consts: Constants) -> TypeRef {
    match f {
        either::Either::Left(a) => a.ty,
        either::Either::Right(op) => operand_type_ref(op, consts),
    }
}

/// The references an operand carries point into the given sessions.
pub open spec fn operand_refs_valid(op: Operand, types: Types, consts: Constants) -> bool {
    match op {
        Operand::LocalOperand { ty, .. } => types.valid_ref(ty),
        Operand::ConstantOperand(c) => consts.valid_ref(c) && types.valid_ref(
            consts.tys()[c.0 as int],
        ),
        Operand::MetadataOperand => true,
    }
}

/// The references a callee carries point into the given sessions.
pub open spec fn callee_refs_valid(
    f: either::Either<InlineAssembly, Operand>,
    types: Types,
    consts: Constants,
) -> bool {
    match f {
        either::Either::Left(a) => types.valid_ref(a.ty),
        either::Either::Right(op) => operand_refs_valid(op, types, consts),
    }
}

impl Invoke {
    /// The type of an `invoke` is the result type of its callee's
    /// function type.
    pub fn get_type(&self, types: &Types, constants: &Constants) -> (r: TypeRef)
        requires
            types.wf(),
            constants.wf(*types),
            callee_refs_valid(self.function, *types, *constants),
            types.arena()[callee_type_ref(self.function, *constants).0 as int] is FuncType,
        ensures
            r == types.arena()[callee_type_ref(self.function, *constants).0 as int]->FuncType_result_type,
    {
        let ctr = match &self.function {
            either::Either::Left(a) => a.ty,
            either::Either::Right(op) => op.get_type(types, constants),
        };
        match types.get_node(ctr) {
            Type::FuncType { result_type, .. } => *result_type,
            _ => vstd::pervasive::unreached(),
        }
    }
}

impl CallBr {
    /// The type of a `callbr` is the result type of its callee's function
    /// type.
    pub fn get_type(&self, types: &Types, constants: &Constants) -> (r: TypeRef)
        requires
            types.wf(),
            constants.wf(*types),
            callee_refs_valid(self.function, *types, *constants),
            types.arena()[callee_type_ref(self.function, *constants).0 as int] is FuncType,
        ensures
            r == types.arena()[callee_type_ref(self.function, *constants).0 as int]->FuncType_result_type,
    {
        let ctr = match &self.function {
            either::Either::Left(a) => a.ty,
            either::Either::Right(op) => op.get_type(types, constants),
        };
        match types.get_node(ctr) {
            Type::FuncType { result_type, .. } => *result_type,
            _ => vstd::pervasive::unreached(),
        }
    }
}

impl Terminator {
    /// The type of a terminator is its result type: void for most
    /// variants, and the callee's result type for the call-style ones.
    /// The result type of an exception-handler dispatch is not clearly
    /// specified and is excluded here.
    pub fn get_type(&self, types: &Types, constants: &Constants) -> (r: TypeRef)
        requires
            types.wf(),
            constants.wf(*types),
            !(self is CatchSwitch),
            self matches Terminator::Invoke(x) ==> callee_refs_valid(
                x.function,
                *types,
                *constants,
            ) && types.arena()[callee_type_ref(x.function, *constants).0 as int] is FuncType,
            self matches Terminator::CallBr(x) ==> callee_refs_valid(
                x.function,
                *types,
                *constants,
            ) && types.arena()[callee_type_ref(x.function, *constants).0 as int] is FuncType,
        ensures
            match self {
                Terminator::Invoke(x) => r == types.arena()[callee_type_ref(
                    x.function,
                    *constants,
                ).0 as int]->FuncType_result_type,
                Terminator::CallBr(x) => r == types.arena()[callee_type_ref(
                    x.function,
                    *constants,
                ).0 as int]->FuncType_result_type,
                _ => r == TypeRef(0usize),
            },
    {
        match self {
            Terminator::Ret(_) => types.void(),
            Terminator::Br(_) => types.void(),
            Terminator::CondBr(_) => types.void(),
            Terminator::Switch(_) => types.void(),
            Terminator::IndirectBr(_) => types.void(),
            Terminator::Invoke(x) => x.get_type(types, constants),
            Terminator::Resume(_) => types.void(),
            Terminator::Unreachable(_) => types.void(),
            Terminator::CleanupRet(_) => types.void(),
            Terminator::CatchRet(_) => types.void(),
            Terminator::CatchSwitch(_) => vstd::pervasive::unreached(),
            Terminator::CallBr(x) => x.get_type(types, constants),
        }
    }
}

} // verus!

verus! {

use crate::instruction::lemma_callinfo_matches_extend;
use crate::operand::lemma_operand_matches_extend;

/// A decoded terminator keeps matching its foreign instruction as the
/// session's interners grow.
pub proof fn lemma_term_matches_extend(
    r: Terminator,
    m: FModule,
    bb: Seq<Name>,
    vn: Seq<Option<Name>>,
    t: FInstruction,
    ctx1: ModuleContext,
    ctx2: ModuleContext,
)
    requires
        wf_finstruction(m, t),
        term_decodable(m, bb, vn, t),
        ctx1.types.wf(),
        ctx1.constants.wf(ctx1.types),
        ctx2.extends(ctx1),
        term_matches(r, m, bb, vn, t, ctx1),
    ensures
        term_matches(r, m, bb, vn, t, ctx2),
{
    if t.opcode == OPCODE_RET {
        if let Terminator::Ret(x) = r {
            if t.operands@.len() != 0 {
                if let Some(op) = x.return_operand {
                    lemma_operand_matches_extend(
                        op,
                        m,
                        vn,
                        t.operands@[0] as int,
                        ctx1.types,
                        ctx1.constants,
                        ctx2.types,
                        ctx2.constants,
                    );
                }
            }
        }
    } else if t.opcode == OPCODE_BR {
        if t.operands@.len() != 1 {
            if let Terminator::CondBr(x) = r {
                lemma_operand_matches_extend(
                    x.condition,
                    m,
                    vn,
                    t.operands@[0] as int,
                    ctx1.types,
                    ctx1.constants,
                    ctx2.types,
                    ctx2.constants,
                );
            }
        }
    } else if t.opcode == OPCODE_SWITCH {
        if let Terminator::Switch(x) = r {
            lemma_operand_matches_extend(
                x.operand,
                m,
                vn,
                t.operands@[0] as int,
                ctx1.types,
                ctx1.constants,
                ctx2.types,
                ctx2.constants,
            );
            assert forall|i: int| 0 <= i < x.dests@.len() implies ctx2.constants.valid_ref(
                (#[trigger] x.dests@[i]).0,
            ) && ctx2.constants.shape_of(ctx2.types, x.dests@[i].0) == fshape_const(
                m.constants@,
                m.types@,
                m.values@[t.operands@[2 * (i + 1)] as int]->Constant_c as int,
            ) && x.dests@[i].1@ == bb[t.successors@[i + 1] as int]@ by {
                crate::constant::lemma_resolve_const_prefix(
                    ctx1.constants.arena(),
                    ctx2.constants.arena(),
                    ctx1.types.arena(),
                    ctx2.types.arena(),
                    x.dests@[i].0.0 as int,
                );
            }
        }
    } else if t.opcode == OPCODE_INDIRECT_BR {
        if let Terminator::IndirectBr(x) = r {
            lemma_operand_matches_extend(
                x.operand,
                m,
                vn,
                t.operands@[0] as int,
                ctx1.types,
                ctx1.constants,
                ctx2.types,
                ctx2.constants,
            );
        }
    } else if t.opcode == OPCODE_INVOKE {
        if let Terminator::Invoke(x) = r {
            lemma_callinfo_matches_extend(
                (CallInfo {
                    function: x.function,
                    arguments: x.arguments,
                    return_attributes: x.return_attributes,
                    function_attributes: x.function_attributes,
                    calling_convention: x.calling_convention,
                }),
                m,
                vn,
                t.call->0,
                ctx1,
                ctx2,
            );
        }
    } else if t.opcode == OPCODE_RESUME {
        if let Terminator::Resume(x) = r {
            lemma_operand_matches_extend(
                x.operand,
                m,
                vn,
                t.operands@[0] as int,
                ctx1.types,
                ctx1.constants,
                ctx2.types,
                ctx2.constants,
            );
        }
    } else if t.opcode == OPCODE_CLEANUP_RET {
        if let Terminator::CleanupRet(x) = r {
            lemma_operand_matches_extend(
                x.cleanup_pad,
                m,
                vn,
                t.operands@[0] as int,
                ctx1.types,
                ctx1.constants,
                ctx2.types,
                ctx2.constants,
            );
        }
    } else if t.opcode == OPCODE_CATCH_RET {
        if let Terminator::CatchRet(x) = r {
            lemma_operand_matches_extend(
                x.catch_pad,
                m,
                vn,
                t.operands@[0] as int,
                ctx1.types,
                ctx1.constants,
                ctx2.types,
                ctx2.constants,
            );
        }
    } else if t.opcode == OPCODE_CATCH_SWITCH {
        if let Terminator::CatchSwitch(x) = r {
            lemma_operand_matches_extend(
                x.parent_pad,
                m,
                vn,
                t.operands@[0] as int,
                ctx1.types,
                ctx1.constants,
                ctx2.types,
                ctx2.constants,
            );
        }
    } else if t.opcode == OPCODE_CALL_BR {
        if let Terminator::CallBr(x) = r {
            lemma_callinfo_matches_extend(
                (CallInfo {
                    function: x.function,
                    arguments: x.arguments,
                    return_attributes: x.return_attributes,
                    function_attributes: x.function_attributes,
                    calling_convention: x.calling_convention,
                }),
                m,
                vn,
                t.call->0,
                ctx1,
                ctx2,
            );
        }
    }
}

} // verus!

verus! {

impl Invoke {
    /// The name that receives this call's result.
    pub fn get_result(&self) -> (r: &Name)
        ensures
            *r == self.result,
    {
        &self.result
    }
}

impl CatchSwitch {
    /// The name that receives this dispatch's result.
    pub fn get_result(&self) -> (r: &Name)
        ensures
            *r == self.result,
    {
        &self.result
    }
}

impl CallBr {
    /// The name that receives this call's result.
    pub fn get_result(&self) -> (r: &Name)
        ensures
            *r == self.result,
    {
        &self.result
    }
}

} // verus!
