//! Non-terminator instructions of the owned model, inline assembly,
//! call-site information shared by the call-style terminators, and their
//! decoding.

use vstd::prelude::*;

use crate::debugloc::clone_opt_debugloc;
use crate::debugloc::opt_debugloc_view;
use crate::debugloc::DebugLoc;
use crate::error::DecodeError;
use crate::foreign::instr_produces_result;
use crate::foreign::wf_finstruction;
use crate::foreign::wf_fmodule;
use crate::foreign::FCallInfo;
use crate::foreign::FCallee;
use crate::foreign::FInstruction;
use crate::foreign::FModule;
use crate::function::spec_decode_function_attrs;
use crate::function::spec_decode_param_attrs;
use crate::function::decode_function_attrs;
use crate::function::decode_param_attrs;
use crate::function::CallingConvention;
use crate::function::FunctionAttribute;
use crate::function::FunctionContext;
use crate::function::ParameterAttribute;
use crate::module::ModuleContext;
use crate::name::Name;
use crate::operand::lemma_operand_matches_extend;
use crate::operand::operand_decodable;
use crate::operand::operand_matches;
use crate::operand::Operand;
use crate::types::fshape_ty;
use crate::types::TypeRef;

verus! {

/// Relies on `either::Either`, the plain two-variant sum type
/// `Left(L) | Right(R)`; declaring it lets verified code build and match
/// callees that are either inline assembly or an ordinary operand.
/// Nothing is assumed of it beyond its shape.
#[verifier::external_type_specification]
#[verifier::reject_recursive_types(L)]
#[verifier::reject_recursive_types(R)]
pub struct ExEither<L, R>(either::Either<L, R>);

/// A block of inline assembly used as a callee. The foreign interface
/// exposes only its type.
#[derive(PartialEq, Clone, Debug)]
pub struct InlineAssembly {
    pub ty: TypeRef,
}

/// One non-terminator instruction of the owned model: its foreign
/// opcode, its decoded operands in foreign positional order, the name of
/// its result if it produces one, and its source-location tag.
#[derive(PartialEq, Clone, Debug)]
pub struct Instruction {
    pub opcode: u32,
    pub operands: Vec<Operand>,
    pub result: Option<Name>,
    pub debugloc: Option<DebugLoc>,
}

/// Whether a non-terminator instruction decodes, given the first-pass
/// value-name map: every operand must decode, and a result-producing
/// instruction must have been registered by the first pass.
pub open spec fn instr_decodable(m: FModule, vn: Seq<Option<Name>>, i: FInstruction) -> bool {
    &&& forall|j: int|
        0 <= j < i.operands@.len() ==> operand_decodable(m, vn, #[trigger] i.operands@[j] as int)
    &&& instr_produces_result(m.types@, i) ==> vn[i.value as int] is Some
}

/// The decoded instruction `r` is exactly what the foreign instruction
/// `i` denotes.
pub open spec fn instr_matches(
    r: Instruction,
    m: FModule,
    vn: Seq<Option<Name>>,
    i: FInstruction,
    ctx: ModuleContext,
) -> bool {
    &&& r.opcode == i.opcode
    &&& r.operands@.len() == i.operands@.len()
    &&& forall|j: int|
        0 <= j < i.operands@.len() ==> operand_matches(
            #[trigger] r.operands@[j],
            m,
            vn,
            i.operands@[j] as int,
            ctx.types,
            ctx.constants,
        )
    &&& if instr_produces_result(m.types@, i) {
        r.result matches Some(n) && (vn[i.value as int] matches Some(n2) && n@ == n2@)
    } else {
        r.result is None
    }
    &&& opt_debugloc_view(r.debugloc) == opt_debugloc_view(i.debugloc)
}

impl Instruction {
    /// Decode one foreign non-terminator instruction: its operands
    /// through the operand decoder, and its result name — for a
    /// result-producing instruction — from the already-assigned
    /// first-pass name, never from the counter.
    pub fn from_llvm_ref(
        i: &FInstruction,
        m: &FModule,
        ctx: &mut ModuleContext,
        func_ctx: &FunctionContext,
    ) -> (r: Result<Instruction, DecodeError>)
        requires
            old(ctx).wf(*m),
            wf_fmodule(*m),
            wf_finstruction(*m, *i),
            func_ctx.val_names@.len() == m.values@.len(),
        ensures
            final(ctx).wf(*m),
            final(ctx).extends(*old(ctx)),
            r.is_ok() <==> instr_decodable(*m, func_ctx.val_names@, *i),
            r matches Ok(instr) ==> instr_matches(instr, *m, func_ctx.val_names@, *i, *final(ctx)),
            r is Err ==> r == Err::<Instruction, DecodeError>(DecodeError::LocalNotFound),
    {
        let ghost vn = func_ctx.val_names@;
        let mut operands: Vec<Operand> = Vec::new();
        let mut j: usize = 0;
        while j < i.operands.len()
            invariant
                ctx.wf(*m),
                wf_fmodule(*m),
                wf_finstruction(*m, *i),
                func_ctx.val_names@.len() == m.values@.len(),
                vn == func_ctx.val_names@,
                ctx.extends(*old(ctx)),
                0 <= j <= i.operands@.len(),
                operands@.len() == j,
                forall|jj: int|
                    0 <= jj < j ==> operand_decodable(*m, vn, (#[trigger] i.operands@[jj]) as int),
                forall|jj: int|
                    0 <= jj < j ==> operand_matches(
                        #[trigger] operands@[jj],
                        *m,
                        vn,
                        i.operands@[jj] as int,
                        ctx.types,
                        ctx.constants,
                    ),
            decreases i.operands@.len() - j,
        {
            let ghost c_pre = *ctx;
            let op = match Operand::from_llvm_ref(i.operands[j], m, ctx, func_ctx) {
                Ok(op) => op,
                Err(e) => {
                    return Err(e);
                },
            };
            proof {
                ModuleContext::lemma_extends_trans(ctx, &c_pre, old(ctx));
                assert forall|jj: int| 0 <= jj < j implies operand_matches(
                    #[trigger] operands@[jj],
                    *m,
                    vn,
                    i.operands@[jj] as int,
                    ctx.types,
                    ctx.constants,
                ) by {
                    lemma_operand_matches_extend(
                        operands@[jj],
                        *m,
                        vn,
                        i.operands@[jj] as int,
                        c_pre.types,
                        c_pre.constants,
                        ctx.types,
                        ctx.constants,
                    );
                }
            }
            operands.push(op);
            j = j + 1;
        }
        let produces = !matches!(&m.types[i.ty], crate::foreign::FTypeDesc::Void);
        let result: Option<Name> = if produces {
            match &func_ctx.val_names[i.value] {
                Some(n) => Some(n.clone()),
                None => {
                    return Err(DecodeError::LocalNotFound);
                },
            }
        } else {
            None
        };
        Ok(
            Instruction {
                opcode: i.opcode,
                operands,
                result,
                debugloc: clone_opt_debugloc(&i.debugloc),
            },
        )
    }
}

/// Call-site information shared by the call-style instructions: the
/// callee (an operand, or inline assembly), the arguments with their
/// attributes, the return- and function-level attributes, and the calling
/// convention.
#[derive(PartialEq, Debug)]
pub struct CallInfo {
    pub function: either::Either<InlineAssembly, Operand>,
    pub arguments: Vec<(Operand, Vec<ParameterAttribute>)>,
    pub return_attributes: Vec<ParameterAttribute>,
    pub function_attributes: Vec<FunctionAttribute>,
    pub calling_convention: CallingConvention,
}

impl Clone for CallInfo {
    fn clone(&self) -> (r: Self) {
        CallInfo {
            function: match &self.function {
                either::Either::Left(a) => either::Either::Left(a.clone()),
                either::Either::Right(o) => either::Either::Right(o.clone()),
            },
            arguments: self.arguments.clone(),
            return_attributes: self.return_attributes.clone(),
            function_attributes: self.function_attributes.clone(),
            calling_convention: self.calling_convention,
        }
    }
}

/// Whether foreign call-site information decodes: the callee — when it is
/// an ordinary value — and every argument must decode as operands.
pub open spec fn callinfo_decodable(m: FModule, vn: Seq<Option<Name>>, ci: FCallInfo) -> bool {
    &&& match ci.callee {
        FCallee::Value { v } => operand_decodable(m, vn, v as int),
        FCallee::Asm { .. } => true,
    }
    &&& forall|j: int|
        0 <= j < ci.arguments@.len() ==> operand_decodable(
            m,
            vn,
            (#[trigger] ci.arguments@[j]).0 as int,
        )
}

/// The decoded call-site information `r` is exactly what the foreign
/// call-site information `ci` denotes, given the catalog.
pub open spec fn callinfo_matches(
    r: CallInfo,
    m: FModule,
    vn: Seq<Option<Name>>,
    ci: FCallInfo,
    ctx: ModuleContext,
) -> bool {
    &&& match ci.callee {
        FCallee::Value { v } => r.function matches either::Either::Right(op) && operand_matches(
            op,
            m,
            vn,
            v as int,
            ctx.types,
            ctx.constants,
        ),
        FCallee::Asm { ty } => r.function matches either::Either::Left(a) && ctx.types.valid_ref(
            a.ty,
        ) && ctx.types.shape_of(a.ty) == fshape_ty(m.types@, ty as int),
    }
    &&& r.arguments@.len() == ci.arguments@.len()
    &&& forall|j: int|
        0 <= j < ci.arguments@.len() ==> operand_matches(
            (#[trigger] r.arguments@[j]).0,
            m,
            vn,
            ci.arguments@[j].0 as int,
            ctx.types,
            ctx.constants,
        ) && r.arguments@[j].1@ == spec_decode_param_attrs(
            ctx.attrsdata.param_pairs(),
            ci.arguments@[j].1@,
        )
    &&& r.return_attributes@ == spec_decode_param_attrs(
        ctx.attrsdata.param_pairs(),
        ci.return_attributes@,
    )
    &&& r.function_attributes@ == spec_decode_function_attrs(
        ctx.attrsdata.fn_pairs(),
        ci.function_attributes@,
    )
    &&& r.calling_convention == CallingConvention::spec_from_u32(ci.calling_convention)
}

impl CallInfo {
    /// Decode foreign call-site information: the callee and each argument
    /// through the operand decoder, the attributes through the catalog
    /// (unknown ones degrade, never fail), and the calling convention
    /// through the closed enumeration with its `Numbered` escape.
    pub fn from_llvm_ref(
        ci: &FCallInfo,
        m: &FModule,
        ctx: &mut ModuleContext,
        func_ctx: &FunctionContext,
    ) -> (r: Result<CallInfo, DecodeError>)
        requires
            old(ctx).wf(*m),
            wf_fmodule(*m),
            match ci.callee {
                FCallee::Value { v } => (v as int) < m.values@.len(),
                FCallee::Asm { ty } => (ty as int) < m.types@.len(),
            },
            forall|j: int|
                0 <= j < ci.arguments@.len() ==> ((#[trigger] ci.arguments@[j]).0 as int)
                    < m.values@.len(),
            func_ctx.val_names@.len() == m.values@.len(),
        ensures
            final(ctx).wf(*m),
            final(ctx).extends(*old(ctx)),
            r.is_ok() <==> callinfo_decodable(*m, func_ctx.val_names@, *ci),
            r matches Ok(c) ==> callinfo_matches(c, *m, func_ctx.val_names@, *ci, *final(ctx)),
            r is Err ==> r == Err::<CallInfo, DecodeError>(DecodeError::LocalNotFound),
    {
        let ghost vn = func_ctx.val_names@;
        let function: either::Either<InlineAssembly, Operand> = match &ci.callee {
            FCallee::Value { v } => {
                match Operand::from_llvm_ref(*v, m, ctx, func_ctx) {
                    Ok(op) => either::Either::Right(op),
                    Err(e) => {
                        return Err(e);
                    },
                }
            },
            FCallee::Asm { ty } => {
                let tr = ctx.types.intern_type(&m.types, *ty);
                proof {
                    old(ctx).constants.lemma_types_extend(old(ctx).types, ctx.types);
                }
                either::Either::Left(InlineAssembly { ty: tr })
            },
        };
        let ghost c_callee = *ctx;
        let mut arguments: Vec<(Operand, Vec<ParameterAttribute>)> = Vec::new();
        let mut j: usize = 0;
        while j < ci.arguments.len()
            invariant
                ctx.wf(*m),
                wf_fmodule(*m),
                func_ctx.val_names@.len() == m.values@.len(),
                vn == func_ctx.val_names@,
                forall|jj: int|
                    0 <= jj < ci.arguments@.len() ==> ((#[trigger] ci.arguments@[jj]).0 as int)
                        < m.values@.len(),
                ctx.extends(c_callee),
                c_callee.extends(*old(ctx)),
                match ci.callee {
                    FCallee::Value { v } => function matches either::Either::Right(op)
                        && operand_matches(op, *m, vn, v as int, c_callee.types, c_callee.constants),
                    FCallee::Asm { ty } => function matches either::Either::Left(a)
                        && c_callee.types.valid_ref(a.ty) && c_callee.types.shape_of(a.ty)
                        == fshape_ty(m.types@, ty as int),
                },
                0 <= j <= ci.arguments@.len(),
                arguments@.len() == j,
                forall|jj: int|
                    0 <= jj < j ==> operand_decodable(
                        *m,
                        vn,
                        (#[trigger] ci.arguments@[jj]).0 as int,
                    ),
                forall|jj: int|
                    0 <= jj < j ==> operand_matches(
                        (#[trigger] arguments@[jj]).0,
                        *m,
                        vn,
                        ci.arguments@[jj].0 as int,
                        ctx.types,
                        ctx.constants,
                    ) && arguments@[jj].1@ == spec_decode_param_attrs(
                        ctx.attrsdata.param_pairs(),
                        ci.arguments@[jj].1@,
                    ),
            decreases ci.arguments@.len() - j,
        {
            let ghost c_pre = *ctx;
            let op = match Operand::from_llvm_ref(ci.arguments[j].0, m, ctx, func_ctx) {
                Ok(op) => op,
                Err(e) => {
                    return Err(e);
                },
            };
            let attrs = decode_param_attrs(&ci.arguments[j].1, &ctx.attrsdata);
            proof {
                ModuleContext::lemma_extends_trans(ctx, &c_pre, &c_callee);
                assert forall|jj: int| 0 <= jj < j implies operand_matches(
                    (#[trigger] arguments@[jj]).0,
                    *m,
                    vn,
                    ci.arguments@[jj].0 as int,
                    ctx.types,
                    ctx.constants,
                ) && arguments@[jj].1@ == spec_decode_param_attrs(
                    ctx.attrsdata.param_pairs(),
                    ci.arguments@[jj].1@,
                ) by {
                    lemma_operand_matches_extend(
                        arguments@[jj].0,
                        *m,
                        vn,
                        ci.arguments@[jj].0 as int,
                        c_pre.types,
                        c_pre.constants,
                        ctx.types,
                        ctx.constants,
                    );
                }
            }
            arguments.push((op, attrs));
            j = j + 1;
        }
        let return_attributes = decode_param_attrs(&ci.return_attributes, &ctx.attrsdata);
        let function_attributes = decode_function_attrs(&ci.function_attributes, &ctx.attrsdata);
        let calling_convention = CallingConvention::from_u32(ci.calling_convention);
        proof {
            ModuleContext::lemma_extends_trans(ctx, &c_callee, old(ctx));
            if let FCallee::Value { v } = ci.callee {
                if let either::Either::Right(op) = &function {
                    lemma_operand_matches_extend(
                        *op,
                        *m,
                        vn,
                        v as int,
                        c_callee.types,
                        c_callee.constants,
                        ctx.types,
                        ctx.constants,
                    );
                }
            }
            if let FCallee::Asm { ty } = ci.callee {
                if let either::Either::Left(a) = &function {
                    ctx.types.lemma_extends_shape(c_callee.types, a.ty);
                }
            }
        }
        Ok(
            CallInfo {
                function,
                arguments,
                return_attributes,
                function_attributes,
                calling_convention,
            },
        )
    }
}

} // verus!

verus! {

/// A decoded instruction keeps matching its foreign instruction as the
/// session's interners grow.
pub proof fn lemma_instr_matches_extend(
    r: Instruction,
    m: FModule,
    vn: Seq<Option<Name>>,
    i: FInstruction,
    ctx1: ModuleContext,
    ctx2: ModuleContext,
)
    requires
        wf_finstruction(m, i),
        ctx1.types.wf(),
        ctx1.constants.wf(ctx1.types),
        ctx2.extends(ctx1),
        instr_matches(r, m, vn, i, ctx1),
    ensures
        instr_matches(r, m, vn, i, ctx2),
{
    assert forall|j: int| 0 <= j < i.operands@.len() implies operand_matches(
        #[trigger] r.operands@[j],
        m,
        vn,
        i.operands@[j] as int,
        ctx2.types,
        ctx2.constants,
    ) by {
        lemma_operand_matches_extend(
            r.operands@[j],
            m,
            vn,
            i.operands@[j] as int,
            ctx1.types,
            ctx1.constants,
            ctx2.types,
            ctx2.constants,
        );
    }
}

/// Decoded call-site information keeps matching its foreign counterpart
/// as the session's interners grow.
pub proof fn lemma_callinfo_matches_extend(
    r: CallInfo,
    m: FModule,
    vn: Seq<Option<Name>>,
    ci: FCallInfo,
    ctx1: ModuleContext,
    ctx2: ModuleContext,
)
    requires
        match ci.callee {
            FCallee::Value { v } => (v as int) < m.values@.len(),
            FCallee::Asm { .. } => true,
        },
        forall|j: int|
            0 <= j < ci.arguments@.len() ==> ((#[trigger] ci.arguments@[j]).0 as int)
                < m.values@.len(),
        ctx1.types.wf(),
        ctx1.constants.wf(ctx1.types),
        ctx2.extends(ctx1),
        callinfo_matches(r, m, vn, ci, ctx1),
    ensures
        callinfo_matches(r, m, vn, ci, ctx2),
{
    match ci.callee {
        FCallee::Value { v } => {
            if let either::Either::Right(op) = r.function {
                lemma_operand_matches_extend(
                    op,
                    m,
                    vn,
                    v as int,
                    ctx1.types,
                    ctx1.constants,
                    ctx2.types,
                    ctx2.constants,
                );
            }
        },
        FCallee::Asm { ty } => {
            if let either::Either::Left(a) = r.function {
                ctx2.types.lemma_extends_shape(ctx1.types, a.ty);
            }
        },
    }
    assert forall|j: int| 0 <= j < ci.arguments@.len() implies operand_matches(
        (#[trigger] r.arguments@[j]).0,
        m,
        vn,
        ci.arguments@[j].0 as int,
        ctx2.types,
        ctx2.constants,
    ) && r.arguments@[j].1@ == spec_decode_param_attrs(
        ctx2.attrsdata.param_pairs(),
        ci.arguments@[j].1@,
    ) by {
        lemma_operand_matches_extend(
            r.arguments@[j].0,
            m,
            vn,
            ci.arguments@[j].0 as int,
            ctx1.types,
            ctx1.constants,
            ctx2.types,
            ctx2.constants,
        );
    }
}

} // verus!
