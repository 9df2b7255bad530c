//! Operands of instructions, and their decoding from foreign value
//! handles.

use vstd::prelude::*;

use crate::constant::fshape_const;
use crate::constant::ConstantRef;
use crate::constant::Constants;
use crate::error::DecodeError;
use crate::foreign::FModule;
use crate::foreign::FValueDesc;
use crate::function::FunctionContext;
use crate::module::ModuleContext;
use crate::name::Name;
use crate::types::fshape_ty;
use crate::types::TypeRef;
use crate::types::Types;

verus! {

/// An operand of an instruction: a local value referenced by name, an
/// interned constant, or non-IR metadata. An operand never owns a type
/// directly; its type is computed on demand.
#[derive(PartialEq, Clone, Debug)]
pub enum Operand {
    /// e.g., `i32 %foo`
    LocalOperand { name: Name, ty: TypeRef },
    /// Includes references to globals, e.g. `@foo`.
    ConstantOperand(ConstantRef),
    MetadataOperand,
}

/// Whether the foreign value handle `v` decodes to an operand, given the
/// first-pass value-name map `vn`: a constant or metadata always does; a
/// local only if the first pass registered it; a block handle never does
/// (blocks are not operands — branch decode rules read them directly).
pub open spec fn operand_decodable(m: FModule, vn: Seq<Option<Name>>, v: int) -> bool {
    match m.values@[v] {
        FValueDesc::Constant { .. } => true,
        FValueDesc::Metadata => true,
        FValueDesc::Local { .. } => vn[v] is Some,
        FValueDesc::Block { .. } => false,
    }
}

/// The decoded operand `op` is exactly what foreign value handle `v`
/// denotes: a constant operand holding the interned shape of the foreign
/// constant, a metadata marker, or a local reference carrying the
/// first-pass name and the interned type of the foreign local.
pub open spec fn operand_matches(
    op: Operand,
    m: FModule,
    vn: Seq<Option<Name>>,
    v: int,
    types: Types,
    consts: Constants,
) -> bool {
    match m.values@[v] {
        FValueDesc::Constant { c } => op matches Operand::ConstantOperand(r) && consts.valid_ref(r)
            && consts.shape_of(types, r) == fshape_const(m.constants@, m.types@, c as int),
        FValueDesc::Metadata => op is MetadataOperand,
        FValueDesc::Local { ty } => op matches Operand::LocalOperand { name, ty: tr } && (vn[v]
            matches Some(n) && name@ == n@) && types.valid_ref(tr) && types.shape_of(tr)
            == fshape_ty(m.types@, ty as int),
        FValueDesc::Block { .. } => false,
    }
}

impl Operand {
    /// Decode the foreign value handle `v` into an operand: a constant is
    /// interned; metadata becomes the metadata marker; anything else is a
    /// local reference resolved through the first-pass value-name map,
    /// whose absence from the map is fatal.
    pub fn from_llvm_ref(
        v: usize,
        m: &FModule,
        ctx: &mut ModuleContext,
        func_ctx: &FunctionContext,
    ) -> (r: Result<Operand, DecodeError>)
        requires
            old(ctx).wf(*m),
            crate::foreign::wf_fmodule(*m),
            (v as int) < m.values@.len(),
            func_ctx.val_names@.len() == m.values@.len(),
        ensures
            final(ctx).wf(*m),
            final(ctx).extends(*old(ctx)),
            r.is_ok() <==> operand_decodable(*m, func_ctx.val_names@, v as int),
            r matches Ok(op) ==> operand_matches(
                op,
                *m,
                func_ctx.val_names@,
                v as int,
                final(ctx).types,
                final(ctx).constants,
            ),
            r is Err ==> r == Err::<Operand, DecodeError>(DecodeError::LocalNotFound),
    {
        match &m.values[v] {
            FValueDesc::Constant { c } => {
                let cr = ctx.constants.intern_constant(&m.constants, &m.types, &mut ctx.types, *c);
                Ok(Operand::ConstantOperand(cr))
            },
            FValueDesc::Metadata => Ok(Operand::MetadataOperand),
            FValueDesc::Local { ty } => match &func_ctx.val_names[v] {
                Some(n) => {
                    let tr = ctx.types.intern_type(&m.types, *ty);
                    proof {
                        old(ctx).constants.lemma_types_extend(old(ctx).types, ctx.types);
                    }
                    Ok(Operand::LocalOperand { name: n.clone(), ty: tr })
                },
                None => Err(DecodeError::LocalNotFound),
            },
            FValueDesc::Block { .. } => Err(DecodeError::LocalNotFound),
        }
    }

    /// The type of this operand: the declared type of a local, the
    /// recorded intrinsic type of a constant, or the metadata type.
    pub fn get_type(&self, types: &Types, constants: &Constants) -> (r: TypeRef)
        requires
            types.wf(),
            constants.wf(*types),
            self matches Operand::ConstantOperand(c) ==> constants.valid_ref(*c),
        ensures
            match self {
                Operand::LocalOperand { ty, .. } => r == ty,
                Operand::ConstantOperand(c) => r == constants.tys()[c.0 as int],
                Operand::MetadataOperand => r == TypeRef(1usize),
            },
    {
        match self {
            Operand::LocalOperand { ty, .. } => *ty,
            Operand::ConstantOperand(c) => constants.type_of(*c),
            Operand::MetadataOperand => types.metadata_type(),
        }
    }
}

} // verus!

verus! {

use crate::constant::lemma_resolve_const_prefix;
use crate::types::lemma_resolve_ty_prefix;

/// An operand, once decoded, keeps matching its foreign value handle as
/// the session's interners grow.
pub proof fn lemma_operand_matches_extend(
    op: Operand,
    m: FModule,
    vn: Seq<Option<Name>>,
    v: int,
    types1: Types,
    consts1: Constants,
    types2: Types,
    consts2: Constants,
)
    requires
        0 <= v < m.values@.len(),
        types1.wf(),
        consts1.wf(types1),
        types2.extends(types1),
        consts2.extends(consts1),
        operand_matches(op, m, vn, v, types1, consts1),
    ensures
        operand_matches(op, m, vn, v, types2, consts2),
{
    match m.values@[v] {
        FValueDesc::Constant { c } => {
            if let Operand::ConstantOperand(r) = op {
                lemma_resolve_const_prefix(
                    consts1.arena(),
                    consts2.arena(),
                    types1.arena(),
                    types2.arena(),
                    r.0 as int,
                );
            }
        },
        FValueDesc::Local { ty } => {
            if let Operand::LocalOperand { name, ty: tr } = op {
                lemma_resolve_ty_prefix(types1.arena(), types2.arena(), tr.0 as int);
            }
        },
        _ => {},
    }
}

} // verus!
