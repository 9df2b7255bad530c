//! Module-level pieces of the owned model: linkage and visibility
//! enumerations, and the assembled module.

use vstd::prelude::*;

verus! {

/// Linkage of a global. See the foreign library's linkage enumeration.
#[derive(PartialEq, Eq, Structural, Clone, Copy, Debug)]
pub enum Linkage {
    Private,
    Internal,
    External,
    ExternalWeak,
    AvailableExternally,
    LinkOnceAny,
    LinkOnceODR,
    LinkOnceODRAutoHide,
    WeakAny,
    WeakODR,
    Common,
    Appending,
}

/// Visibility of a global.
#[derive(PartialEq, Eq, Structural, Clone, Copy, Debug)]
pub enum Visibility {
    Default,
    Hidden,
    Protected,
}

/// DLL storage class of a global.
#[derive(PartialEq, Eq, Structural, Clone, Copy, Debug)]
pub enum DLLStorageClass {
    Default,
    Import,
    Export,
}

/// Selection kind of a comdat group.
#[derive(PartialEq, Eq, Structural, Clone, Copy, Debug)]
pub enum SelectionKind {
    Any,
    ExactMatch,
    Largest,
    NoDuplicates,
    SameSize,
}

/// A comdat group a global belongs to.
#[derive(PartialEq, Eq, Structural, Clone, Copy, Debug)]
pub struct Comdat(pub SelectionKind);

} // verus!

verus! {

use crate::constant::Constants;
use crate::foreign::FModule;
use crate::function::AttributesData;
use crate::types::Types;

/// Session-scoped decoding state shared by all functions of one module
/// conversion: the type and constant interners and the attribute catalog.
pub struct ModuleContext {
    pub types: Types,
    pub constants: Constants,
    pub attrsdata: AttributesData,
}

impl ModuleContext {
    /// The context's interners belong to the given snapshot and their
    /// invariants hold.
    pub open spec fn wf(&self, m: FModule) -> bool {
        &&& self.types.wf()
        &&& self.types.foreign() == m.types@
        &&& self.constants.wf(self.types)
        &&& self.constants.foreign() == m.constants@
    }

    /// A later context extends an earlier one: both interners have only
    /// grown and the catalog is unchanged.
    pub open spec fn extends(&self, prev: ModuleContext) -> bool {
        &&& self.types.extends(prev.types)
        &&& self.types.named() == prev.types.named()
        &&& self.constants.extends(prev.constants)
        &&& self.attrsdata == prev.attrsdata
    }

    /// Context extension is transitive.
    pub proof fn lemma_extends_trans(s3: &ModuleContext, s2: &ModuleContext, s1: &ModuleContext)
        requires
            s3.extends(*s2),
            s2.extends(*s1),
        ensures
            s3.extends(*s1),
    {
        Types::lemma_extends_trans(&s3.types, &s2.types, &s1.types);
        Constants::lemma_extends_trans(&s3.constants, &s2.constants, &s1.constants);
    }
}

} // verus!

verus! {

use crate::error::DecodeError;
use crate::foreign::wf_fmodule;
use crate::function::function_decodable;
use crate::function::function_matches;
use crate::function::lemma_function_matches_extend;
use crate::function::p1_ctr_final;
use crate::function::spec_function_attr_names;
use crate::function::spec_param_attr_names;
use crate::function::Function;
use crate::types::fshape_ty;

/// The owned module: the functions in module order, together with the
/// session's type and constant interners — so downstream analysis can
/// query types without re-touching the foreign module — and the attribute
/// catalog built for the session.
pub struct Module {
    pub name: String,
    pub functions: Vec<Function>,
    pub types: Types,
    pub constants: Constants,
    pub attrsdata: AttributesData,
}

impl Module {
    /// The decoding context this module's sessions form.
    pub open spec fn ctx(&self) -> ModuleContext {
        ModuleContext { types: self.types, constants: self.constants, attrsdata: self.attrsdata }
    }

    /// Decode a whole foreign module: build the attribute catalog once,
    /// start the interning sessions, register the named structure types,
    /// and decode every function in module order. All-or-nothing: the
    /// first fatal condition aborts the conversion with no partial
    /// module.
    #[verifier::loop_isolation(false)]
    pub fn from_fmodule(m: &FModule) -> (r: Result<Module, DecodeError>)
        requires
            wf_fmodule(*m),
            forall|fi: int|
                0 <= fi < m.functions@.len() ==> p1_ctr_final(
                    m.types@,
                    #[trigger] m.functions@[fi],
                ) <= usize::MAX,
        ensures
            r.is_ok() <==> AttributesData::names_resolvable(
                m.attr_kinds@,
                spec_function_attr_names(),
            ) && AttributesData::names_resolvable(m.attr_kinds@, spec_param_attr_names()) && (
            forall|fi: int|
                0 <= fi < m.functions@.len() ==> function_decodable(
                    *m,
                    #[trigger] m.functions@[fi],
                )),
            r matches Ok(md) ==> {
                &&& md.name@ == m.name@
                &&& md.ctx().wf(*m)
                &&& AttributesData::half_built(
                    md.attrsdata.fn_pairs(),
                    m.attr_kinds@,
                    spec_function_attr_names(),
                )
                &&& AttributesData::half_built(
                    md.attrsdata.param_pairs(),
                    m.attr_kinds@,
                    spec_param_attr_names(),
                )
                &&& md.functions@.len() == m.functions@.len()
                &&& (forall|fi: int|
                    0 <= fi < m.functions@.len() ==> function_matches(
                        #[trigger] md.functions@[fi],
                        *m,
                        m.functions@[fi],
                        md.ctx(),
                    ))
                &&& md.types.named().len() == m.named_structs@.len()
                &&& (forall|k: int|
                    0 <= k < m.named_structs@.len() ==> ((#[trigger] md.types.named()[k]).0@
                        == m.named_structs@[k].0@ && (match m.named_structs@[k].1 {
                        Some(h) => md.types.named()[k].1 matches Some(tr) && md.types.shape_of(tr)
                            == fshape_ty(m.types@, h as int),
                        None => md.types.named()[k].1 is None,
                    })))
            },
    {
        let attrsdata = match AttributesData::create(&m.attr_kinds) {
            Ok(a) => a,
            Err(e) => {
                return Err(e);
            },
        };
        let types = Types::new(&m.types);
        let constants = Constants::new(&m.constants, &types);
        let mut ctx = ModuleContext { types, constants, attrsdata };
        let ghost c_init = ctx;
        // Register the named structure types: interning a body never
        // re-enters the structure being defined, because recursive
        // references go through the name alone.
        let mut k: usize = 0;
        while k < m.named_structs.len()
            invariant
                ctx.wf(*m),
                ctx.attrsdata == c_init.attrsdata,
                0 <= k <= m.named_structs@.len(),
                ctx.types.named().len() == k,
                forall|kk: int|
                    0 <= kk < k ==> ((#[trigger] ctx.types.named()[kk]).0@
                        == m.named_structs@[kk].0@ && (match m.named_structs@[kk].1 {
                        Some(h) => ctx.types.named()[kk].1 matches Some(tr) && ctx.types.shape_of(
                            tr,
                        ) == fshape_ty(m.types@, h as int),
                        None => ctx.types.named()[kk].1 is None,
                    })),
            decreases m.named_structs@.len() - k,
        {
            let ghost t_pre = ctx.types;
            let def = match &m.named_structs[k].1 {
                Some(h) => Some(ctx.types.intern_type(&m.types, *h)),
                None => None,
            };
            let name = m.named_structs[k].0.clone();
            let ghost t_mid = ctx.types;
            ctx.types.add_named_struct(name, def);
            proof {
                crate::types::Types::lemma_extends_trans(&ctx.types, &t_mid, &t_pre);
                ctx.constants.lemma_types_extend(t_pre, ctx.types);
                assert forall|kk: int| 0 <= kk < k implies ((#[trigger] ctx.types.named()[kk]).0@
                    == m.named_structs@[kk].0@ && (match m.named_structs@[kk].1 {
                    Some(h) => ctx.types.named()[kk].1 matches Some(tr) && ctx.types.shape_of(tr)
                        == fshape_ty(m.types@, h as int),
                    None => ctx.types.named()[kk].1 is None,
                })) by {
                    if let Some(h) = m.named_structs@[kk].1 {
                        if let Some(tr) = ctx.types.named()[kk].1 {
                            ctx.types.lemma_extends_shape(t_pre, tr);
                        }
                    }
                }
            }
            k = k + 1;
        }
        let ghost c_named = ctx;
        // Decode the functions, in module order, against the shared
        // session state.
        let mut functions: Vec<Function> = Vec::new();
        let mut fi: usize = 0;
        while fi < m.functions.len()
            invariant
                ctx.wf(*m),
                ctx.attrsdata == c_named.attrsdata,
                ctx.types.named() == c_named.types.named(),
                ctx.types.extends(c_named.types),
                forall|kk: int|
                    0 <= kk < m.named_structs@.len() ==> ((#[trigger] ctx.types.named()[kk]).0@
                        == m.named_structs@[kk].0@ && (match m.named_structs@[kk].1 {
                        Some(h) => ctx.types.named()[kk].1 matches Some(tr) && ctx.types.shape_of(
                            tr,
                        ) == fshape_ty(m.types@, h as int),
                        None => ctx.types.named()[kk].1 is None,
                    })),
                0 <= fi <= m.functions@.len(),
                functions@.len() == fi,
                forall|f2: int|
                    0 <= f2 < fi ==> function_decodable(*m, #[trigger] m.functions@[f2]),
                forall|f2: int|
                    0 <= f2 < fi ==> function_matches(
                        #[trigger] functions@[f2],
                        *m,
                        m.functions@[f2],
                        ctx,
                    ),
            decreases m.functions@.len() - fi,
        {
            let ghost c_pre = ctx;
            let func = match Function::from_llvm_ref(m, fi, &mut ctx) {
                Ok(x) => x,
                Err(e) => {
                    return Err(e);
                },
            };
            proof {
                crate::types::Types::lemma_extends_trans(&ctx.types, &c_pre.types, &c_named.types);
                assert forall|kk: int| 0 <= kk < m.named_structs@.len() implies ((
                #[trigger] ctx.types.named()[kk]).0@ == m.named_structs@[kk].0@ && (
                match m.named_structs@[kk].1 {
                    Some(h) => ctx.types.named()[kk].1 matches Some(tr) && ctx.types.shape_of(tr)
                        == fshape_ty(m.types@, h as int),
                    None => ctx.types.named()[kk].1 is None,
                })) by {
                    if let Some(h) = m.named_structs@[kk].1 {
                        if let Some(tr) = ctx.types.named()[kk].1 {
                            ctx.types.lemma_extends_shape(c_pre.types, tr);
                        }
                    }
                }
                assert forall|f2: int| 0 <= f2 < fi implies function_matches(
                    #[trigger] functions@[f2],
                    *m,
                    m.functions@[f2],
                    ctx,
                ) by {
                    lemma_function_matches_extend(
                        functions@[f2],
                        *m,
                        m.functions@[f2],
                        c_pre,
                        ctx,
                    );
                }
            }
            functions.push(func);
            fi = fi + 1;
        }
        let ModuleContext { types, constants, attrsdata } = ctx;
        Ok(Module { name: m.name.clone(), functions, types, constants, attrsdata })
    }
}

} // verus!
