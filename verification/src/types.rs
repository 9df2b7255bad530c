//! The structural type graph of the owned model, and the session-scoped
//! interner that maps foreign type handles to owned type references.
//!
//! An owned type lives in an arena owned by [`Types`]; a [`TypeRef`] is an
//! index into that arena. The arena is append-only and in dependency
//! order, so a reference, once handed out, never changes meaning. The
//! interner is memoized by foreign-handle identity: asking twice for the
//! same foreign handle yields the identical `TypeRef`.

use vstd::prelude::*;

use crate::foreign::ftype_node_bounded;
use crate::foreign::wf_ftypes;
use crate::foreign::FTypeDesc;

verus! {

/// Floating-point type kinds. Only the kind is modeled; no
/// floating-point value ever appears in the owned model.
#[derive(PartialEq, Eq, Structural, Clone, Copy, Debug)]
#[allow(non_camel_case_types)]
pub enum FPType {
    Half,
    BFloat,
    Single,
    Double,
    FP128,
    X86_FP80,
    PPC_FP128,
}

/// A reference to an interned type: an index into the owning session's
/// type arena. Two equal `TypeRef`s denote the same shared instance.
#[derive(PartialEq, Eq, Structural, Clone, Copy, Debug)]
pub struct TypeRef(pub usize);

/// A node in the structural type graph. Children are `TypeRef`s into the
/// same arena.
#[derive(PartialEq, Eq, Clone, Debug)]
pub enum Type {
    VoidType,
    IntegerType { bits: u32 },
    PointerType { pointee_type: TypeRef, addr_space: u32 },
    FPType(FPType),
    FuncType { result_type: TypeRef, param_types: Vec<TypeRef>, is_var_arg: bool },
    VectorType { element_type: TypeRef, num_elements: usize, scalable: bool },
    ArrayType { element_type: TypeRef, num_elements: usize },
    StructType { element_types: Vec<TypeRef>, is_packed: bool },
    NamedStructType { name: String },
    MetadataType,
    LabelType,
    TokenType,
}

/// The mathematical shape of a type: the type graph unfolded into a
/// tree, independent of where its nodes sit in any arena. Two types are
/// structurally equal exactly when their shapes are equal.
#[verifier::ext_equal]
pub enum TyShape {
    Void,
    Integer { bits: u32 },
    Pointer { pointee: Box<TyShape>, addr_space: u32 },
    FP { fp: FPType },
    Func { result: Box<TyShape>, params: Seq<TyShape>, is_var_arg: bool },
    Vector { element: Box<TyShape>, num_elements: usize, scalable: bool },
    Array { element: Box<TyShape>, num_elements: usize },
    Struct { elements: Seq<TyShape>, packed: bool },
    Named { name: Seq<char> },
    Metadata,
    Label,
    Token,
    /// The shape of an out-of-bounds reference. Never arises in a
    /// well-formed arena or snapshot.
    Invalid,
}

/// All child references of an arena node lie below `bound`.
pub open spec fn ty_node_bounded(t: Type, bound: int) -> bool {
    match t {
        Type::PointerType { pointee_type, .. } => (pointee_type.0 as int) < bound,
        Type::FuncType { result_type, param_types, .. } => (result_type.0 as int) < bound
            && (forall|j: int|
            0 <= j < param_types@.len() ==> ((#[trigger] param_types@[j]).0 as int) < bound),
        Type::VectorType { element_type, .. } => (element_type.0 as int) < bound,
        Type::ArrayType { element_type, .. } => (element_type.0 as int) < bound,
        Type::StructType { element_types, .. } => forall|j: int|
            0 <= j < element_types@.len() ==> ((#[trigger] element_types@[j]).0 as int) < bound,
        _ => true,
    }
}

/// The arena is in dependency order: every node's children stand before
/// it.
pub open spec fn arena_topo(a: Seq<Type>) -> bool {
    forall|i: int| 0 <= i < a.len() ==> ty_node_bounded(#[trigger] a[i], i)
}

/// The shape denoted by arena node `i`: the node with every child
/// reference unfolded. References at or above `i` (absent from a
/// dependency-ordered arena) unfold to `Invalid`.
pub open spec fn resolve_ty(a: Seq<Type>, i: int) -> TyShape
    decreases i, 1int,
{
    if i < 0 || i >= a.len() {
        TyShape::Invalid
    } else {
        match a[i] {
            Type::VoidType => TyShape::Void,
            Type::IntegerType { bits } => TyShape::Integer { bits },
            Type::PointerType { pointee_type, addr_space } => TyShape::Pointer {
                pointee: Box::new(
                    if (pointee_type.0 as int) < i {
                        resolve_ty(a, pointee_type.0 as int)
                    } else {
                        TyShape::Invalid
                    },
                ),
                addr_space,
            },
            Type::FPType(fp) => TyShape::FP { fp },
            Type::FuncType { result_type, param_types, is_var_arg } => TyShape::Func {
                result: Box::new(
                    if (result_type.0 as int) < i {
                        resolve_ty(a, result_type.0 as int)
                    } else {
                        TyShape::Invalid
                    },
                ),
                params: resolve_ty_list(a, i, param_types@),
                is_var_arg,
            },
            Type::VectorType { element_type, num_elements, scalable } => TyShape::Vector {
                element: Box::new(
                    if (element_type.0 as int) < i {
                        resolve_ty(a, element_type.0 as int)
                    } else {
                        TyShape::Invalid
                    },
                ),
                num_elements,
                scalable,
            },
            Type::ArrayType { element_type, num_elements } => TyShape::Array {
                element: Box::new(
                    if (element_type.0 as int) < i {
                        resolve_ty(a, element_type.0 as int)
                    } else {
                        TyShape::Invalid
                    },
                ),
                num_elements,
            },
            Type::StructType { element_types, is_packed } => TyShape::Struct {
                elements: resolve_ty_list(a, i, element_types@),
                packed: is_packed,
            },
            Type::NamedStructType { name } => TyShape::Named { name: name@ },
            Type::MetadataType => TyShape::Metadata,
            Type::LabelType => TyShape::Label,
            Type::TokenType => TyShape::Token,
        }
    }
}

/// The shapes denoted by a list of child references, each resolved
/// below `bound`.
pub open spec fn resolve_ty_list(a: Seq<Type>, bound: int, refs: Seq<TypeRef>) -> Seq<TyShape>
    decreases bound, 0int,
{
    Seq::new(
        refs.len(),
        |j: int|
            if 0 <= j < refs.len() && (refs[j].0 as int) < bound {
                resolve_ty(a, refs[j].0 as int)
            } else {
                TyShape::Invalid
            },
    )
}

/// The shape denoted by foreign type handle `h` of a snapshot type
/// table.
pub open spec fn fshape_ty(ft: Seq<FTypeDesc>, h: int) -> TyShape
    decreases h, 1int,
{
    if h < 0 || h >= ft.len() {
        TyShape::Invalid
    } else {
        match ft[h] {
            FTypeDesc::Void => TyShape::Void,
            FTypeDesc::Integer { bits } => TyShape::Integer { bits },
            FTypeDesc::Pointer { pointee, addr_space } => TyShape::Pointer {
                pointee: Box::new(
                    if (pointee as int) < h {
                        fshape_ty(ft, pointee as int)
                    } else {
                        TyShape::Invalid
                    },
                ),
                addr_space,
            },
            FTypeDesc::FP { fp } => TyShape::FP { fp },
            FTypeDesc::Func { result, params, is_var_arg } => TyShape::Func {
                result: Box::new(
                    if (result as int) < h {
                        fshape_ty(ft, result as int)
                    } else {
                        TyShape::Invalid
                    },
                ),
                params: fshape_ty_list(ft, h, params@),
                is_var_arg,
            },
            FTypeDesc::Vector { element, num_elements, scalable } => TyShape::Vector {
                element: Box::new(
                    if (element as int) < h {
                        fshape_ty(ft, element as int)
                    } else {
                        TyShape::Invalid
                    },
                ),
                num_elements,
                scalable,
            },
            FTypeDesc::Array { element, num_elements } => TyShape::Array {
                element: Box::new(
                    if (element as int) < h {
                        fshape_ty(ft, element as int)
                    } else {
                        TyShape::Invalid
                    },
                ),
                num_elements,
            },
            FTypeDesc::Struct { elements, is_packed } => TyShape::Struct {
                elements: fshape_ty_list(ft, h, elements@),
                packed: is_packed,
            },
            FTypeDesc::NamedStruct { name } => TyShape::Named { name: name@ },
            FTypeDesc::Metadata => TyShape::Metadata,
            FTypeDesc::Label => TyShape::Label,
            FTypeDesc::Token => TyShape::Token,
        }
    }
}

/// The shapes denoted by a list of foreign child handles, each resolved
/// below `bound`.
pub open spec fn fshape_ty_list(ft: Seq<FTypeDesc>, bound: int, refs: Seq<usize>) -> Seq<TyShape>
    decreases bound, 0int,
{
    Seq::new(
        refs.len(),
        |j: int|
            if 0 <= j < refs.len() && (refs[j] as int) < bound {
                fshape_ty(ft, refs[j] as int)
            } else {
                TyShape::Invalid
            },
    )
}

/// Appending nodes to an arena never changes the shape an existing node
/// denotes: resolution at `i` reads only entries below or at `i`.
#[verifier::rlimit(60)]
pub proof fn lemma_resolve_ty_prefix(a1: Seq<Type>, a2: Seq<Type>, i: int)
    requires
        a1.len() <= a2.len(),
        forall|j: int| 0 <= j < a1.len() ==> a1[j] == a2[j],
        0 <= i < a1.len(),
    ensures
        resolve_ty(a2, i) == resolve_ty(a1, i),
    decreases i,
{
    assert(a1[i] == a2[i]);
    match a1[i] {
        Type::PointerType { pointee_type, .. } => {
            if (pointee_type.0 as int) < i {
                lemma_resolve_ty_prefix(a1, a2, pointee_type.0 as int);
            }
            assert(resolve_ty(a2, i) =~= resolve_ty(a1, i));
        },
        Type::FuncType { result_type, param_types, .. } => {
            if (result_type.0 as int) < i {
                lemma_resolve_ty_prefix(a1, a2, result_type.0 as int);
            }
            assert forall|j: int| 0 <= j < param_types@.len() implies (if 0 <= j
                < param_types@.len() && (param_types@[j].0 as int) < i {
                resolve_ty(a2, param_types@[j].0 as int)
            } else {
                TyShape::Invalid
            }) == (if 0 <= j < param_types@.len() && (param_types@[j].0 as int) < i {
                resolve_ty(a1, param_types@[j].0 as int)
            } else {
                TyShape::Invalid
            }) by {
                if (param_types@[j].0 as int) < i {
                    lemma_resolve_ty_prefix(a1, a2, param_types@[j].0 as int);
                }
            }
            assert(resolve_ty_list(a2, i, param_types@) =~= resolve_ty_list(
                a1,
                i,
                param_types@,
            ));
            assert(resolve_ty(a2, i) =~~= resolve_ty(a1, i));
        },
        Type::VectorType { element_type, .. } => {
            if (element_type.0 as int) < i {
                lemma_resolve_ty_prefix(a1, a2, element_type.0 as int);
            }
            assert(resolve_ty(a2, i) =~= resolve_ty(a1, i));
        },
        Type::ArrayType { element_type, .. } => {
            if (element_type.0 as int) < i {
                lemma_resolve_ty_prefix(a1, a2, element_type.0 as int);
            }
            assert(resolve_ty(a2, i) =~= resolve_ty(a1, i));
        },
        Type::StructType { element_types, .. } => {
            assert forall|j: int| 0 <= j < element_types@.len() && (element_types@[j].0 as int)
                < i implies resolve_ty(a2, element_types@[j].0 as int) == resolve_ty(
                a1,
                element_types@[j].0 as int,
            ) by {
                lemma_resolve_ty_prefix(a1, a2, element_types@[j].0 as int);
            }
            assert(resolve_ty_list(a2, i, element_types@) =~= resolve_ty_list(
                a1,
                i,
                element_types@,
            ));
            assert(resolve_ty(a2, i) =~~= resolve_ty(a1, i));
        },
        _ => {
            assert(resolve_ty(a2, i) =~= resolve_ty(a1, i));
        },
    }
}

} // verus!

verus! {

/// The session-scoped type interner: the arena of owned type nodes, the
/// memoization cache from foreign type handles to arena indices, and the
/// definitions of named structure types.
///
/// The cache never evicts and the arena never shrinks, so a `TypeRef` is
/// stable for the whole decoding session.
pub struct Types {
    arena: Vec<Type>,
    cache: Vec<Option<TypeRef>>,
    named_structs: Vec<(String, Option<TypeRef>)>,
    foreign_types: Ghost<Seq<FTypeDesc>>,
}

impl Types {
    /// The owned type arena.
    pub closed spec fn arena(&self) -> Seq<Type> {
        self.arena@
    }

    /// The memoization cache, indexed by foreign type handle.
    pub closed spec fn cache(&self) -> Seq<Option<TypeRef>> {
        self.cache@
    }

    /// The named-structure definitions registered so far.
    pub closed spec fn named(&self) -> Seq<(String, Option<TypeRef>)> {
        self.named_structs@
    }

    /// The snapshot type table this session interns from.
    pub closed spec fn foreign(&self) -> Seq<FTypeDesc> {
        self.foreign_types@
    }

    /// The shape a type reference denotes in this session.
    pub open spec fn shape_of(&self, r: TypeRef) -> TyShape {
        resolve_ty(self.arena(), r.0 as int)
    }

    /// A type reference pointing into this session's arena.
    pub open spec fn valid_ref(&self, r: TypeRef) -> bool {
        (r.0 as int) < self.arena().len()
    }

    /// Session invariant: the arena starts with the pre-interned void and
    /// metadata nodes and is in dependency order; every cache entry is a
    /// valid reference whose shape is the shape of the foreign handle it
    /// was interned from; named-structure definitions point into the
    /// arena.
    pub open spec fn wf(&self) -> bool {
        &&& self.arena().len() >= 2
        &&& self.arena()[0] == Type::VoidType
        &&& self.arena()[1] == Type::MetadataType
        &&& arena_topo(self.arena())
        &&& wf_ftypes(self.foreign())
        &&& self.cache().len() == self.foreign().len()
        &&& forall|h: int|
            0 <= h < self.cache().len() ==> match #[trigger] self.cache()[h] {
                Some(r) => self.valid_ref(r) && self.shape_of(r) == fshape_ty(self.foreign(), h),
                None => true,
            }
        &&& forall|k: int|
            0 <= k < self.named().len() ==> match (#[trigger] self.named()[k]).1 {
                Some(r) => self.valid_ref(r),
                None => true,
            }
    }

    /// A later session state extends an earlier one: the arena has only
    /// grown, the foreign table is unchanged, and every cache entry once
    /// filled keeps its value.
    pub open spec fn extends(&self, prev: Types) -> bool {
        &&& prev.arena().len() <= self.arena().len()
        &&& forall|j: int| 0 <= j < prev.arena().len() ==> prev.arena()[j] == self.arena()[j]
        &&& self.foreign() == prev.foreign()
        &&& self.cache().len() == prev.cache().len()
        &&& forall|h: int|
            0 <= h < prev.cache().len() && prev.cache()[h] is Some ==> self.cache()[h]
                == prev.cache()[h]
    }

    /// Shapes are stable under session extension.
    pub proof fn lemma_extends_shape(&self, prev: Types, r: TypeRef)
        requires
            self.extends(prev),
            prev.valid_ref(r),
        ensures
            self.shape_of(r) == prev.shape_of(r),
    {
        lemma_resolve_ty_prefix(prev.arena(), self.arena(), r.0 as int);
    }

    /// Start a session for the given snapshot type table. Nothing is
    /// interned yet but the void and metadata singletons.
    pub fn new(ftypes: &Vec<FTypeDesc>) -> (r: Types)
        requires
            wf_ftypes(ftypes@),
        ensures
            r.wf(),
            r.foreign() == ftypes@,
            r.arena().len() == 2,
            r.named().len() == 0,
            forall|h: int| 0 <= h < r.cache().len() ==> r.cache()[h] is None,
    {
        let mut arena: Vec<Type> = Vec::new();
        arena.push(Type::VoidType);
        arena.push(Type::MetadataType);
        let mut cache: Vec<Option<TypeRef>> = Vec::new();
        let mut i: usize = 0;
        while i < ftypes.len()
            invariant
                0 <= i <= ftypes@.len(),
                cache@.len() == i,
                forall|h: int| 0 <= h < i ==> cache@[h] is None,
            decreases ftypes@.len() - i,
        {
            cache.push(None);
            i = i + 1;
        }
        let r = Types { arena, cache, named_structs: Vec::new(), foreign_types: Ghost(ftypes@) };
        proof {
            assert(r.arena().len() == 2);
            assert(r.arena()[0] == Type::VoidType);
            assert(r.arena()[1] == Type::MetadataType);
            assert forall|i: int| 0 <= i < r.arena().len() implies ty_node_bounded(
                #[trigger] r.arena()[i],
                i,
            ) by {
                if i == 0 {
                    assert(r.arena()[0] == Type::VoidType);
                } else {
                    assert(r.arena()[1] == Type::MetadataType);
                }
            }
        }
        r
    }

    /// The void type, pre-interned at index 0 of every session.
    pub fn void(&self) -> (r: TypeRef)
        requires
            self.wf(),
        ensures
            r == TypeRef(0usize),
            self.shape_of(r) == TyShape::Void,
    {
        TypeRef(0)
    }

    /// The metadata type, pre-interned at index 1 of every session.
    pub fn metadata_type(&self) -> (r: TypeRef)
        requires
            self.wf(),
        ensures
            r == TypeRef(1usize),
            self.shape_of(r) == TyShape::Metadata,
    {
        TypeRef(1)
    }

    /// Append one node whose children already stand in the arena.
    fn push_node(&mut self, t: Type) -> (r: TypeRef)
        requires
            old(self).wf(),
            ty_node_bounded(t, old(self).arena().len() as int),
        ensures
            final(self).wf(),
            final(self).extends(*old(self)),
            final(self).cache() == old(self).cache(),
            final(self).named() == old(self).named(),
            final(self).arena() == old(self).arena().push(t),
            r.0 == old(self).arena().len(),
            final(self).valid_ref(r),
    {
        let r = TypeRef(self.arena.len());
        self.arena.push(t);
        proof {
            assert forall|h: int| 0 <= h < self.cache().len() implies match #[trigger] self.cache()[h] {
                Some(cr) => self.valid_ref(cr) && self.shape_of(cr) == fshape_ty(
                    self.foreign(),
                    h,
                ),
                None => true,
            } by {
                if let Some(cr) = self.cache()[h] {
                    lemma_resolve_ty_prefix(old(self).arena(), self.arena(), cr.0 as int);
                }
            }
            assert(arena_topo(self.arena()));
        }
        r
    }

    /// Intern a fresh integer type node.
    pub fn int_type(&mut self, bits: u32) -> (r: TypeRef)
        requires
            old(self).wf(),
        ensures
            final(self).wf(),
            final(self).extends(*old(self)),
            final(self).named() == old(self).named(),
            final(self).valid_ref(r),
            final(self).shape_of(r) == (TyShape::Integer { bits }),
    {
        self.push_node(Type::IntegerType { bits })
    }

    /// Intern a fresh pointer type node.
    pub fn pointer_to(&mut self, pointee: TypeRef, addr_space: u32) -> (r: TypeRef)
        requires
            old(self).wf(),
            old(self).valid_ref(pointee),
        ensures
            final(self).wf(),
            final(self).extends(*old(self)),
            final(self).named() == old(self).named(),
            final(self).valid_ref(r),
            final(self).shape_of(r) == (TyShape::Pointer {
                pointee: Box::new(old(self).shape_of(pointee)),
                addr_space,
            }),
    {
        let r = self.push_node(Type::PointerType { pointee_type: pointee, addr_space });
        proof {
            lemma_resolve_ty_prefix(old(self).arena(), self.arena(), pointee.0 as int);
        }
        r
    }

    /// Intern a fresh function-signature type node.
    pub fn func_type(&mut self, result_type: TypeRef, param_types: Vec<TypeRef>, is_var_arg: bool) -> (r: TypeRef)
        requires
            old(self).wf(),
            old(self).valid_ref(result_type),
            forall|j: int|
                0 <= j < param_types@.len() ==> old(self).valid_ref(#[trigger] param_types@[j]),
        ensures
            final(self).wf(),
            final(self).extends(*old(self)),
            final(self).named() == old(self).named(),
            final(self).valid_ref(r),
            final(self).shape_of(r) == (TyShape::Func {
                result: Box::new(old(self).shape_of(result_type)),
                params: Seq::new(
                    param_types@.len(),
                    |j: int|
                        if 0 <= j < param_types@.len() {
                            old(self).shape_of(param_types@[j])
                        } else {
                            TyShape::Invalid
                        },
                ),
                is_var_arg,
            }),
    {
        let ghost params_snap = param_types@;
        let r = self.push_node(Type::FuncType { result_type, param_types, is_var_arg });
        proof {
            lemma_resolve_ty_prefix(old(self).arena(), self.arena(), result_type.0 as int);
            assert forall|j: int| 0 <= j < params_snap.len() implies resolve_ty(
                self.arena(),
                params_snap[j].0 as int,
            ) == old(self).shape_of(params_snap[j]) by {
                lemma_resolve_ty_prefix(old(self).arena(), self.arena(), params_snap[j].0 as int);
            }
            assert(resolve_ty_list(self.arena(), r.0 as int, params_snap) =~= Seq::new(
                params_snap.len(),
                |j: int|
                    if 0 <= j < params_snap.len() {
                        old(self).shape_of(params_snap[j])
                    } else {
                        TyShape::Invalid
                    },
            ));
        }
        r
    }
}

} // verus!

verus! {

impl Types {
    /// Session extension is transitive.
    pub proof fn lemma_extends_trans(s3: &Types, s2: &Types, s1: &Types)
        requires
            s3.extends(*s2),
            s2.extends(*s1),
        ensures
            s3.extends(*s1),
    {
        assert forall|j: int| 0 <= j < s1.arena().len() implies s1.arena()[j] == s3.arena()[j] by {
            assert(s1.arena()[j] == s2.arena()[j]);
            assert(s2.arena()[j] == s3.arena()[j]);
        }
        assert forall|h: int|
            0 <= h < s1.cache().len() && s1.cache()[h] is Some implies s3.cache()[h]
            == s1.cache()[h] by {
            assert(s2.cache()[h] == s1.cache()[h]);
        }
    }

    /// Intern a fresh vector type node.
    pub(crate) fn vector_of(&mut self, element: TypeRef, num_elements: usize, scalable: bool) -> (r: TypeRef)
        requires
            old(self).wf(),
            old(self).valid_ref(element),
        ensures
            final(self).wf(),
            final(self).extends(*old(self)),
            final(self).named() == old(self).named(),
            final(self).valid_ref(r),
            final(self).shape_of(r) == (TyShape::Vector {
                element: Box::new(old(self).shape_of(element)),
                num_elements,
                scalable,
            }),
    {
        let r = self.push_node(Type::VectorType { element_type: element, num_elements, scalable });
        proof {
            lemma_resolve_ty_prefix(old(self).arena(), self.arena(), element.0 as int);
        }
        r
    }

    /// Intern a fresh array type node.
    pub(crate) fn array_of(&mut self, element: TypeRef, num_elements: usize) -> (r: TypeRef)
        requires
            old(self).wf(),
            old(self).valid_ref(element),
        ensures
            final(self).wf(),
            final(self).extends(*old(self)),
            final(self).named() == old(self).named(),
            final(self).valid_ref(r),
            final(self).shape_of(r) == (TyShape::Array {
                element: Box::new(old(self).shape_of(element)),
                num_elements,
            }),
    {
        let r = self.push_node(Type::ArrayType { element_type: element, num_elements });
        proof {
            lemma_resolve_ty_prefix(old(self).arena(), self.arena(), element.0 as int);
        }
        r
    }

    /// Intern a fresh anonymous structure type node.
    pub(crate) fn struct_of(&mut self, element_types: Vec<TypeRef>, is_packed: bool) -> (r: TypeRef)
        requires
            old(self).wf(),
            forall|j: int|
                0 <= j < element_types@.len() ==> old(self).valid_ref(
                    #[trigger] element_types@[j],
                ),
        ensures
            final(self).wf(),
            final(self).extends(*old(self)),
            final(self).named() == old(self).named(),
            final(self).valid_ref(r),
            final(self).shape_of(r) == (TyShape::Struct {
                elements: Seq::new(
                    element_types@.len(),
                    |j: int|
                        if 0 <= j < element_types@.len() {
                            old(self).shape_of(element_types@[j])
                        } else {
                            TyShape::Invalid
                        },
                ),
                packed: is_packed,
            }),
    {
        let ghost elems_snap = element_types@;
        let r = self.push_node(Type::StructType { element_types, is_packed });
        proof {
            assert forall|j: int| 0 <= j < elems_snap.len() implies resolve_ty(
                self.arena(),
                elems_snap[j].0 as int,
            ) == old(self).shape_of(elems_snap[j]) by {
                lemma_resolve_ty_prefix(old(self).arena(), self.arena(), elems_snap[j].0 as int);
            }
            assert(resolve_ty_list(self.arena(), r.0 as int, elems_snap) =~= Seq::new(
                elems_snap.len(),
                |j: int|
                    if 0 <= j < elems_snap.len() {
                        old(self).shape_of(elems_snap[j])
                    } else {
                        TyShape::Invalid
                    },
            ));
        }
        r
    }

    /// Intern the foreign type handle `h`: return the owned reference the
    /// session cache holds for it, or, on the first request, decode the
    /// foreign node structurally — interning its children first — cache
    /// the result, and return it.
    ///
    /// Interning is idempotent: a second request for the same handle in
    /// the same session returns the identical reference and leaves the
    /// session untouched.
    pub fn intern_type(&mut self, ftypes: &Vec<FTypeDesc>, h: usize) -> (r: TypeRef)
        requires
            old(self).wf(),
            ftypes@ == old(self).foreign(),
            h < ftypes@.len(),
        ensures
            final(self).wf(),
            final(self).extends(*old(self)),
            final(self).named() == old(self).named(),
            final(self).cache()[h as int] == Some(r),
            final(self).valid_ref(r),
            final(self).shape_of(r) == fshape_ty(ftypes@, h as int),
            old(self).cache()[h as int] matches Some(r0) ==> r == r0 && *final(self) == *old(
                self,
            ),
        decreases h,
    {
        if let Some(r) = self.cache[h] {
            return r;
        }
        let ghost ft = ftypes@;
        proof {
            assert(ftype_node_bounded(ft[h as int], h as int));
        }
        let r: TypeRef = match &ftypes[h] {
            FTypeDesc::Void => self.void(),
            FTypeDesc::Integer { bits } => self.int_type(*bits),
            FTypeDesc::Pointer { pointee, addr_space } => {
                let p = self.intern_type(ftypes, *pointee);
                let ghost mid = *self;
                let r = self.pointer_to(p, *addr_space);
                proof {
                    Types::lemma_extends_trans(self, &mid, old(self));
                }
                r
            },
            FTypeDesc::FP { fp } => self.push_node(Type::FPType(*fp)),
            FTypeDesc::Func { result, params, is_var_arg } => {
                let res = self.intern_type(ftypes, *result);
                let ghost s_res = *self;
                let mut prefs: Vec<TypeRef> = Vec::new();
                let mut j: usize = 0;
                while j < params.len()
                    invariant
                        self.wf(),
                        self.foreign() == ft,
                        ftypes@ == ft,
                        h < ft.len(),
                        ftype_node_bounded(ft[h as int], h as int),
                        ft[h as int] is Func,
                        params@ == ft[h as int]->Func_params@,
                        self.extends(s_res),
                        s_res.extends(*old(self)),
                        s_res.valid_ref(res),
                        s_res.shape_of(res) == fshape_ty(ft, ft[h as int]->Func_result as int),
                        self.named() == old(self).named(),
                        s_res.named() == old(self).named(),
                        0 <= j <= params@.len(),
                        prefs@.len() == j,
                        forall|jj: int|
                            0 <= jj < j ==> self.valid_ref(#[trigger] prefs@[jj])
                                && self.shape_of(prefs@[jj]) == fshape_ty(
                                ft,
                                params@[jj] as int,
                            ),
                    decreases params@.len() - j,
                {
                    let ghost s_pre = *self;
                    proof {
                        assert((params@[j as int] as int) < h as int);
                    }
                    let pr = self.intern_type(ftypes, params[j]);
                    proof {
                        Types::lemma_extends_trans(self, &s_pre, &s_res);
                        assert forall|jj: int| 0 <= jj < j implies self.valid_ref(
                            #[trigger] prefs@[jj],
                        ) && self.shape_of(prefs@[jj]) == fshape_ty(ft, params@[jj] as int) by {
                            self.lemma_extends_shape(s_pre, prefs@[jj]);
                        }
                    }
                    prefs.push(pr);
                    j = j + 1;
                }
                let ghost s_loop = *self;
                let ghost prefs_snap = prefs@;
                let r = self.func_type(res, prefs, *is_var_arg);
                proof {
                    Types::lemma_extends_trans(&s_loop, &s_res, old(self));
                    Types::lemma_extends_trans(self, &s_loop, old(self));
                    s_loop.lemma_extends_shape(s_res, res);
                    assert(Seq::new(
                        prefs_snap.len(),
                        |jj: int|
                            if 0 <= jj < prefs_snap.len() {
                                s_loop.shape_of(prefs_snap[jj])
                            } else {
                                TyShape::Invalid
                            },
                    ) =~= fshape_ty_list(ft, h as int, params@));
                    assert(self.shape_of(r) =~~= fshape_ty(ft, h as int));
                }
                r
            },
            FTypeDesc::Vector { element, num_elements, scalable } => {
                let e = self.intern_type(ftypes, *element);
                let ghost mid = *self;
                let r = self.vector_of(e, *num_elements, *scalable);
                proof {
                    Types::lemma_extends_trans(self, &mid, old(self));
                }
                r
            },
            FTypeDesc::Array { element, num_elements } => {
                let e = self.intern_type(ftypes, *element);
                let ghost mid = *self;
                let r = self.array_of(e, *num_elements);
                proof {
                    Types::lemma_extends_trans(self, &mid, old(self));
                }
                r
            },
            FTypeDesc::Struct { elements, is_packed } => {
                let mut erefs: Vec<TypeRef> = Vec::new();
                let mut j: usize = 0;
                while j < elements.len()
                    invariant
                        self.wf(),
                        self.foreign() == ft,
                        ftypes@ == ft,
                        h < ft.len(),
                        ftype_node_bounded(ft[h as int], h as int),
                        ft[h as int] is Struct,
                        elements@ == ft[h as int]->Struct_elements@,
                        self.extends(*old(self)),
                        self.named() == old(self).named(),
                        0 <= j <= elements@.len(),
                        erefs@.len() == j,
                        forall|jj: int|
                            0 <= jj < j ==> self.valid_ref(#[trigger] erefs@[jj])
                                && self.shape_of(erefs@[jj]) == fshape_ty(
                                ft,
                                elements@[jj] as int,
                            ),
                    decreases elements@.len() - j,
                {
                    let ghost s_pre = *self;
                    proof {
                        assert((elements@[j as int] as int) < h as int);
                    }
                    let er = self.intern_type(ftypes, elements[j]);
                    proof {
                        Types::lemma_extends_trans(self, &s_pre, old(self));
                        assert forall|jj: int| 0 <= jj < j implies self.valid_ref(
                            #[trigger] erefs@[jj],
                        ) && self.shape_of(erefs@[jj]) == fshape_ty(ft, elements@[jj] as int) by {
                            self.lemma_extends_shape(s_pre, erefs@[jj]);
                        }
                    }
                    erefs.push(er);
                    j = j + 1;
                }
                let ghost s_loop = *self;
                let ghost erefs_snap = erefs@;
                let r = self.struct_of(erefs, *is_packed);
                proof {
                    Types::lemma_extends_trans(self, &s_loop, old(self));
                    assert(Seq::new(
                        erefs_snap.len(),
                        |jj: int|
                            if 0 <= jj < erefs_snap.len() {
                                s_loop.shape_of(erefs_snap[jj])
                            } else {
                                TyShape::Invalid
                            },
                    ) =~= fshape_ty_list(ft, h as int, elements@));
                    assert(self.shape_of(r) =~~= fshape_ty(ft, h as int));
                }
                r
            },
            FTypeDesc::NamedStruct { name } => self.push_node(
                Type::NamedStructType { name: name.clone() },
            ),
            FTypeDesc::Metadata => self.metadata_type(),
            FTypeDesc::Label => self.push_node(Type::LabelType),
            FTypeDesc::Token => self.push_node(Type::TokenType),
        };
        let ghost s_arms = *self;
        proof {
            assert(self.shape_of(r) == fshape_ty(ft, h as int));
        }
        self.cache[h] = Some(r);
        proof {
            assert(self.arena() == s_arms.arena());
            assert forall|h2: int| 0 <= h2 < self.cache().len() implies match #[trigger] self.cache()[h2] {
                Some(cr) => self.valid_ref(cr) && self.shape_of(cr) == fshape_ty(
                    self.foreign(),
                    h2,
                ),
                None => true,
            } by {
                if h2 != h as int {
                    assert(self.cache()[h2] == s_arms.cache()[h2]);
                }
            }
        }
        r
    }
}

} // verus!

verus! {

impl Types {
    /// Register the definition of a named structure type: `None` for an
    /// opaque structure, or the reference of its interned body. Recursive
    /// types are broken here: a structure's body refers back to it only
    /// through its name, never through a direct reference, so interning a
    /// body never re-enters the structure being defined.
    pub fn add_named_struct(&mut self, name: String, def: Option<TypeRef>)
        requires
            old(self).wf(),
            def matches Some(r) ==> old(self).valid_ref(r),
        ensures
            final(self).wf(),
            final(self).extends(*old(self)),
            final(self).arena() == old(self).arena(),
            final(self).cache() == old(self).cache(),
            final(self).named() == old(self).named().push((name, def)),
    {
        self.named_structs.push((name, def));
    }
}

} // verus!

verus! {

impl Types {
    /// Read one arena node.
    pub fn get_node(&self, r: TypeRef) -> (t: &Type)
        requires
            self.valid_ref(r),
        ensures
            *t == self.arena()[r.0 as int],
    {
        &self.arena[r.0]
    }
}

} // verus!

verus! {

impl Types {
    /// Structural equality of two interned types: whether their unfolded
    /// shapes are equal. Independent of interning — two separately
    /// interned but structurally identical types compare equal, even
    /// though their references differ.
    #[verifier::loop_isolation(false)]
    pub fn structural_eq(&self, a: TypeRef, b: TypeRef) -> (r: bool)
        requires
            self.wf(),
            self.valid_ref(a),
            self.valid_ref(b),
        ensures
            r == (self.shape_of(a) == self.shape_of(b)),
        decreases a.0,
    {
        proof {
            assert(ty_node_bounded(self.arena()[a.0 as int], a.0 as int));
        }
        match (self.get_node(a), self.get_node(b)) {
            (Type::VoidType, Type::VoidType) => true,
            (Type::IntegerType { bits: x }, Type::IntegerType { bits: y }) => x == y,
            (
                Type::PointerType { pointee_type: pa, addr_space: sa },
                Type::PointerType { pointee_type: pb, addr_space: sb },
            ) => *sa == *sb && self.structural_eq(*pa, *pb),
            (Type::FPType(x), Type::FPType(y)) => *x == *y,
            (
                Type::FuncType { result_type: ra, param_types: pa, is_var_arg: va },
                Type::FuncType { result_type: rb, param_types: pb, is_var_arg: vb },
            ) => {
                if *va != *vb || pa.len() != pb.len() || !self.structural_eq(*ra, *rb) {
                    proof {
                        if pa@.len() != pb@.len() {
                            assert(resolve_ty_list(self.arena(), a.0 as int, pa@).len()
                                != resolve_ty_list(self.arena(), b.0 as int, pb@).len());
                        }
                    }
                    false
                } else {
                    let mut j: usize = 0;
                    let mut same = true;
                    while j < pa.len()
                        invariant
                            0 <= j <= pa@.len(),
                            same == (resolve_ty_list(self.arena(), a.0 as int, pa@).take(j as int)
                                =~= resolve_ty_list(self.arena(), b.0 as int, pb@).take(j as int)),
                        decreases pa@.len() - j,
                    {
                        let e = self.structural_eq(pa[j], pb[j]);
                        proof {
                            let la = resolve_ty_list(self.arena(), a.0 as int, pa@);
                            let lb = resolve_ty_list(self.arena(), b.0 as int, pb@);
                            assert(la[j as int] == self.shape_of(pa@[j as int]));
                            assert(lb[j as int] == self.shape_of(pb@[j as int]));
                            assert(la.take(j as int + 1) =~= lb.take(j as int + 1) <==> (la.take(
                                j as int,
                            ) =~= lb.take(j as int) && la[j as int] == lb[j as int])) by {
                                if la.take(j as int + 1) =~= lb.take(j as int + 1) {
                                    assert forall|k: int| 0 <= k < j implies la.take(j as int)[k]
                                        == lb.take(j as int)[k] by {
                                        assert(la.take(j as int + 1)[k] == lb.take(
                                            j as int + 1,
                                        )[k]);
                                    }
                                    assert(la.take(j as int + 1)[j as int] == lb.take(
                                        j as int + 1,
                                    )[j as int]);
                                }
                            }
                        }
                        same = same && e;
                        j = j + 1;
                    }
                    proof {
                        let la = resolve_ty_list(self.arena(), a.0 as int, pa@);
                        let lb = resolve_ty_list(self.arena(), b.0 as int, pb@);
                        assert(la.take(pa@.len() as int) =~= la);
                        assert(lb.take(pb@.len() as int) =~= lb);
                        if same {
                            assert(self.shape_of(a) =~~= self.shape_of(b));
                        } else {
                            assert(la != lb);
                        }
                    }
                    same
                }
            },
            (
                Type::VectorType { element_type: ea, num_elements: na, scalable: ca },
                Type::VectorType { element_type: eb, num_elements: nb, scalable: cb },
            ) => *na == *nb && *ca == *cb && self.structural_eq(*ea, *eb),
            (
                Type::ArrayType { element_type: ea, num_elements: na },
                Type::ArrayType { element_type: eb, num_elements: nb },
            ) => *na == *nb && self.structural_eq(*ea, *eb),
            (
                Type::StructType { element_types: pa, is_packed: ka },
                Type::StructType { element_types: pb, is_packed: kb },
            ) => {
                if *ka != *kb || pa.len() != pb.len() {
                    proof {
                        if pa@.len() != pb@.len() {
                            assert(resolve_ty_list(self.arena(), a.0 as int, pa@).len()
                                != resolve_ty_list(self.arena(), b.0 as int, pb@).len());
                        }
                    }
                    false
                } else {
                    let mut j: usize = 0;
                    let mut same = true;
                    while j < pa.len()
                        invariant
                            0 <= j <= pa@.len(),
                            same == (resolve_ty_list(self.arena(), a.0 as int, pa@).take(j as int)
                                =~= resolve_ty_list(self.arena(), b.0 as int, pb@).take(j as int)),
                        decreases pa@.len() - j,
                    {
                        let e = self.structural_eq(pa[j], pb[j]);
                        proof {
                            let la = resolve_ty_list(self.arena(), a.0 as int, pa@);
                            let lb = resolve_ty_list(self.arena(), b.0 as int, pb@);
                            assert(la[j as int] == self.shape_of(pa@[j as int]));
                            assert(lb[j as int] == self.shape_of(pb@[j as int]));
                            assert(la.take(j as int + 1) =~= lb.take(j as int + 1) <==> (la.take(
                                j as int,
                            ) =~= lb.take(j as int) && la[j as int] == lb[j as int])) by {
                                if la.take(j as int + 1) =~= lb.take(j as int + 1) {
                                    assert forall|k: int| 0 <= k < j implies la.take(j as int)[k]
                                        == lb.take(j as int)[k] by {
                                        assert(la.take(j as int + 1)[k] == lb.take(
                                            j as int + 1,
                                        )[k]);
                                    }
                                    assert(la.take(j as int + 1)[j as int] == lb.take(
                                        j as int + 1,
                                    )[j as int]);
                                }
                            }
                        }
                        same = same && e;
                        j = j + 1;
                    }
                    proof {
                        let la = resolve_ty_list(self.arena(), a.0 as int, pa@);
                        let lb = resolve_ty_list(self.arena(), b.0 as int, pb@);
                        assert(la.take(pa@.len() as int) =~= la);
                        assert(lb.take(pb@.len() as int) =~= lb);
                        if same {
                            assert(self.shape_of(a) =~~= self.shape_of(b));
                        } else {
                            assert(la != lb);
                        }
                    }
                    same
                }
            },
            (Type::NamedStructType { name: na }, Type::NamedStructType { name: nb }) => *na == *nb,
            (Type::MetadataType, Type::MetadataType) => true,
            (Type::LabelType, Type::LabelType) => true,
            (Type::TokenType, Type::TokenType) => true,
            (_, _) => false,
        }
    }
}

} // verus!

verus! {

/// The first registered named-structure definition for `n`, scanning
/// from entry `k`.
pub open spec fn first_named_def(defs: Seq<(String, Option<TypeRef>)>, n: Seq<char>, k: int) -> Option<
    Option<TypeRef>,
>
    decreases defs.len() - k,
{
    if k < 0 || k >= defs.len() {
        None
    } else if defs[k].0@ == n {
        Some(defs[k].1)
    } else {
        first_named_def(defs, n, k + 1)
    }
}

impl Types {
    /// The definition registered for the named structure type `name`:
    /// `None` when no structure of that name was registered; `Some(None)`
    /// for an opaque structure; `Some(Some(body))` for a defined one.
    pub fn named_struct_def(&self, name: &String) -> (r: Option<Option<TypeRef>>)
        ensures
            r == first_named_def(self.named(), name@, 0),
    {
        let mut k: usize = 0;
        while k < self.named_structs.len()
            invariant
                0 <= k <= self.named().len(),
                first_named_def(self.named(), name@, 0) == first_named_def(
                    self.named(),
                    name@,
                    k as int,
                ),
            decreases self.named().len() - k,
        {
            if self.named_structs[k].0 == *name {
                return Some(self.named_structs[k].1);
            }
            k = k + 1;
        }
        None
    }
}

} // verus!
