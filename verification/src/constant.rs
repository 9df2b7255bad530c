//! Constants of the owned model, and the session-scoped interner that
//! maps foreign constant handles to owned constant references.
//!
//! Constants are interned exactly like types — memoized by the identity
//! of the foreign handle — because constants can be large and are
//! referenced from many sites. Each interned constant also records its
//! intrinsic type, so asking for an operand's type never touches the
//! foreign module again.

use vstd::prelude::*;

use crate::foreign::fconst_node_bounded;
use crate::foreign::wf_fconsts;
use crate::foreign::wf_ftypes;
use crate::foreign::FConstDesc;
use crate::foreign::FTypeDesc;
use crate::name::Name;
use crate::name::NameV;
use crate::types::fshape_ty;
use crate::types::resolve_ty;
use crate::types::lemma_resolve_ty_prefix;
use crate::types::Type;
use crate::types::TypeRef;
use crate::types::Types;
use crate::types::TyShape;

verus! {

/// A reference to an interned constant: an index into the owning
/// session's constant arena. Two equal `ConstantRef`s denote the same
/// shared instance.
#[derive(PartialEq, Eq, Structural, Clone, Copy, Debug)]
pub struct ConstantRef(pub usize);

/// A node in the constant value graph. Children are `ConstantRef`s into
/// the same arena; types are `TypeRef`s into the session's type arena.
#[derive(PartialEq, Eq, Clone, Debug)]
pub enum Constant {
    Int { bits: u32, value: u64 },
    Null(TypeRef),
    Undef(TypeRef),
    Struct { name: Option<String>, values: Vec<ConstantRef>, is_packed: bool },
    Array { element_type: TypeRef, elements: Vec<ConstantRef> },
    /// A reference to a global (a function or a global variable) by name.
    GlobalReference { name: Name, ty: TypeRef },
}

/// The mathematical value of a constant: its graph unfolded into a tree,
/// independent of any arena.
#[verifier::ext_equal]
pub enum ConstShape {
    Int { bits: u32, value: u64 },
    Null { ty: TyShape },
    Undef { ty: TyShape },
    Struct { name: Option<Seq<char>>, values: Seq<ConstShape>, packed: bool },
    Array { element: TyShape, elements: Seq<ConstShape> },
    Global { name: NameV, ty: TyShape },
    Invalid,
}

/// The view of an optional owned string.
pub open spec fn opt_str_view(o: Option<String>) -> Option<Seq<char>> {
    match o {
        Some(s) => Some(s@),
        None => None,
    }
}

/// All child references of a constant arena node lie below `bound`, and
/// its type references inside the type arena.
pub open spec fn const_node_bounded(c: Constant, bound: int, n_types: int) -> bool {
    match c {
        Constant::Int { .. } => true,
        Constant::Null(t) => (t.0 as int) < n_types,
        Constant::Undef(t) => (t.0 as int) < n_types,
        Constant::Struct { values, .. } => forall|j: int|
            0 <= j < values@.len() ==> ((#[trigger] values@[j]).0 as int) < bound,
        Constant::Array { element_type, elements } => (element_type.0 as int) < n_types && (forall|
            j: int,
        |
            0 <= j < elements@.len() ==> ((#[trigger] elements@[j]).0 as int) < bound),
        Constant::GlobalReference { ty, .. } => (ty.0 as int) < n_types,
    }
}

/// The shape denoted by constant arena node `i`, with types resolved in
/// the type arena `ta`.
pub open spec fn resolve_const(ca: Seq<Constant>, ta: Seq<Type>, i: int) -> ConstShape
    decreases i, 1int,
{
    if i < 0 || i >= ca.len() {
        ConstShape::Invalid
    } else {
        match ca[i] {
            Constant::Int { bits, value } => ConstShape::Int { bits, value },
            Constant::Null(t) => ConstShape::Null { ty: resolve_ty(ta, t.0 as int) },
            Constant::Undef(t) => ConstShape::Undef { ty: resolve_ty(ta, t.0 as int) },
            Constant::Struct { name, values, is_packed } => ConstShape::Struct {
                name: opt_str_view(name),
                values: resolve_const_list(ca, ta, i, values@),
                packed: is_packed,
            },
            Constant::Array { element_type, elements } => ConstShape::Array {
                element: resolve_ty(ta, element_type.0 as int),
                elements: resolve_const_list(ca, ta, i, elements@),
            },
            Constant::GlobalReference { name, ty } => ConstShape::Global {
                name: name@,
                ty: resolve_ty(ta, ty.0 as int),
            },
        }
    }
}

/// The shapes denoted by a list of child constant references, each
/// resolved below `bound`.
pub open spec fn resolve_const_list(ca: Seq<Constant>, ta: Seq<Type>, bound: int, refs: Seq<
    ConstantRef,
>) -> Seq<ConstShape>
    decreases bound, 0int,
{
    Seq::new(
        refs.len(),
        |j: int|
            if 0 <= j < refs.len() && (refs[j].0 as int) < bound {
                resolve_const(ca, ta, refs[j].0 as int)
            } else {
                ConstShape::Invalid
            },
    )
}

/// The shape denoted by foreign constant handle `h`.
pub open spec fn fshape_const(fc: Seq<FConstDesc>, ft: Seq<FTypeDesc>, h: int) -> ConstShape
    decreases h, 1int,
{
    if h < 0 || h >= fc.len() {
        ConstShape::Invalid
    } else {
        match fc[h] {
            FConstDesc::Int { bits, value } => ConstShape::Int { bits, value },
            FConstDesc::Null { ty } => ConstShape::Null { ty: fshape_ty(ft, ty as int) },
            FConstDesc::Undef { ty } => ConstShape::Undef { ty: fshape_ty(ft, ty as int) },
            FConstDesc::Struct { name, values, is_packed } => ConstShape::Struct {
                name: opt_str_view(name),
                values: fshape_const_list(fc, ft, h, values@),
                packed: is_packed,
            },
            FConstDesc::Array { element_ty, elements } => ConstShape::Array {
                element: fshape_ty(ft, element_ty as int),
                elements: fshape_const_list(fc, ft, h, elements@),
            },
            FConstDesc::GlobalReference { name, ty } => ConstShape::Global {
                name: NameV::Name(name@),
                ty: fshape_ty(ft, ty as int),
            },
        }
    }
}

/// The shapes denoted by a list of foreign child constant handles, each
/// resolved below `bound`.
pub open spec fn fshape_const_list(fc: Seq<FConstDesc>, ft: Seq<FTypeDesc>, bound: int, refs: Seq<
    usize,
>) -> Seq<ConstShape>
    decreases bound, 0int,
{
    Seq::new(
        refs.len(),
        |j: int|
            if 0 <= j < refs.len() && (refs[j] as int) < bound {
                fshape_const(fc, ft, refs[j] as int)
            } else {
                ConstShape::Invalid
            },
    )
}

/// The intrinsic type of a constant, as a shape: an integer constant has
/// its integer type, a null or undefined constant the type it was built
/// at, an aggregate the aggregate of its elements' types, and a global
/// reference a pointer (in address space 0) to the global's value type.
pub open spec fn const_ty_shape(c: ConstShape) -> TyShape
    decreases c,
{
    match c {
        ConstShape::Int { bits, .. } => TyShape::Integer { bits },
        ConstShape::Null { ty } => ty,
        ConstShape::Undef { ty } => ty,
        ConstShape::Struct { values, packed, .. } => TyShape::Struct {
            elements: Seq::new(
                values.len(),
                |j: int|
                    if 0 <= j < values.len() {
                        const_ty_shape(values[j])
                    } else {
                        TyShape::Invalid
                    },
            ),
            packed,
        },
        ConstShape::Array { element, elements } => TyShape::Array {
            element: Box::new(element),
            num_elements: elements.len() as usize,
        },
        ConstShape::Global { ty, .. } => TyShape::Pointer { pointee: Box::new(ty), addr_space: 0 },
        ConstShape::Invalid => TyShape::Invalid,
    }
}

} // verus!

verus! {

/// Appending constant nodes, or appending type nodes, never changes the
/// shape an existing constant node denotes.
pub proof fn lemma_resolve_const_prefix(
    ca1: Seq<Constant>,
    ca2: Seq<Constant>,
    ta1: Seq<Type>,
    ta2: Seq<Type>,
    i: int,
)
    requires
        ca1.len() <= ca2.len(),
        forall|j: int| 0 <= j < ca1.len() ==> ca1[j] == ca2[j],
        ta1.len() <= ta2.len(),
        forall|j: int| 0 <= j < ta1.len() ==> ta1[j] == ta2[j],
        forall|j: int|
            0 <= j < ca1.len() ==> const_node_bounded(#[trigger] ca1[j], j, ta1.len() as int),
        0 <= i < ca1.len(),
    ensures
        resolve_const(ca2, ta2, i) == resolve_const(ca1, ta1, i),
    decreases i,
{
    assert(ca1[i] == ca2[i]);
    assert(const_node_bounded(ca1[i], i, ta1.len() as int));
    match ca1[i] {
        Constant::Int { .. } => {
            assert(resolve_const(ca2, ta2, i) =~~= resolve_const(ca1, ta1, i));
        },
        Constant::Null(t) => {
            lemma_resolve_ty_prefix(ta1, ta2, t.0 as int);
            assert(resolve_const(ca2, ta2, i) =~~= resolve_const(ca1, ta1, i));
        },
        Constant::Undef(t) => {
            lemma_resolve_ty_prefix(ta1, ta2, t.0 as int);
            assert(resolve_const(ca2, ta2, i) =~~= resolve_const(ca1, ta1, i));
        },
        Constant::Struct { values, .. } => {
            assert forall|j: int| 0 <= j < values@.len() && (values@[j].0 as int) < i implies
                resolve_const(ca2, ta2, values@[j].0 as int) == resolve_const(
                ca1,
                ta1,
                values@[j].0 as int,
            ) by {
                lemma_resolve_const_prefix(ca1, ca2, ta1, ta2, values@[j].0 as int);
            }
            assert(resolve_const_list(ca2, ta2, i, values@) =~= resolve_const_list(
                ca1,
                ta1,
                i,
                values@,
            ));
            assert(resolve_const(ca2, ta2, i) =~~= resolve_const(ca1, ta1, i));
        },
        Constant::Array { element_type, elements } => {
            lemma_resolve_ty_prefix(ta1, ta2, element_type.0 as int);
            assert forall|j: int| 0 <= j < elements@.len() && (elements@[j].0 as int) < i implies
                resolve_const(ca2, ta2, elements@[j].0 as int) == resolve_const(
                ca1,
                ta1,
                elements@[j].0 as int,
            ) by {
                lemma_resolve_const_prefix(ca1, ca2, ta1, ta2, elements@[j].0 as int);
            }
            assert(resolve_const_list(ca2, ta2, i, elements@) =~= resolve_const_list(
                ca1,
                ta1,
                i,
                elements@,
            ));
            assert(resolve_const(ca2, ta2, i) =~~= resolve_const(ca1, ta1, i));
        },
        Constant::GlobalReference { ty, .. } => {
            lemma_resolve_ty_prefix(ta1, ta2, ty.0 as int);
            assert(resolve_const(ca2, ta2, i) =~~= resolve_const(ca1, ta1, i));
        },
    }
}

/// The shape a constant node would denote if appended to the arena `ca`:
/// the node itself, with its children resolved in `ca` and its types in
/// `ta`.
pub open spec fn node_shape(c: Constant, ca: Seq<Constant>, ta: Seq<Type>) -> ConstShape {
    match c {
        Constant::Int { bits, value } => ConstShape::Int { bits, value },
        Constant::Null(t) => ConstShape::Null { ty: resolve_ty(ta, t.0 as int) },
        Constant::Undef(t) => ConstShape::Undef { ty: resolve_ty(ta, t.0 as int) },
        Constant::Struct { name, values, is_packed } => ConstShape::Struct {
            name: opt_str_view(name),
            values: resolve_const_list(ca, ta, ca.len() as int, values@),
            packed: is_packed,
        },
        Constant::Array { element_type, elements } => ConstShape::Array {
            element: resolve_ty(ta, element_type.0 as int),
            elements: resolve_const_list(ca, ta, ca.len() as int, elements@),
        },
        Constant::GlobalReference { name, ty } => ConstShape::Global {
            name: name@,
            ty: resolve_ty(ta, ty.0 as int),
        },
    }
}

/// The session-scoped constant interner: the arena of owned constant
/// nodes, the intrinsic type of each, and the memoization cache from
/// foreign constant handles to arena indices. Never evicts.
pub struct Constants {
    arena: Vec<Constant>,
    tys: Vec<TypeRef>,
    cache: Vec<Option<ConstantRef>>,
    foreign_consts: Ghost<Seq<FConstDesc>>,
}

impl Constants {
    /// The owned constant arena.
    pub closed spec fn arena(&self) -> Seq<Constant> {
        self.arena@
    }

    /// The intrinsic type of each arena node.
    pub closed spec fn tys(&self) -> Seq<TypeRef> {
        self.tys@
    }

    /// The memoization cache, indexed by foreign constant handle.
    pub closed spec fn cache(&self) -> Seq<Option<ConstantRef>> {
        self.cache@
    }

    /// The snapshot constant table this session interns from.
    pub closed spec fn foreign(&self) -> Seq<FConstDesc> {
        self.foreign_consts@
    }

    /// The shape a constant reference denotes, with types resolved in the
    /// given type session.
    pub open spec fn shape_of(&self, types: Types, r: ConstantRef) -> ConstShape {
        resolve_const(self.arena(), types.arena(), r.0 as int)
    }

    /// A constant reference pointing into this session's arena.
    pub open spec fn valid_ref(&self, r: ConstantRef) -> bool {
        (r.0 as int) < self.arena().len()
    }

    /// Session invariant, relative to the type session it interns types
    /// through: the arena is in dependency order and refers only to types
    /// the type arena holds; every node's recorded type is the intrinsic
    /// type of its shape; every cache entry denotes the shape of the
    /// foreign handle it was interned from.
    pub open spec fn wf(&self, types: Types) -> bool {
        &&& wf_fconsts(self.foreign(), types.foreign().len() as int)
        &&& self.tys().len() == self.arena().len()
        &&& self.cache().len() == self.foreign().len()
        &&& forall|i: int|
            0 <= i < self.arena().len() ==> const_node_bounded(
                #[trigger] self.arena()[i],
                i,
                types.arena().len() as int,
            )
        &&& forall|i: int|
            0 <= i < self.arena().len() ==> types.valid_ref(#[trigger] self.tys()[i])
                && types.shape_of(self.tys()[i]) == const_ty_shape(
                resolve_const(self.arena(), types.arena(), i),
            )
        &&& forall|h: int|
            0 <= h < self.cache().len() ==> match #[trigger] self.cache()[h] {
                Some(r) => self.valid_ref(r) && resolve_const(self.arena(), types.arena(), r.0 as int)
                    == fshape_const(self.foreign(), types.foreign(), h),
                None => true,
            }
    }

    /// A later session state extends an earlier one.
    pub open spec fn extends(&self, prev: Constants) -> bool {
        &&& prev.arena().len() <= self.arena().len()
        &&& forall|j: int| 0 <= j < prev.arena().len() ==> prev.arena()[j] == self.arena()[j]
        &&& forall|j: int| 0 <= j < prev.arena().len() ==> prev.tys()[j] == self.tys()[j]
        &&& self.foreign() == prev.foreign()
        &&& self.cache().len() == prev.cache().len()
        &&& forall|h: int|
            0 <= h < prev.cache().len() && prev.cache()[h] is Some ==> self.cache()[h]
                == prev.cache()[h]
    }

    /// The constant-session invariant is stable as the type session
    /// grows.
    pub proof fn lemma_types_extend(&self, t1: Types, t2: Types)
        requires
            self.wf(t1),
            t2.extends(t1),
            t2.foreign() == t1.foreign(),
        ensures
            self.wf(t2),
    {
        assert forall|i: int| 0 <= i < self.arena().len() implies const_node_bounded(
            #[trigger] self.arena()[i],
            i,
            t2.arena().len() as int,
        ) by {
            assert(const_node_bounded(self.arena()[i], i, t1.arena().len() as int));
        }
        assert forall|i: int| 0 <= i < self.arena().len() implies t2.valid_ref(
            #[trigger] self.tys()[i],
        ) && t2.shape_of(self.tys()[i]) == const_ty_shape(
            resolve_const(self.arena(), t2.arena(), i),
        ) by {
            lemma_resolve_ty_prefix(t1.arena(), t2.arena(), self.tys()[i].0 as int);
            lemma_resolve_const_prefix(
                self.arena(),
                self.arena(),
                t1.arena(),
                t2.arena(),
                i,
            );
        }
        assert forall|h: int| 0 <= h < self.cache().len() implies match #[trigger] self.cache()[h] {
            Some(r) => self.valid_ref(r) && resolve_const(self.arena(), t2.arena(), r.0 as int)
                == fshape_const(self.foreign(), t2.foreign(), h),
            None => true,
        } by {
            if let Some(r) = self.cache()[h] {
                lemma_resolve_const_prefix(
                    self.arena(),
                    self.arena(),
                    t1.arena(),
                    t2.arena(),
                    r.0 as int,
                );
            }
        }
    }

    /// Start a constant session for the given snapshot constant table.
    pub fn new(fconsts: &Vec<FConstDesc>, types: &Types) -> (r: Constants)
        requires
            types.wf(),
            wf_fconsts(fconsts@, types.foreign().len() as int),
        ensures
            r.wf(*types),
            r.foreign() == fconsts@,
            r.arena().len() == 0,
            forall|h: int| 0 <= h < r.cache().len() ==> r.cache()[h] is None,
    {
        let mut cache: Vec<Option<ConstantRef>> = Vec::new();
        let mut i: usize = 0;
        while i < fconsts.len()
            invariant
                0 <= i <= fconsts@.len(),
                cache@.len() == i,
                forall|h: int| 0 <= h < i ==> cache@[h] is None,
            decreases fconsts@.len() - i,
        {
            cache.push(None);
            i = i + 1;
        }
        Constants { arena: Vec::new(), tys: Vec::new(), cache, foreign_consts: Ghost(fconsts@) }
    }

    /// The intrinsic type of an interned constant.
    pub fn type_of(&self, r: ConstantRef) -> (t: TypeRef)
        requires
            self.valid_ref(r),
            self.tys().len() == self.arena().len(),
        ensures
            t == self.tys()[r.0 as int],
    {
        self.tys[r.0]
    }

    /// Append one constant node whose children already stand in the
    /// arena, together with its intrinsic type.
    fn push_const(&mut self, types: &Types, c: Constant, ty: TypeRef) -> (r: ConstantRef)
        requires
            old(self).wf(*types),
            types.wf(),
            const_node_bounded(c, old(self).arena().len() as int, types.arena().len() as int),
            types.valid_ref(ty),
            types.shape_of(ty) == const_ty_shape(
                node_shape(c, old(self).arena(), types.arena()),
            ),
        ensures
            final(self).wf(*types),
            final(self).extends(*old(self)),
            final(self).arena() == old(self).arena().push(c),
            final(self).cache() == old(self).cache(),
            r.0 == old(self).arena().len(),
            final(self).valid_ref(r),
            final(self).shape_of(*types, r) == node_shape(c, old(self).arena(), types.arena()),
    {
        let ghost gc = c;
        let r = ConstantRef(self.arena.len());
        self.arena.push(c);
        self.tys.push(ty);
        proof {
            let ca1 = old(self).arena();
            let ca2 = self.arena();
            let ta = types.arena();
            let n = ca1.len() as int;
            assert forall|j: int| 0 <= j < n implies resolve_const(ca2, ta, j) == resolve_const(
                ca1,
                ta,
                j,
            ) by {
                lemma_resolve_const_prefix(ca1, ca2, ta, ta, j);
            }
            match gc {
                Constant::Struct { values, .. } => {
                    assert forall|j: int| 0 <= j < values@.len() && (values@[j].0 as int)
                        < n implies resolve_const(ca2, ta, values@[j].0 as int) == resolve_const(
                        ca1,
                        ta,
                        values@[j].0 as int,
                    ) by {
                        lemma_resolve_const_prefix(ca1, ca2, ta, ta, values@[j].0 as int);
                    }
                    assert(resolve_const_list(ca2, ta, n, values@) =~= resolve_const_list(
                        ca1,
                        ta,
                        n,
                        values@,
                    ));
                    assert(resolve_const(ca2, ta, n) =~~= node_shape(gc, ca1, ta));
                },
                Constant::Array { elements, .. } => {
                    assert forall|j: int| 0 <= j < elements@.len() && (elements@[j].0 as int)
                        < n implies resolve_const(ca2, ta, elements@[j].0 as int)
                        == resolve_const(ca1, ta, elements@[j].0 as int) by {
                        lemma_resolve_const_prefix(ca1, ca2, ta, ta, elements@[j].0 as int);
                    }
                    assert(resolve_const_list(ca2, ta, n, elements@) =~= resolve_const_list(
                        ca1,
                        ta,
                        n,
                        elements@,
                    ));
                    assert(resolve_const(ca2, ta, n) =~~= node_shape(gc, ca1, ta));
                },
                _ => {
                    assert(resolve_const(ca2, ta, n) =~~= node_shape(gc, ca1, ta));
                },
            }
        }
        r
    }
}

} // verus!

verus! {

impl Constants {
    /// Constant-session extension is transitive.
    pub proof fn lemma_extends_trans(s3: &Constants, s2: &Constants, s1: &Constants)
        requires
            s3.extends(*s2),
            s2.extends(*s1),
        ensures
            s3.extends(*s1),
    {
        assert forall|j: int| 0 <= j < s1.arena().len() implies s1.arena()[j] == s3.arena()[j]
            && s1.tys()[j] == s3.tys()[j] by {
            assert(s1.arena()[j] == s2.arena()[j]);
            assert(s1.tys()[j] == s2.tys()[j]);
        }
        assert forall|h: int|
            0 <= h < s1.cache().len() && s1.cache()[h] is Some implies s3.cache()[h]
            == s1.cache()[h] by {
            assert(s2.cache()[h] == s1.cache()[h]);
        }
    }

    /// Intern the foreign constant handle `h`: return the owned reference
    /// the session cache holds for it, or, on the first request, decode
    /// the foreign node structurally — interning its sub-constants and
    /// its types first — cache the result, and return it.
    ///
    /// Interning is idempotent: a second request for the same handle in
    /// the same session returns the identical reference and leaves both
    /// sessions untouched.
    #[verifier::rlimit(100)]
    #[verifier::spinoff_prover]
    pub fn intern_constant(
        &mut self,
        fconsts: &Vec<FConstDesc>,
        ftypes: &Vec<FTypeDesc>,
        types: &mut Types,
        h: usize,
    ) -> (r: ConstantRef)
        requires
            old(self).wf(*old(types)),
            old(types).wf(),
            fconsts@ == old(self).foreign(),
            ftypes@ == old(types).foreign(),
            h < fconsts@.len(),
        ensures
            final(self).wf(*final(types)),
            final(types).wf(),
            final(types).extends(*old(types)),
            final(types).named() == old(types).named(),
            final(self).extends(*old(self)),
            final(self).cache()[h as int] == Some(r),
            final(self).valid_ref(r),
            final(self).shape_of(*final(types), r) == fshape_const(fconsts@, ftypes@, h as int),
            old(self).cache()[h as int] matches Some(r0) ==> r == r0 && *final(self) == *old(self)
                && *final(types) == *old(types),
        decreases h,
    {
        if let Some(r) = self.cache[h] {
            return r;
        }
        let ghost fc = fconsts@;
        let ghost ft = ftypes@;
        proof {
            assert(fconst_node_bounded(fc[h as int], h as int, ft.len() as int));
        }
        let r: ConstantRef = match &fconsts[h] {
            FConstDesc::Int { bits, value } => {
                let t = types.int_type(*bits);
                proof {
                    self.lemma_types_extend(*old(types), *types);
                }
                self.push_const(types, Constant::Int { bits: *bits, value: *value }, t)
            },
            FConstDesc::Null { ty } => {
                let tr = types.intern_type(ftypes, *ty);
                proof {
                    self.lemma_types_extend(*old(types), *types);
                }
                self.push_const(types, Constant::Null(tr), tr)
            },
            FConstDesc::Undef { ty } => {
                let tr = types.intern_type(ftypes, *ty);
                proof {
                    self.lemma_types_extend(*old(types), *types);
                }
                self.push_const(types, Constant::Undef(tr), tr)
            },
            FConstDesc::GlobalReference { name, ty } => {
                let tr = types.intern_type(ftypes, *ty);
                let ghost t_mid = *types;
                let p = types.pointer_to(tr, 0);
                proof {
                    Types::lemma_extends_trans(types, &t_mid, old(types));
                    self.lemma_types_extend(*old(types), *types);
                    types.lemma_extends_shape(t_mid, tr);
                }
                self.push_const(
                    types,
                    Constant::GlobalReference { name: Name::Name(name.clone()), ty: tr },
                    p,
                )
            },
            FConstDesc::Struct { name, values, is_packed } => {
                let mut crefs: Vec<ConstantRef> = Vec::new();
                let mut ets: Vec<TypeRef> = Vec::new();
                let mut j: usize = 0;
                while j < values.len()
                    invariant
                        types.wf(),
                        self.wf(*types),
                        self.foreign() == fc,
                        types.foreign() == ft,
                        fconsts@ == fc,
                        ftypes@ == ft,
                        h < fc.len(),
                        fconst_node_bounded(fc[h as int], h as int, ft.len() as int),
                        fc[h as int] is Struct,
                        values@ == fc[h as int]->Struct_values@,
                        types.extends(*old(types)),
                        types.named() == old(types).named(),
                        self.extends(*old(self)),
                        0 <= j <= values@.len(),
                        crefs@.len() == j,
                        ets@.len() == j,
                        forall|jj: int|
                            0 <= jj < j ==> self.valid_ref(#[trigger] crefs@[jj])
                                && resolve_const(self.arena(), types.arena(), crefs@[jj].0 as int)
                                == fshape_const(fc, ft, values@[jj] as int) && ets@[jj]
                                == self.tys()[crefs@[jj].0 as int],
                    decreases values@.len() - j,
                {
                    let ghost s_pre = *self;
                    let ghost t_pre = *types;
                    proof {
                        assert((values@[j as int] as int) < h as int);
                    }
                    let cr = self.intern_constant(fconsts, ftypes, types, values[j]);
                    let et = self.type_of(cr);
                    proof {
                        Constants::lemma_extends_trans(self, &s_pre, old(self));
                        Types::lemma_extends_trans(types, &t_pre, old(types));
                        assert forall|jj: int| 0 <= jj < j implies self.valid_ref(
                            #[trigger] crefs@[jj],
                        ) && resolve_const(self.arena(), types.arena(), crefs@[jj].0 as int)
                            == fshape_const(fc, ft, values@[jj] as int) && ets@[jj]
                            == self.tys()[crefs@[jj].0 as int] by {
                            lemma_resolve_const_prefix(
                                s_pre.arena(),
                                self.arena(),
                                t_pre.arena(),
                                types.arena(),
                                crefs@[jj].0 as int,
                            );
                        }
                    }
                    crefs.push(cr);
                    ets.push(et);
                    j = j + 1;
                }
                let ghost t_loop = *types;
                let ghost s_loop = *self;
                let ghost ets_snap = ets@;
                let ghost crefs_snap = crefs@;
                proof {
                    assert forall|jj: int| 0 <= jj < ets_snap.len() implies types.valid_ref(
                        #[trigger] ets_snap[jj],
                    ) && types.shape_of(ets_snap[jj]) == const_ty_shape(
                        resolve_const(self.arena(), types.arena(), crefs_snap[jj].0 as int),
                    ) by {
                        assert(ets_snap[jj] == self.tys()[crefs_snap[jj].0 as int]);
                    }
                }
                let st = types.struct_of(ets, *is_packed);
                proof {
                    Types::lemma_extends_trans(types, &t_loop, old(types));
                    self.lemma_types_extend(t_loop, *types);
                    assert forall|jj: int| 0 <= jj < crefs_snap.len() implies resolve_const(
                        self.arena(),
                        types.arena(),
                        crefs_snap[jj].0 as int,
                    ) == fshape_const(fc, ft, values@[jj] as int) by {
                        lemma_resolve_const_prefix(
                            s_loop.arena(),
                            self.arena(),
                            t_loop.arena(),
                            types.arena(),
                            crefs_snap[jj].0 as int,
                        );
                    }
                    assert forall|jj: int| 0 <= jj < ets_snap.len() implies t_loop.shape_of(
                        #[trigger] ets_snap[jj],
                    ) == const_ty_shape(
                        resolve_const(self.arena(), types.arena(), crefs_snap[jj].0 as int),
                    ) by {
                        types.lemma_extends_shape(t_loop, ets_snap[jj]);
                        lemma_resolve_const_prefix(
                            s_loop.arena(),
                            self.arena(),
                            t_loop.arena(),
                            types.arena(),
                            crefs_snap[jj].0 as int,
                        );
                    }
                }
                let name2 = match name {
                    Some(s) => Some(s.clone()),
                    None => None,
                };
                let node = Constant::Struct { name: name2, values: crefs, is_packed: *is_packed };
                proof {
                    let nsh = node_shape(node, self.arena(), types.arena());
                    assert(resolve_const_list(
                        self.arena(),
                        types.arena(),
                        self.arena().len() as int,
                        crefs_snap,
                    ) =~= fshape_const_list(fc, ft, h as int, values@));
                    assert(nsh =~~= fshape_const(fc, ft, h as int));
                    let csh = const_ty_shape(nsh);
                    let ssh = types.shape_of(st);
                    assert(ssh is Struct);
                    assert(csh is Struct);
                    assert(nsh->Struct_values.len() == crefs_snap.len());
                    assert forall|jj: int| 0 <= jj < crefs_snap.len() implies
                        ssh->Struct_elements[jj] == csh->Struct_elements[jj] by {
                        assert(nsh->Struct_values[jj] == resolve_const(
                            self.arena(),
                            types.arena(),
                            crefs_snap[jj].0 as int,
                        ));
                        assert(ssh->Struct_elements[jj] == t_loop.shape_of(ets_snap[jj]));
                        assert(csh->Struct_elements[jj] == const_ty_shape(
                            nsh->Struct_values[jj],
                        ));
                    }
                    assert(ssh->Struct_elements =~= csh->Struct_elements);
                    assert(ssh =~~= csh);
                }
                self.push_const(types, node, st)
            },
            FConstDesc::Array { element_ty, elements } => {
                let etr = types.intern_type(ftypes, *element_ty);
                proof {
                    self.lemma_types_extend(*old(types), *types);
                }
                let ghost t_start = *types;
                let ghost s_start = *self;
                let mut crefs: Vec<ConstantRef> = Vec::new();
                let mut j: usize = 0;
                while j < elements.len()
                    invariant
                        types.wf(),
                        self.wf(*types),
                        self.foreign() == fc,
                        types.foreign() == ft,
                        fconsts@ == fc,
                        ftypes@ == ft,
                        h < fc.len(),
                        fconst_node_bounded(fc[h as int], h as int, ft.len() as int),
                        fc[h as int] is Array,
                        elements@ == fc[h as int]->Array_elements@,
                        types.extends(t_start),
                        t_start.extends(*old(types)),
                        t_start.named() == old(types).named(),
                        types.named() == old(types).named(),
                        t_start.valid_ref(etr),
                        t_start.shape_of(etr) == fshape_ty(
                            ft,
                            fc[h as int]->Array_element_ty as int,
                        ),
                        self.extends(*old(self)),
                        0 <= j <= elements@.len(),
                        crefs@.len() == j,
                        forall|jj: int|
                            0 <= jj < j ==> self.valid_ref(#[trigger] crefs@[jj])
                                && resolve_const(self.arena(), types.arena(), crefs@[jj].0 as int)
                                == fshape_const(fc, ft, elements@[jj] as int),
                    decreases elements@.len() - j,
                {
                    let ghost s_pre = *self;
                    let ghost t_pre = *types;
                    proof {
                        assert((elements@[j as int] as int) < h as int);
                    }
                    let cr = self.intern_constant(fconsts, ftypes, types, elements[j]);
                    proof {
                        Constants::lemma_extends_trans(self, &s_pre, old(self));
                        Types::lemma_extends_trans(types, &t_pre, &t_start);
                        assert forall|jj: int| 0 <= jj < j implies self.valid_ref(
                            #[trigger] crefs@[jj],
                        ) && resolve_const(self.arena(), types.arena(), crefs@[jj].0 as int)
                            == fshape_const(fc, ft, elements@[jj] as int) by {
                            lemma_resolve_const_prefix(
                                s_pre.arena(),
                                self.arena(),
                                t_pre.arena(),
                                types.arena(),
                                crefs@[jj].0 as int,
                            );
                        }
                    }
                    crefs.push(cr);
                    j = j + 1;
                }
                let ghost t_loop = *types;
                let ghost s_loop = *self;
                let ghost crefs_snap = crefs@;
                let at = types.array_of(etr, elements.len());
                proof {
                    Types::lemma_extends_trans(types, &t_loop, &t_start);
                    Types::lemma_extends_trans(types, &t_start, old(types));
                    self.lemma_types_extend(t_loop, *types);
                    t_loop.lemma_extends_shape(t_start, etr);
                    assert forall|jj: int| 0 <= jj < crefs_snap.len() implies resolve_const(
                        self.arena(),
                        types.arena(),
                        crefs_snap[jj].0 as int,
                    ) == fshape_const(fc, ft, elements@[jj] as int) by {
                        lemma_resolve_const_prefix(
                            s_loop.arena(),
                            self.arena(),
                            t_loop.arena(),
                            types.arena(),
                            crefs_snap[jj].0 as int,
                        );
                    }
                }
                let node = Constant::Array { element_type: etr, elements: crefs };
                proof {
                    let nsh = node_shape(node, self.arena(), types.arena());
                    assert(resolve_const_list(
                        self.arena(),
                        types.arena(),
                        self.arena().len() as int,
                        crefs_snap,
                    ) =~= fshape_const_list(fc, ft, h as int, elements@));
                    assert(nsh =~~= fshape_const(fc, ft, h as int));
                    assert(types.shape_of(at) =~~= const_ty_shape(nsh));
                }
                self.push_const(types, node, at)
            },
        };
        let ghost s_arms = *self;
        self.cache[h] = Some(r);
        proof {
            assert(self.arena() == s_arms.arena());
            assert(self.tys() == s_arms.tys());
            assert forall|h2: int| 0 <= h2 < self.cache().len() implies match #[trigger] self.cache()[h2] {
                Some(cr) => self.valid_ref(cr) && resolve_const(
                    self.arena(),
                    types.arena(),
                    cr.0 as int,
                ) == fshape_const(self.foreign(), types.foreign(), h2),
                None => true,
            } by {
                if h2 != h as int {
                    assert(self.cache()[h2] == s_arms.cache()[h2]);
                }
            }
        }
        r
    }
}

} // verus!

verus! {

impl Constants {
    /// Read one interned constant node.
    pub fn get(&self, r: ConstantRef) -> (c: &Constant)
        requires
            self.valid_ref(r),
        ensures
            *c == self.arena()[r.0 as int],
    {
        &self.arena[r.0]
    }
}

} // verus!
