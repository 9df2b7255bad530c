//! Functions: their parameters, attributes, and calling conventions,
//! and the decoding of all of these from the foreign snapshot.

use vstd::prelude::*;

use crate::foreign::FAttribute;

verus! {

/// Calling convention of a function or a call site. A closed enumeration
/// plus a `Numbered` escape for any foreign integer code not in it, so an
/// unrecognized code degrades losslessly instead of failing.
#[derive(PartialEq, Eq, Structural, Clone, Copy, Debug)]
#[allow(non_camel_case_types)]
pub enum CallingConvention {
    C,
    Fast,
    Cold,
    GHC,
    HiPE,
    WebKit_JS,
    AnyReg,
    PreserveMost,
    PreserveAll,
    Swift,
    CXX_FastTLS,
    X86_StdCall,
    X86_FastCall,
    X86_RegCall,
    X86_ThisCall,
    X86_VectorCall,
    X86_Intr,
    X86_64_SysV,
    ARM_APCS,
    ARM_AAPCS,
    ARM_AAPCS_VFP,
    MSP430_INTR,
    MSP430_Builtin,
    PTX_Kernel,
    PTX_Device,
    SPIR_FUNC,
    SPIR_KERNEL,
    Intel_OCL_BI,
    Win64,
    HHVM,
    HHVM_C,
    AVR_Intr,
    AVR_Signal,
    AVR_Builtin,
    AMDGPU_CS,
    AMDGPU_ES,
    AMDGPU_GS,
    AMDGPU_HS,
    AMDGPU_LS,
    AMDGPU_PS,
    AMDGPU_VS,
    AMDGPU_Kernel,
    /// Used if the foreign module carries a calling-convention code not
    /// in the closed list above.
    Numbered(u32),
}

impl CallingConvention {
    /// The calling convention denoted by the foreign integer code `u`.
    /// Codes follow the foreign library's enumeration; every code outside
    /// the closed list maps to `Numbered(u)`.
    pub open spec fn spec_from_u32(u: u32) -> CallingConvention {
        if u == 0 { CallingConvention::C }
        else if u == 8 { CallingConvention::Fast }
        else if u == 9 { CallingConvention::Cold }
        else if u == 10 { CallingConvention::GHC }
        else if u == 11 { CallingConvention::HiPE }
        else if u == 12 { CallingConvention::WebKit_JS }
        else if u == 13 { CallingConvention::AnyReg }
        else if u == 14 { CallingConvention::PreserveMost }
        else if u == 15 { CallingConvention::PreserveAll }
        else if u == 16 { CallingConvention::Swift }
        else if u == 17 { CallingConvention::CXX_FastTLS }
        else if u == 64 { CallingConvention::X86_StdCall }
        else if u == 65 { CallingConvention::X86_FastCall }
        else if u == 66 { CallingConvention::ARM_APCS }
        else if u == 67 { CallingConvention::ARM_AAPCS }
        else if u == 68 { CallingConvention::ARM_AAPCS_VFP }
        else if u == 69 { CallingConvention::MSP430_INTR }
        else if u == 70 { CallingConvention::X86_ThisCall }
        else if u == 71 { CallingConvention::PTX_Kernel }
        else if u == 72 { CallingConvention::PTX_Device }
        else if u == 75 { CallingConvention::SPIR_FUNC }
        else if u == 76 { CallingConvention::SPIR_KERNEL }
        else if u == 77 { CallingConvention::Intel_OCL_BI }
        else if u == 78 { CallingConvention::X86_64_SysV }
        else if u == 79 { CallingConvention::Win64 }
        else if u == 80 { CallingConvention::X86_VectorCall }
        else if u == 81 { CallingConvention::HHVM }
        else if u == 82 { CallingConvention::HHVM_C }
        else if u == 83 { CallingConvention::X86_Intr }
        else if u == 84 { CallingConvention::AVR_Intr }
        else if u == 85 { CallingConvention::AVR_Signal }
        else if u == 86 { CallingConvention::AVR_Builtin }
        else if u == 87 { CallingConvention::AMDGPU_VS }
        else if u == 88 { CallingConvention::AMDGPU_GS }
        else if u == 89 { CallingConvention::AMDGPU_PS }
        else if u == 90 { CallingConvention::AMDGPU_CS }
        else if u == 91 { CallingConvention::AMDGPU_Kernel }
        else if u == 92 { CallingConvention::X86_RegCall }
        else if u == 93 { CallingConvention::AMDGPU_HS }
        else if u == 94 { CallingConvention::MSP430_Builtin }
        else if u == 95 { CallingConvention::AMDGPU_LS }
        else if u == 96 { CallingConvention::AMDGPU_ES }
        else { CallingConvention::Numbered(u) }
    }

    /// Map a foreign calling-convention code to the owned enumeration.
    pub fn from_u32(u: u32) -> (r: Self)
        ensures
            r == CallingConvention::spec_from_u32(u),
    {
        match u {
            0 => CallingConvention::C,
            8 => CallingConvention::Fast,
            9 => CallingConvention::Cold,
            10 => CallingConvention::GHC,
            11 => CallingConvention::HiPE,
            12 => CallingConvention::WebKit_JS,
            13 => CallingConvention::AnyReg,
            14 => CallingConvention::PreserveMost,
            15 => CallingConvention::PreserveAll,
            16 => CallingConvention::Swift,
            17 => CallingConvention::CXX_FastTLS,
            64 => CallingConvention::X86_StdCall,
            65 => CallingConvention::X86_FastCall,
            66 => CallingConvention::ARM_APCS,
            67 => CallingConvention::ARM_AAPCS,
            68 => CallingConvention::ARM_AAPCS_VFP,
            69 => CallingConvention::MSP430_INTR,
            70 => CallingConvention::X86_ThisCall,
            71 => CallingConvention::PTX_Kernel,
            72 => CallingConvention::PTX_Device,
            75 => CallingConvention::SPIR_FUNC,
            76 => CallingConvention::SPIR_KERNEL,
            77 => CallingConvention::Intel_OCL_BI,
            78 => CallingConvention::X86_64_SysV,
            79 => CallingConvention::Win64,
            80 => CallingConvention::X86_VectorCall,
            81 => CallingConvention::HHVM,
            82 => CallingConvention::HHVM_C,
            83 => CallingConvention::X86_Intr,
            84 => CallingConvention::AVR_Intr,
            85 => CallingConvention::AVR_Signal,
            86 => CallingConvention::AVR_Builtin,
            87 => CallingConvention::AMDGPU_VS,
            88 => CallingConvention::AMDGPU_GS,
            89 => CallingConvention::AMDGPU_PS,
            90 => CallingConvention::AMDGPU_CS,
            91 => CallingConvention::AMDGPU_Kernel,
            92 => CallingConvention::X86_RegCall,
            93 => CallingConvention::AMDGPU_HS,
            94 => CallingConvention::MSP430_Builtin,
            95 => CallingConvention::AMDGPU_LS,
            96 => CallingConvention::AMDGPU_ES,
            _ => CallingConvention::Numbered(u),
        }
    }
}

} // verus!

verus! {

/// An attribute of a function itself. A closed catalog of symbolic
/// variants plus two escape hatches: a free-form string attribute, and an
/// `Unknown` marker for any foreign enumerated attribute not in the
/// catalog. `Unknown` never causes decode failure.
#[derive(PartialEq, Eq, Clone, Debug)]
pub enum FunctionAttribute {
    AlignStack(u64),
    AllocSize { elt_size: u32, num_elts: Option<u32> },
    AlwaysInline,
    Builtin,
    Cold,
    Convergent,
    InaccessibleMemOnly,
    InaccessibleMemOrArgMemOnly,
    InlineHint,
    JumpTable,
    MinimizeSize,
    Naked,
    NoBuiltin,
    NoCFCheck,
    NoDuplicate,
    NoFree,
    NoImplicitFloat,
    NoInline,
    NoMerge,
    NonLazyBind,
    NoRedZone,
    NoReturn,
    NoRecurse,
    WillReturn,
    ReturnsTwice,
    NoSync,
    NoUnwind,
    NullPointerIsValid,
    OptForFuzzing,
    OptNone,
    OptSize,
    ReadNone,
    ReadOnly,
    WriteOnly,
    ArgMemOnly,
    SafeStack,
    SanitizeAddress,
    SanitizeMemory,
    SanitizeThread,
    SanitizeHWAddress,
    SanitizeMemTag,
    ShadowCallStack,
    SpeculativeLoadHardening,
    Speculatable,
    StackProtect,
    StackProtectReq,
    StackProtectStrong,
    StrictFP,
    UWTable,
    /// A free-form (key, value) string attribute; an attribute with no
    /// value carries an empty string.
    StringAttribute { kind: String, value: String },
    /// An enumerated foreign attribute that is not in the catalog.
    UnknownAttribute,
}

/// An attribute of a parameter or of a function's return value.
#[derive(PartialEq, Eq, Clone, Debug)]
pub enum ParameterAttribute {
    ZeroExt,
    SignExt,
    InReg,
    ByVal(u64),
    Preallocated,
    InAlloca,
    SRet(u64),
    Alignment(u64),
    NoAlias,
    NoCapture,
    NoFree,
    Nest,
    Returned,
    NonNull,
    Dereferenceable(u64),
    DereferenceableOrNull(u64),
    SwiftSelf,
    SwiftError,
    ImmArg,
    NoUndef,
    /// A free-form (key, value) string attribute; an attribute with no
    /// value carries an empty string.
    StringAttribute { kind: String, value: String },
    /// An enumerated foreign attribute that is not in the catalog.
    UnknownAttribute,
}

pub type GroupID = usize;

/// The symbolic names of the enumerated function attributes the catalog
/// tracks, in the order the catalog registers them.
pub open spec fn spec_function_attr_names() -> Seq<Seq<char>> {
    seq![
        "alignstack"@,
        "allocsize"@,
        "alwaysinline"@,
        "builtin"@,
        "cold"@,
        "convergent"@,
        "inaccessiblememonly"@,
        "inaccessiblemem_or_argmemonly"@,
        "inlinehint"@,
        "jumptable"@,
        "minsize"@,
        "naked"@,
        "nobuiltin"@,
        "nocf_check"@,
        "noduplicate"@,
        "nofree"@,
        "noimplicitfloat"@,
        "noinline"@,
        "nomerge"@,
        "nonlazybind"@,
        "noredzone"@,
        "noreturn"@,
        "norecurse"@,
        "willreturn"@,
        "returns_twice"@,
        "nosync"@,
        "nounwind"@,
        "null_pointer_is_valid"@,
        "optforfuzzing"@,
        "optnone"@,
        "optsize"@,
        "readnone"@,
        "readonly"@,
        "writeonly"@,
        "argmemonly"@,
        "safestack"@,
        "sanitize_address"@,
        "sanitize_memory"@,
        "sanitize_thread"@,
        "sanitize_hwaddress"@,
        "sanitize_memtag"@,
        "shadowcallstack"@,
        "speculative_load_hardening"@,
        "speculatable"@,
        "ssp"@,
        "sspreq"@,
        "sspstrong"@,
        "strictfp"@,
        "uwtable"@,
    ]
}

/// The symbolic names of the enumerated parameter attributes the catalog
/// tracks, in the order the catalog registers them.
pub open spec fn spec_param_attr_names() -> Seq<Seq<char>> {
    seq![
        "zeroext"@,
        "signext"@,
        "inreg"@,
        "byval"@,
        "preallocated"@,
        "inalloca"@,
        "sret"@,
        "align"@,
        "noalias"@,
        "nocapture"@,
        "nofree"@,
        "nest"@,
        "returned"@,
        "nonnull"@,
        "dereferenceable"@,
        "dereferenceable_or_null"@,
        "swiftself"@,
        "swifterror"@,
        "immarg"@,
        "noundef"@,
    ]
}

/// The kind identifier the foreign name table gives for `name`, scanning
/// from entry `i`: the identifier of the first matching entry, or 0 when
/// no entry matches (the foreign library answers 0 for a name it does not
/// recognize).
pub open spec fn spec_table_kind_from(t: Seq<(String, u32)>, name: Seq<char>, i: int) -> u32
    decreases t.len() - i,
{
    if i < 0 || i >= t.len() {
        0u32
    } else if t[i].0@ == name {
        t[i].1
    } else {
        spec_table_kind_from(t, name, i + 1)
    }
}

/// The kind identifier the foreign name table gives for `name`.
pub open spec fn spec_table_kind(t: Seq<(String, u32)>, name: Seq<char>) -> u32 {
    spec_table_kind_from(t, name, 0)
}

/// The name a catalog half maps `kind` to, scanning from entry `i`.
pub open spec fn spec_lookup_attr_from(pairs: Seq<(u32, String)>, kind: u32, i: int) -> Option<
    Seq<char>,
>
    decreases pairs.len() - i,
{
    if i < 0 || i >= pairs.len() {
        None
    } else if pairs[i].0 == kind {
        Some(pairs[i].1@)
    } else {
        spec_lookup_attr_from(pairs, kind, i + 1)
    }
}

/// The name a catalog half maps `kind` to, or `None` when the catalog
/// does not track that kind.
pub open spec fn spec_lookup_attr(pairs: Seq<(u32, String)>, kind: u32) -> Option<Seq<char>> {
    spec_lookup_attr_from(pairs, kind, 0)
}

/// Query the foreign name table for `name`, as the foreign library would
/// answer: the kind of the first matching entry, or 0.
fn table_kind(t: &Vec<(String, u32)>, name: &String) -> (r: u32)
    ensures
        r == spec_table_kind(t@, name@),
{
    let mut i: usize = 0;
    while i < t.len()
        invariant
            0 <= i <= t@.len(),
            spec_table_kind(t@, name@) == spec_table_kind_from(t@, name@, i as int),
        decreases t@.len() - i,
    {
        if t[i].0 == *name {
            return t[i].1;
        }
        i = i + 1;
    }
    0
}

} // verus!

verus! {

use crate::error::DecodeError;

/// Lookup tables, built once per decoding session, mapping the foreign
/// library's enumerated attribute identifiers to the symbolic attribute
/// names the owned model uses, for the function-level and the
/// parameter-level attribute namespaces.
pub struct AttributesData {
    function_attribute_names: Vec<(u32, String)>,
    param_attribute_names: Vec<(u32, String)>,
}

/// The fixed list of function-attribute names the catalog registers.
fn function_attr_name_list() -> (r: Vec<String>)
    ensures
        r@.len() == spec_function_attr_names().len(),
        forall|i: int| 0 <= i < r@.len() ==> #[trigger] r@[i]@ == spec_function_attr_names()[i],
{
    let r: Vec<String> = vec![
        "alignstack".to_owned(),
        "allocsize".to_owned(),
        "alwaysinline".to_owned(),
        "builtin".to_owned(),
        "cold".to_owned(),
        "convergent".to_owned(),
        "inaccessiblememonly".to_owned(),
        "inaccessiblemem_or_argmemonly".to_owned(),
        "inlinehint".to_owned(),
        "jumptable".to_owned(),
        "minsize".to_owned(),
        "naked".to_owned(),
        "nobuiltin".to_owned(),
        "nocf_check".to_owned(),
        "noduplicate".to_owned(),
        "nofree".to_owned(),
        "noimplicitfloat".to_owned(),
        "noinline".to_owned(),
        "nomerge".to_owned(),
        "nonlazybind".to_owned(),
        "noredzone".to_owned(),
        "noreturn".to_owned(),
        "norecurse".to_owned(),
        "willreturn".to_owned(),
        "returns_twice".to_owned(),
        "nosync".to_owned(),
        "nounwind".to_owned(),
        "null_pointer_is_valid".to_owned(),
        "optforfuzzing".to_owned(),
        "optnone".to_owned(),
        "optsize".to_owned(),
        "readnone".to_owned(),
        "readonly".to_owned(),
        "writeonly".to_owned(),
        "argmemonly".to_owned(),
        "safestack".to_owned(),
        "sanitize_address".to_owned(),
        "sanitize_memory".to_owned(),
        "sanitize_thread".to_owned(),
        "sanitize_hwaddress".to_owned(),
        "sanitize_memtag".to_owned(),
        "shadowcallstack".to_owned(),
        "speculative_load_hardening".to_owned(),
        "speculatable".to_owned(),
        "ssp".to_owned(),
        "sspreq".to_owned(),
        "sspstrong".to_owned(),
        "strictfp".to_owned(),
        "uwtable".to_owned(),
    ];
    proof {
        assert forall|i: int| 0 <= i < r@.len() implies #[trigger] r@[i]@
            == spec_function_attr_names()[i] by {
            assert(r@[i]@ == spec_function_attr_names()[i]);
        }
    }
    r
}

/// The fixed list of parameter-attribute names the catalog registers.
fn param_attr_name_list() -> (r: Vec<String>)
    ensures
        r@.len() == spec_param_attr_names().len(),
        forall|i: int| 0 <= i < r@.len() ==> #[trigger] r@[i]@ == spec_param_attr_names()[i],
{
    let r: Vec<String> = vec![
        "zeroext".to_owned(),
        "signext".to_owned(),
        "inreg".to_owned(),
        "byval".to_owned(),
        "preallocated".to_owned(),
        "inalloca".to_owned(),
        "sret".to_owned(),
        "align".to_owned(),
        "noalias".to_owned(),
        "nocapture".to_owned(),
        "nofree".to_owned(),
        "nest".to_owned(),
        "returned".to_owned(),
        "nonnull".to_owned(),
        "dereferenceable".to_owned(),
        "dereferenceable_or_null".to_owned(),
        "swiftself".to_owned(),
        "swifterror".to_owned(),
        "immarg".to_owned(),
        "noundef".to_owned(),
    ];
    proof {
        assert forall|i: int| 0 <= i < r@.len() implies #[trigger] r@[i]@
            == spec_param_attr_names()[i] by {
            assert(r@[i]@ == spec_param_attr_names()[i]);
        }
    }
    r
}

impl AttributesData {
    /// The (kind, name) pairs of the function-attribute half of the
    /// catalog.
    pub closed spec fn fn_pairs(&self) -> Seq<(u32, String)> {
        self.function_attribute_names@
    }

    /// The (kind, name) pairs of the parameter-attribute half of the
    /// catalog.
    pub closed spec fn param_pairs(&self) -> Seq<(u32, String)> {
        self.param_attribute_names@
    }

    /// One catalog half is correctly built from the foreign name table
    /// when it pairs every name of `names`, in order, with the kind
    /// identifier the table gives for it.
    pub open spec fn half_built(pairs: Seq<(u32, String)>, table: Seq<(String, u32)>, names: Seq<Seq<char>>) -> bool {
        &&& pairs.len() == names.len()
        &&& forall|i: int| 0 <= i < names.len() ==> (#[trigger] pairs[i]).0 == spec_table_kind(table, names[i])
            && pairs[i].1@ == names[i]
    }

    /// Every name of `names` is known to the foreign name table.
    pub open spec fn names_resolvable(table: Seq<(String, u32)>, names: Seq<Seq<char>>) -> bool {
        forall|i: int| 0 <= i < names.len() ==> spec_table_kind(table, #[trigger] names[i]) != 0
    }

    /// Build the catalog by querying the foreign name table for each name
    /// in the fixed, version-gated lists. A name the table does not
    /// recognize is a build error: the decoder was built against an
    /// incompatible foreign library version.
    pub fn create(table: &Vec<(String, u32)>) -> (r: Result<AttributesData, DecodeError>)
        ensures
            r is Ok <==> Self::names_resolvable(table@, spec_function_attr_names())
                && Self::names_resolvable(table@, spec_param_attr_names()),
            r matches Ok(d) ==> Self::half_built(d.fn_pairs(), table@, spec_function_attr_names())
                && Self::half_built(d.param_pairs(), table@, spec_param_attr_names()),
            r is Err ==> r == Err::<AttributesData, DecodeError>(DecodeError::AttributeKindNotFound),
    {
        let fnames = function_attr_name_list();
        let mut function_attribute_names: Vec<(u32, String)> = Vec::new();
        let mut i: usize = 0;
        while i < fnames.len()
            invariant
                0 <= i <= fnames@.len(),
                fnames@.len() == spec_function_attr_names().len(),
                forall|j: int| 0 <= j < fnames@.len() ==> #[trigger] fnames@[j]@
                    == spec_function_attr_names()[j],
                function_attribute_names@.len() == i,
                forall|j: int| 0 <= j < i ==> (#[trigger] function_attribute_names@[j]).0
                    == spec_table_kind(table@, spec_function_attr_names()[j])
                    && function_attribute_names@[j].0 != 0
                    && function_attribute_names@[j].1@ == spec_function_attr_names()[j],
            decreases fnames@.len() - i,
        {
            let name = fnames[i].clone();
            let kind = table_kind(table, &name);
            if kind == 0 {
                return Err(DecodeError::AttributeKindNotFound);
            }
            function_attribute_names.push((kind, name));
            i = i + 1;
        }
        proof {
            assert forall|j: int| 0 <= j < spec_function_attr_names().len() implies spec_table_kind(
                table@,
                #[trigger] spec_function_attr_names()[j],
            ) != 0 by {
                assert(function_attribute_names@[j].0 != 0);
            }
        }
        let pnames = param_attr_name_list();
        let mut param_attribute_names: Vec<(u32, String)> = Vec::new();
        let mut k: usize = 0;
        while k < pnames.len()
            invariant
                0 <= k <= pnames@.len(),
                pnames@.len() == spec_param_attr_names().len(),
                forall|j: int| 0 <= j < pnames@.len() ==> #[trigger] pnames@[j]@
                    == spec_param_attr_names()[j],
                param_attribute_names@.len() == k,
                forall|j: int| 0 <= j < k ==> (#[trigger] param_attribute_names@[j]).0
                    == spec_table_kind(table@, spec_param_attr_names()[j])
                    && param_attribute_names@[j].0 != 0
                    && param_attribute_names@[j].1@ == spec_param_attr_names()[j],
                Self::names_resolvable(table@, spec_function_attr_names()),
                Self::half_built(function_attribute_names@, table@, spec_function_attr_names()),
            decreases pnames@.len() - k,
        {
            let name = pnames[k].clone();
            let kind = table_kind(table, &name);
            if kind == 0 {
                return Err(DecodeError::AttributeKindNotFound);
            }
            param_attribute_names.push((kind, name));
            k = k + 1;
        }
        proof {
            assert forall|j: int| 0 <= j < spec_param_attr_names().len() implies spec_table_kind(
                table@,
                #[trigger] spec_param_attr_names()[j],
            ) != 0 by {
                assert(param_attribute_names@[j].0 != 0);
            }
        }
        Ok(AttributesData { function_attribute_names, param_attribute_names })
    }

    /// The string name of an enum-style function attribute, or `None` if
    /// it is not one the catalog tracks. `None` is a normal outcome and
    /// maps to the `Unknown` attribute variant, never to a failure.
    pub fn lookup_function_attr(&self, kind: u32) -> (r: Option<&str>)
        ensures
            r matches Some(s) ==> spec_lookup_attr(self.fn_pairs(), kind) == Some(s@),
            r is None ==> spec_lookup_attr(self.fn_pairs(), kind) is None,
    {
        let mut i: usize = 0;
        while i < self.function_attribute_names.len()
            invariant
                0 <= i <= self.function_attribute_names@.len(),
                spec_lookup_attr(self.fn_pairs(), kind)
                    == spec_lookup_attr_from(self.fn_pairs(), kind, i as int),
            decreases self.function_attribute_names@.len() - i,
        {
            if self.function_attribute_names[i].0 == kind {
                return Some(self.function_attribute_names[i].1.as_str());
            }
            i = i + 1;
        }
        None
    }

    /// The string name of an enum-style parameter attribute, or `None` if
    /// it is not one the catalog tracks. `None` is a normal outcome and
    /// maps to the `Unknown` attribute variant, never to a failure.
    pub fn lookup_param_attr(&self, kind: u32) -> (r: Option<&str>)
        ensures
            r matches Some(s) ==> spec_lookup_attr(self.param_pairs(), kind) == Some(s@),
            r is None ==> spec_lookup_attr(self.param_pairs(), kind) is None,
    {
        let mut i: usize = 0;
        while i < self.param_attribute_names.len()
            invariant
                0 <= i <= self.param_attribute_names@.len(),
                spec_lookup_attr(self.param_pairs(), kind)
                    == spec_lookup_attr_from(self.param_pairs(), kind, i as int),
            decreases self.param_attribute_names@.len() - i,
        {
            if self.param_attribute_names[i].0 == kind {
                return Some(self.param_attribute_names[i].1.as_str());
            }
            i = i + 1;
        }
        None
    }
}

/// The owned function attribute denoted by an enumerated foreign
/// attribute whose catalog name is `name` and whose payload is `value`.
pub open spec fn spec_enum_function_attr(name: Seq<char>, value: u64) -> FunctionAttribute {
        if name == "alignstack"@ { FunctionAttribute::AlignStack(value) }
        else if name == "allocsize"@ { FunctionAttribute::AllocSize { elt_size: (value >> 32) as u32, num_elts: if value & 0xFFFF_FFFF == 0xFFFF_FFFF { None } else { Some((value & 0xFFFF_FFFF) as u32) } } }
        else if name == "alwaysinline"@ { FunctionAttribute::AlwaysInline }
        else if name == "builtin"@ { FunctionAttribute::Builtin }
        else if name == "cold"@ { FunctionAttribute::Cold }
        else if name == "convergent"@ { FunctionAttribute::Convergent }
        else if name == "inaccessiblememonly"@ { FunctionAttribute::InaccessibleMemOnly }
        else if name == "inaccessiblemem_or_argmemonly"@ { FunctionAttribute::InaccessibleMemOrArgMemOnly }
        else if name == "inlinehint"@ { FunctionAttribute::InlineHint }
        else if name == "jumptable"@ { FunctionAttribute::JumpTable }
        else if name == "minsize"@ { FunctionAttribute::MinimizeSize }
        else if name == "naked"@ { FunctionAttribute::Naked }
        else if name == "nobuiltin"@ { FunctionAttribute::NoBuiltin }
        else if name == "nocf_check"@ { FunctionAttribute::NoCFCheck }
        else if name == "noduplicate"@ { FunctionAttribute::NoDuplicate }
        else if name == "nofree"@ { FunctionAttribute::NoFree }
        else if name == "noimplicitfloat"@ { FunctionAttribute::NoImplicitFloat }
        else if name == "noinline"@ { FunctionAttribute::NoInline }
        else if name == "nomerge"@ { FunctionAttribute::NoMerge }
        else if name == "nonlazybind"@ { FunctionAttribute::NonLazyBind }
        else if name == "noredzone"@ { FunctionAttribute::NoRedZone }
        else if name == "noreturn"@ { FunctionAttribute::NoReturn }
        else if name == "norecurse"@ { FunctionAttribute::NoRecurse }
        else if name == "willreturn"@ { FunctionAttribute::WillReturn }
        else if name == "returns_twice"@ { FunctionAttribute::ReturnsTwice }
        else if name == "nosync"@ { FunctionAttribute::NoSync }
        else if name == "nounwind"@ { FunctionAttribute::NoUnwind }
        else if name == "null_pointer_is_valid"@ { FunctionAttribute::NullPointerIsValid }
        else if name == "optforfuzzing"@ { FunctionAttribute::OptForFuzzing }
        else if name == "optnone"@ { FunctionAttribute::OptNone }
        else if name == "optsize"@ { FunctionAttribute::OptSize }
        else if name == "readnone"@ { FunctionAttribute::ReadNone }
        else if name == "readonly"@ { FunctionAttribute::ReadOnly }
        else if name == "writeonly"@ { FunctionAttribute::WriteOnly }
        else if name == "argmemonly"@ { FunctionAttribute::ArgMemOnly }
        else if name == "safestack"@ { FunctionAttribute::SafeStack }
        else if name == "sanitize_address"@ { FunctionAttribute::SanitizeAddress }
        else if name == "sanitize_memory"@ { FunctionAttribute::SanitizeMemory }
        else if name == "sanitize_thread"@ { FunctionAttribute::SanitizeThread }
        else if name == "sanitize_hwaddress"@ { FunctionAttribute::SanitizeHWAddress }
        else if name == "sanitize_memtag"@ { FunctionAttribute::SanitizeMemTag }
        else if name == "shadowcallstack"@ { FunctionAttribute::ShadowCallStack }
        else if name == "speculative_load_hardening"@ { FunctionAttribute::SpeculativeLoadHardening }
        else if name == "speculatable"@ { FunctionAttribute::Speculatable }
        else if name == "ssp"@ { FunctionAttribute::StackProtect }
        else if name == "sspreq"@ { FunctionAttribute::StackProtectReq }
        else if name == "sspstrong"@ { FunctionAttribute::StackProtectStrong }
        else if name == "strictfp"@ { FunctionAttribute::StrictFP }
        else if name == "uwtable"@ { FunctionAttribute::UWTable }
        else { FunctionAttribute::UnknownAttribute }
}

/// What a foreign attribute slot decodes to in the function-attribute
/// namespace, given the catalog's (kind, name) pairs. Total: a kind the
/// catalog does not track degrades to `UnknownAttribute`.
pub open spec fn spec_decode_function_attr(pairs: Seq<(u32, String)>, a: FAttribute) -> FunctionAttribute {
    match a {
        FAttribute::Enum { kind, value } => match spec_lookup_attr(pairs, kind) {
            Some(name) => spec_enum_function_attr(name, value),
            None => FunctionAttribute::UnknownAttribute,
        },
        FAttribute::String { kind, value } => FunctionAttribute::StringAttribute { kind, value },
        FAttribute::Other => FunctionAttribute::UnknownAttribute,
    }
}

/// The owned parameter attribute denoted by an enumerated foreign
/// attribute whose catalog name is `name` and whose payload is `value`.
pub open spec fn spec_enum_param_attr(name: Seq<char>, value: u64) -> ParameterAttribute {
        if name == "zeroext"@ { ParameterAttribute::ZeroExt }
        else if name == "signext"@ { ParameterAttribute::SignExt }
        else if name == "inreg"@ { ParameterAttribute::InReg }
        else if name == "byval"@ { ParameterAttribute::ByVal(value) }
        else if name == "preallocated"@ { ParameterAttribute::Preallocated }
        else if name == "inalloca"@ { ParameterAttribute::InAlloca }
        else if name == "sret"@ { ParameterAttribute::SRet(value) }
        else if name == "align"@ { ParameterAttribute::Alignment(value) }
        else if name == "noalias"@ { ParameterAttribute::NoAlias }
        else if name == "nocapture"@ { ParameterAttribute::NoCapture }
        else if name == "nofree"@ { ParameterAttribute::NoFree }
        else if name == "nest"@ { ParameterAttribute::Nest }
        else if name == "returned"@ { ParameterAttribute::Returned }
        else if name == "nonnull"@ { ParameterAttribute::NonNull }
        else if name == "dereferenceable"@ { ParameterAttribute::Dereferenceable(value) }
        else if name == "dereferenceable_or_null"@ { ParameterAttribute::DereferenceableOrNull(value) }
        else if name == "swiftself"@ { ParameterAttribute::SwiftSelf }
        else if name == "swifterror"@ { ParameterAttribute::SwiftError }
        else if name == "immarg"@ { ParameterAttribute::ImmArg }
        else if name == "noundef"@ { ParameterAttribute::NoUndef }
        else { ParameterAttribute::UnknownAttribute }
}

/// What a foreign attribute slot decodes to in the parameter-attribute
/// namespace, given the catalog's (kind, name) pairs.
pub open spec fn spec_decode_param_attr(pairs: Seq<(u32, String)>, a: FAttribute) -> ParameterAttribute {
    match a {
        FAttribute::Enum { kind, value } => match spec_lookup_attr(pairs, kind) {
            Some(name) => spec_enum_param_attr(name, value),
            None => ParameterAttribute::UnknownAttribute,
        },
        FAttribute::String { kind, value } => ParameterAttribute::StringAttribute { kind, value },
        FAttribute::Other => ParameterAttribute::UnknownAttribute,
    }
}

impl FunctionAttribute {
    /// Split the payload of an `allocsize` attribute: the element size is
    /// the upper 32 bits; the lower 32 bits give the element count, with
    /// all-ones standing for "no count".
    fn decode_alloc_size(value: u64) -> (r: FunctionAttribute)
        ensures
            r == spec_enum_function_attr("allocsize"@, value),
    {
        proof {
            reveal_strlit("alignstack");
            reveal_strlit("allocsize");
            assert("alignstack"@.len() == 10);
            assert("allocsize"@.len() == 9);
            assert(value >> 32 <= 0xFFFF_FFFFu64) by (bit_vector);
            assert(value & 0xFFFF_FFFF <= 0xFFFF_FFFFu64) by (bit_vector);
        }
        let elt_size = (value >> 32) as u32;
        let low = value & 0xFFFF_FFFF;
        let num_elts = if low == 0xFFFF_FFFF {
            None
        } else {
            Some(low as u32)
        };
        FunctionAttribute::AllocSize { elt_size, num_elts }
    }

    /// Decode one foreign attribute slot in the function-attribute
    /// namespace. Never fails: an enumerated attribute the catalog does
    /// not track, and an attribute that is neither enumerated nor a
    /// string, degrade to `UnknownAttribute`.
    pub fn from_llvm_ref(a: &FAttribute, attrsdata: &AttributesData) -> (r: Self)
        ensures
            r == spec_decode_function_attr(attrsdata.fn_pairs(), *a),
    {
        match a {
            FAttribute::Enum { kind, value } => {
                match attrsdata.lookup_function_attr(*kind) {
                    Some(sref) => {
                        let s = sref.to_owned();
                        let value = *value;
                        if s == "alignstack".to_owned() {
                            FunctionAttribute::AlignStack(value)
                        } else if s == "allocsize".to_owned() {
                            Self::decode_alloc_size(value)
                        } else if s == "alwaysinline".to_owned() {
                            FunctionAttribute::AlwaysInline
                        } else if s == "builtin".to_owned() {
                            FunctionAttribute::Builtin
                        } else if s == "cold".to_owned() {
                            FunctionAttribute::Cold
                        } else if s == "convergent".to_owned() {
                            FunctionAttribute::Convergent
                        } else if s == "inaccessiblememonly".to_owned() {
                            FunctionAttribute::InaccessibleMemOnly
                        } else if s == "inaccessiblemem_or_argmemonly".to_owned() {
                            FunctionAttribute::InaccessibleMemOrArgMemOnly
                        } else if s == "inlinehint".to_owned() {
                            FunctionAttribute::InlineHint
                        } else if s == "jumptable".to_owned() {
                            FunctionAttribute::JumpTable
                        } else if s == "minsize".to_owned() {
                            FunctionAttribute::MinimizeSize
                        } else if s == "naked".to_owned() {
                            FunctionAttribute::Naked
                        } else if s == "nobuiltin".to_owned() {
                            FunctionAttribute::NoBuiltin
                        } else if s == "nocf_check".to_owned() {
                            FunctionAttribute::NoCFCheck
                        } else if s == "noduplicate".to_owned() {
                            FunctionAttribute::NoDuplicate
                        } else if s == "nofree".to_owned() {
                            FunctionAttribute::NoFree
                        } else if s == "noimplicitfloat".to_owned() {
                            FunctionAttribute::NoImplicitFloat
                        } else if s == "noinline".to_owned() {
                            FunctionAttribute::NoInline
                        } else if s == "nomerge".to_owned() {
                            FunctionAttribute::NoMerge
                        } else if s == "nonlazybind".to_owned() {
                            FunctionAttribute::NonLazyBind
                        } else if s == "noredzone".to_owned() {
                            FunctionAttribute::NoRedZone
                        } else if s == "noreturn".to_owned() {
                            FunctionAttribute::NoReturn
                        } else if s == "norecurse".to_owned() {
                            FunctionAttribute::NoRecurse
                        } else if s == "willreturn".to_owned() {
                            FunctionAttribute::WillReturn
                        } else if s == "returns_twice".to_owned() {
                            FunctionAttribute::ReturnsTwice
                        } else if s == "nosync".to_owned() {
                            FunctionAttribute::NoSync
                        } else if s == "nounwind".to_owned() {
                            FunctionAttribute::NoUnwind
                        } else if s == "null_pointer_is_valid".to_owned() {
                            FunctionAttribute::NullPointerIsValid
                        } else if s == "optforfuzzing".to_owned() {
                            FunctionAttribute::OptForFuzzing
                        } else if s == "optnone".to_owned() {
                            FunctionAttribute::OptNone
                        } else if s == "optsize".to_owned() {
                            FunctionAttribute::OptSize
                        } else if s == "readnone".to_owned() {
                            FunctionAttribute::ReadNone
                        } else if s == "readonly".to_owned() {
                            FunctionAttribute::ReadOnly
                        } else if s == "writeonly".to_owned() {
                            FunctionAttribute::WriteOnly
                        } else if s == "argmemonly".to_owned() {
                            FunctionAttribute::ArgMemOnly
                        } else if s == "safestack".to_owned() {
                            FunctionAttribute::SafeStack
                        } else if s == "sanitize_address".to_owned() {
                            FunctionAttribute::SanitizeAddress
                        } else if s == "sanitize_memory".to_owned() {
                            FunctionAttribute::SanitizeMemory
                        } else if s == "sanitize_thread".to_owned() {
                            FunctionAttribute::SanitizeThread
                        } else if s == "sanitize_hwaddress".to_owned() {
                            FunctionAttribute::SanitizeHWAddress
                        } else if s == "sanitize_memtag".to_owned() {
                            FunctionAttribute::SanitizeMemTag
                        } else if s == "shadowcallstack".to_owned() {
                            FunctionAttribute::ShadowCallStack
                        } else if s == "speculative_load_hardening".to_owned() {
                            FunctionAttribute::SpeculativeLoadHardening
                        } else if s == "speculatable".to_owned() {
                            FunctionAttribute::Speculatable
                        } else if s == "ssp".to_owned() {
                            FunctionAttribute::StackProtect
                        } else if s == "sspreq".to_owned() {
                            FunctionAttribute::StackProtectReq
                        } else if s == "sspstrong".to_owned() {
                            FunctionAttribute::StackProtectStrong
                        } else if s == "strictfp".to_owned() {
                            FunctionAttribute::StrictFP
                        } else if s == "uwtable".to_owned() {
                            FunctionAttribute::UWTable
                        } else {
                            FunctionAttribute::UnknownAttribute
                        }
                    },
                    None => FunctionAttribute::UnknownAttribute,
                }
            },
            FAttribute::String { kind, value } => FunctionAttribute::StringAttribute {
                kind: kind.clone(),
                value: value.clone(),
            },
            FAttribute::Other => FunctionAttribute::UnknownAttribute,
        }
    }
}

impl ParameterAttribute {
    /// Decode one foreign attribute slot in the parameter-attribute
    /// namespace. Never fails: unknown attributes degrade to
    /// `UnknownAttribute`.
    pub fn from_llvm_ref(a: &FAttribute, attrsdata: &AttributesData) -> (r: Self)
        ensures
            r == spec_decode_param_attr(attrsdata.param_pairs(), *a),
    {
        match a {
            FAttribute::Enum { kind, value } => {
                match attrsdata.lookup_param_attr(*kind) {
                    Some(sref) => {
                        let s = sref.to_owned();
                        let value = *value;
                        if s == "zeroext".to_owned() {
                            ParameterAttribute::ZeroExt
                        } else if s == "signext".to_owned() {
                            ParameterAttribute::SignExt
                        } else if s == "inreg".to_owned() {
                            ParameterAttribute::InReg
                        } else if s == "byval".to_owned() {
                            ParameterAttribute::ByVal(value)
                        } else if s == "preallocated".to_owned() {
                            ParameterAttribute::Preallocated
                        } else if s == "inalloca".to_owned() {
                            ParameterAttribute::InAlloca
                        } else if s == "sret".to_owned() {
                            ParameterAttribute::SRet(value)
                        } else if s == "align".to_owned() {
                            ParameterAttribute::Alignment(value)
                        } else if s == "noalias".to_owned() {
                            ParameterAttribute::NoAlias
                        } else if s == "nocapture".to_owned() {
                            ParameterAttribute::NoCapture
                        } else if s == "nofree".to_owned() {
                            ParameterAttribute::NoFree
                        } else if s == "nest".to_owned() {
                            ParameterAttribute::Nest
                        } else if s == "returned".to_owned() {
                            ParameterAttribute::Returned
                        } else if s == "nonnull".to_owned() {
                            ParameterAttribute::NonNull
                        } else if s == "dereferenceable".to_owned() {
                            ParameterAttribute::Dereferenceable(value)
                        } else if s == "dereferenceable_or_null".to_owned() {
                            ParameterAttribute::DereferenceableOrNull(value)
                        } else if s == "swiftself".to_owned() {
                            ParameterAttribute::SwiftSelf
                        } else if s == "swifterror".to_owned() {
                            ParameterAttribute::SwiftError
                        } else if s == "immarg".to_owned() {
                            ParameterAttribute::ImmArg
                        } else if s == "noundef".to_owned() {
                            ParameterAttribute::NoUndef
                        } else {
                            ParameterAttribute::UnknownAttribute
                        }
                    },
                    None => ParameterAttribute::UnknownAttribute,
                }
            },
            FAttribute::String { kind, value } => ParameterAttribute::StringAttribute {
                kind: kind.clone(),
                value: value.clone(),
            },
            FAttribute::Other => ParameterAttribute::UnknownAttribute,
        }
    }
}

} // verus!

verus! {

use crate::name::Name;

/// Per-function decoding state: the first-pass name maps. `bb_names`
/// maps each basic block, by its index in the function, to its `Name`;
/// `val_names` maps each foreign value handle to the `Name` of the
/// parameter or instruction result it denotes, `None` for handles the
/// first pass did not register. Both are fully populated before the
/// second (translating) pass begins, and the second pass never consumes
/// the counter.
pub struct FunctionContext {
    pub bb_names: Vec<Name>,
    pub val_names: Vec<Option<Name>>,
}

} // verus!

verus! {

/// What a list of foreign attribute slots decodes to in the
/// parameter-attribute namespace.
pub open spec fn spec_decode_param_attrs(pairs: Seq<(u32, String)>, attrs: Seq<FAttribute>) -> Seq<
    ParameterAttribute,
> {
    Seq::new(
        attrs.len(),
        |k: int|
            if 0 <= k < attrs.len() {
                spec_decode_param_attr(pairs, attrs[k])
            } else {
                ParameterAttribute::UnknownAttribute
            },
    )
}

/// What a list of foreign attribute slots decodes to in the
/// function-attribute namespace.
pub open spec fn spec_decode_function_attrs(pairs: Seq<(u32, String)>, attrs: Seq<
    FAttribute,
>) -> Seq<FunctionAttribute> {
    Seq::new(
        attrs.len(),
        |k: int|
            if 0 <= k < attrs.len() {
                spec_decode_function_attr(pairs, attrs[k])
            } else {
                FunctionAttribute::UnknownAttribute
            },
    )
}

/// Decode a list of foreign attribute slots in the parameter-attribute
/// namespace. Total: unknown attributes degrade, none fails.
pub fn decode_param_attrs(attrs: &Vec<FAttribute>, attrsdata: &AttributesData) -> (r: Vec<
    ParameterAttribute,
>)
    ensures
        r@ == spec_decode_param_attrs(attrsdata.param_pairs(), attrs@),
{
    let mut r: Vec<ParameterAttribute> = Vec::new();
    let mut k: usize = 0;
    while k < attrs.len()
        invariant
            0 <= k <= attrs@.len(),
            r@.len() == k,
            forall|kk: int|
                0 <= kk < k ==> #[trigger] r@[kk] == spec_decode_param_attr(
                    attrsdata.param_pairs(),
                    attrs@[kk],
                ),
        decreases attrs@.len() - k,
    {
        r.push(ParameterAttribute::from_llvm_ref(&attrs[k], attrsdata));
        k = k + 1;
    }
    proof {
        assert(r@ =~= spec_decode_param_attrs(attrsdata.param_pairs(), attrs@));
    }
    r
}

/// Decode a list of foreign attribute slots in the function-attribute
/// namespace. Total: unknown attributes degrade, none fails.
pub fn decode_function_attrs(attrs: &Vec<FAttribute>, attrsdata: &AttributesData) -> (r: Vec<
    FunctionAttribute,
>)
    ensures
        r@ == spec_decode_function_attrs(attrsdata.fn_pairs(), attrs@),
{
    let mut r: Vec<FunctionAttribute> = Vec::new();
    let mut k: usize = 0;
    while k < attrs.len()
        invariant
            0 <= k <= attrs@.len(),
            r@.len() == k,
            forall|kk: int|
                0 <= kk < k ==> #[trigger] r@[kk] == spec_decode_function_attr(
                    attrsdata.fn_pairs(),
                    attrs@[kk],
                ),
        decreases attrs@.len() - k,
    {
        r.push(FunctionAttribute::from_llvm_ref(&attrs[k], attrsdata));
        k = k + 1;
    }
    proof {
        assert(r@ =~= spec_decode_function_attrs(attrsdata.fn_pairs(), attrs@));
    }
    r
}

} // verus!

verus! {

use crate::basicblock::block_reg_name;
use crate::basicblock::lemma_p1_ctr_block_ge_start;
use crate::basicblock::p1_block_name;
use crate::basicblock::p1_ctr_block;
use crate::foreign::is_registered;
use crate::foreign::is_registering_instr;
use crate::foreign::FBlock;
use crate::foreign::FFunction;
use crate::foreign::FModule;
use crate::foreign::FTypeDesc;
use crate::name::NameV;

/// The counter value after the first pass has named the first `k`
/// parameters. Parameters are named first, before any block, so the
/// counter starts at zero here.
pub open spec fn p1_ctr_params(f: FFunction, k: int) -> nat
    decreases k,
{
    if k <= 0 || k > f.parameters@.len() {
        0
    } else {
        Name::spec_ctr_after(f.parameters@[k - 1].name@, p1_ctr_params(f, k - 1))
    }
}

/// The name the first pass assigns to parameter `k`.
pub open spec fn p1_param_name(f: FFunction, k: int) -> NameV {
    Name::spec_name_or_num(f.parameters@[k].name@, p1_ctr_params(f, k))
}

/// The counter value after all parameters: the count of unnamed
/// parameters, where the walk over the blocks starts.
pub open spec fn p1_ctr_after_params(f: FFunction) -> nat {
    p1_ctr_params(f, f.parameters@.len() as int)
}

/// The counter value after the first pass has walked the first `b`
/// blocks, starting from `start`.
pub open spec fn p1_ctr_blocks(ts: Seq<FTypeDesc>, blocks: Seq<FBlock>, start: nat, b: int) -> nat
    decreases b,
{
    if b <= 0 || b > blocks.len() {
        start
    } else {
        p1_ctr_block(ts, blocks[b - 1], p1_ctr_blocks(ts, blocks, start, b - 1))
    }
}

/// The counter value at which the first pass enters block `bi` of the
/// function.
pub open spec fn p1_fn_block_start(ts: Seq<FTypeDesc>, f: FFunction, bi: int) -> nat {
    p1_ctr_blocks(ts, f.blocks@, p1_ctr_after_params(f), bi)
}

/// The name the first pass assigns to block `bi` of the function.
pub open spec fn p1_fn_block_name(ts: Seq<FTypeDesc>, f: FFunction, bi: int) -> NameV {
    p1_block_name(f.blocks@[bi], p1_fn_block_start(ts, f, bi))
}

/// The counter value after the whole first pass over the function.
pub open spec fn p1_ctr_final(ts: Seq<FTypeDesc>, f: FFunction) -> nat {
    p1_ctr_blocks(ts, f.blocks@, p1_ctr_after_params(f), f.blocks@.len() as int)
}

/// The parameter walk of the counter never decreases.
pub proof fn lemma_p1_ctr_params_mono(f: FFunction, k1: int, k2: int)
    requires
        0 <= k1 <= k2 <= f.parameters@.len(),
    ensures
        p1_ctr_params(f, k1) <= p1_ctr_params(f, k2),
    decreases k2 - k1,
{
    if k1 < k2 {
        lemma_p1_ctr_params_mono(f, k1, k2 - 1);
    }
}

/// The block walk of the counter never decreases.
pub proof fn lemma_p1_ctr_blocks_mono(
    ts: Seq<FTypeDesc>,
    blocks: Seq<FBlock>,
    start: nat,
    b1: int,
    b2: int,
)
    requires
        0 <= b1 <= b2 <= blocks.len(),
    ensures
        p1_ctr_blocks(ts, blocks, start, b1) <= p1_ctr_blocks(ts, blocks, start, b2),
    decreases b2 - b1,
{
    if b1 < b2 {
        lemma_p1_ctr_blocks_mono(ts, blocks, start, b1, b2 - 1);
        lemma_p1_ctr_block_ge_start(ts, blocks[b2 - 1], p1_ctr_blocks(ts, blocks, start, b2 - 1));
    }
}

/// The first-pass block-name map `bb` is fully and correctly populated
/// for function `f`: one name per block, each the name the first pass
/// assigns.
pub open spec fn p1_bb_names_ok(ts: Seq<FTypeDesc>, f: FFunction, bb: Seq<Name>) -> bool {
    &&& bb.len() == f.blocks@.len()
    &&& forall|bi: int| 0 <= bi < bb.len() ==> (#[trigger] bb[bi])@ == p1_fn_block_name(ts, f, bi)
}

/// The first-pass value-name map `vn` is fully and correctly populated
/// for function `f`: every parameter and every result-producing
/// instruction carries the name the first pass assigns, and nothing else
/// is registered.
pub open spec fn p1_val_names_ok(m: FModule, f: FFunction, vn: Seq<Option<Name>>) -> bool {
    &&& vn.len() == m.values@.len()
    &&& forall|k: int|
        0 <= k < f.parameters@.len() ==> (vn[(#[trigger] f.parameters@[k]).value as int]
            matches Some(n) && n@ == p1_param_name(f, k))
    &&& forall|bi: int, j: int, v: int|
        #[trigger] is_registering_instr(m.types@, f, bi, j, v) ==> (vn[v] matches Some(n) && n@
            == block_reg_name(m.types@, f.blocks@[bi], p1_fn_block_start(m.types@, f, bi), j))
    &&& forall|v: int| 0 <= v < vn.len() && (#[trigger] vn[v]) is Some ==> is_registered(m.types@, f, v)
}

} // verus!

verus! {

use crate::basicblock::bblock_decodable;
use crate::basicblock::bblock_matches;
use crate::basicblock::block_reg;
use crate::basicblock::first_pass_names;
use crate::basicblock::lemma_bblock_decodable_congruent;
use crate::basicblock::lemma_bblock_matches_extend;
use crate::basicblock::same_map_obs;
use crate::basicblock::BasicBlock;
use crate::constant::fshape_const;
use crate::constant::opt_str_view;
use crate::constant::ConstantRef;
use crate::debugloc::clone_opt_debugloc;
use crate::debugloc::opt_debugloc_view;
use crate::debugloc::DebugLoc;
use crate::foreign::wf_fmodule;
use crate::module::Comdat;
use crate::module::DLLStorageClass;
use crate::module::Linkage;
use crate::module::ModuleContext;
use crate::module::Visibility;
use crate::types::fshape_ty;
use crate::types::TypeRef;
use crate::types::Types;

/// A function parameter: its name, its type, and its attributes.
#[derive(PartialEq, Clone, Debug)]
pub struct Parameter {
    pub name: Name,
    pub ty: TypeRef,
    pub attributes: Vec<ParameterAttribute>,
}

impl Parameter {
    /// The type of a parameter is its declared type.
    pub fn get_type(&self, types: &Types) -> (r: TypeRef)
        ensures
            r == self.ty,
    {
        self.ty
    }
}

/// A function of the owned model: its parameters, attribute lists, and
/// ordered basic blocks, all exclusively owned, plus its function-level
/// metadata. A function's identifier is unique within a module.
#[derive(PartialEq, Clone, Debug)]
pub struct Function {
    pub name: String,
    pub parameters: Vec<Parameter>,
    pub is_var_arg: bool,
    pub return_type: TypeRef,
    pub basic_blocks: Vec<BasicBlock>,
    pub function_attributes: Vec<FunctionAttribute>,
    pub return_attributes: Vec<ParameterAttribute>,
    pub linkage: Linkage,
    pub visibility: Visibility,
    pub dll_storage_class: DLLStorageClass,
    pub calling_convention: CallingConvention,
    pub section: Option<String>,
    pub comdat: Option<Comdat>,
    pub alignment: u32,
    pub garbage_collector_name: Option<String>,
    /// The exception personality, interned as a constant.
    pub personality_function: Option<ConstantRef>,
    pub debugloc: Option<DebugLoc>,
}

/// The decoded parameter `p` is exactly what parameter `k` of foreign
/// function `f` denotes.
pub open spec fn param_matches(
    p: Parameter,
    m: FModule,
    f: FFunction,
    k: int,
    ctx: ModuleContext,
) -> bool {
    &&& p.name@ == p1_param_name(f, k)
    &&& ctx.types.valid_ref(p.ty)
    &&& ctx.types.shape_of(p.ty) == fshape_ty(m.types@, f.parameters@[k].ty as int)
    &&& p.attributes@ == spec_decode_param_attrs(
        ctx.attrsdata.param_pairs(),
        f.parameters@[k].attributes@,
    )
}

/// A block-name map carrying no information beyond the block count: what
/// decodability observes of the real map.
pub open spec fn p1_len_bb(f: FFunction) -> Seq<Name> {
    Seq::new(f.blocks@.len(), |bi: int| Name::Number(0usize))
}

/// A value-name map carrying no information beyond which handles the
/// first pass registers: what decodability observes of the real map.
pub open spec fn p1_reg_vn(m: FModule, f: FFunction) -> Seq<Option<Name>> {
    Seq::new(
        m.values@.len(),
        |v: int|
            if is_registered(m.types@, f, v) {
                Some(Name::Number(0usize))
            } else {
                None
            },
    )
}

/// Whether a foreign function decodes: every block must decode against
/// the first-pass maps — which, for decodability, are characterized by
/// the block count and the set of registered handles alone.
pub open spec fn function_decodable(m: FModule, f: FFunction) -> bool {
    forall|bi: int|
        0 <= bi < f.blocks@.len() ==> bblock_decodable(
            m,
            p1_len_bb(f),
            p1_reg_vn(m, f),
            #[trigger] f.blocks@[bi],
        )
}

/// The decoded function `x` is exactly what foreign function `f`
/// denotes: parameters named first by the shared counter, blocks decoded
/// against the complete first-pass maps, attributes through the catalog,
/// and the function-level metadata fields carried over.
pub open spec fn function_matches(x: Function, m: FModule, f: FFunction, ctx: ModuleContext) -> bool {
    &&& x.name@ == f.name@
    &&& x.parameters@.len() == f.parameters@.len()
    &&& forall|k: int|
        0 <= k < f.parameters@.len() ==> param_matches(#[trigger] x.parameters@[k], m, f, k, ctx)
    &&& x.is_var_arg == f.is_var_arg
    &&& ctx.types.valid_ref(x.return_type)
    &&& ctx.types.shape_of(x.return_type) == fshape_ty(m.types@, f.return_type as int)
    &&& x.basic_blocks@.len() == f.blocks@.len()
    &&& exists|bb: Seq<Name>, vn: Seq<Option<Name>>|
        #![trigger p1_bb_names_ok(m.types@, f, bb), p1_val_names_ok(m, f, vn)]
        p1_bb_names_ok(m.types@, f, bb) && p1_val_names_ok(m, f, vn) && (forall|bi: int|
            0 <= bi < f.blocks@.len() ==> bblock_matches(
                #[trigger] x.basic_blocks@[bi],
                m,
                bb,
                vn,
                f.blocks@[bi],
                bi,
                ctx,
            ))
    &&& x.function_attributes@ == spec_decode_function_attrs(
        ctx.attrsdata.fn_pairs(),
        f.function_attributes@,
    )
    &&& x.return_attributes@ == spec_decode_param_attrs(
        ctx.attrsdata.param_pairs(),
        f.return_attributes@,
    )
    &&& x.linkage == f.linkage
    &&& x.visibility == f.visibility
    &&& x.dll_storage_class == f.dll_storage_class
    &&& x.calling_convention == CallingConvention::spec_from_u32(f.calling_convention)
    &&& opt_str_view(x.section) == opt_str_view(f.section)
    &&& x.comdat == f.comdat
    &&& x.alignment == f.alignment
    &&& opt_str_view(x.garbage_collector_name) == opt_str_view(f.garbage_collector_name)
    &&& match f.personality_function {
        Some(c) => x.personality_function matches Some(pr) && ctx.constants.valid_ref(pr)
            && ctx.constants.shape_of(ctx.types, pr) == fshape_const(
            m.constants@,
            m.types@,
            c as int,
        ),
        None => x.personality_function is None,
    }
    &&& opt_debugloc_view(x.debugloc) == opt_debugloc_view(f.debugloc)
}

/// Copy an optional string out of the snapshot.
fn clone_opt_string(o: &Option<String>) -> (r: Option<String>)
    ensures
        opt_str_view(r) == opt_str_view(*o),
{
    match o {
        Some(s) => Some(s.clone()),
        None => None,
    }
}

} // verus!

verus! {

use crate::foreign::wf_fblock;
use crate::foreign::wf_ffunction;

/// Decode the parameters of one foreign function: names from the shared
/// per-function counter, types interned, attributes through the catalog;
/// register every parameter in the value-name map, which starts empty.
#[verifier::loop_isolation(false)]
fn decode_parameters(f: &FFunction, m: &FModule, ctx: &mut ModuleContext) -> (r: (
    Vec<Parameter>,
    Vec<Option<Name>>,
    usize,
))
    requires
        old(ctx).wf(*m),
        wf_fmodule(*m),
        wf_ffunction(*m, *f),
        p1_ctr_final(m.types@, *f) <= usize::MAX,
    ensures
        final(ctx).wf(*m),
        final(ctx).extends(*old(ctx)),
        r.0@.len() == f.parameters@.len(),
        forall|k: int|
            0 <= k < f.parameters@.len() ==> param_matches(#[trigger] r.0@[k], *m, *f, k, *final(ctx)),
        r.1@.len() == m.values@.len(),
        forall|k: int|
            0 <= k < f.parameters@.len() ==> (r.1@[(#[trigger] f.parameters@[k]).value as int]
                matches Some(n) && n@ == p1_param_name(*f, k)),
        forall|v: int|
            0 <= v < r.1@.len() && (#[trigger] r.1@[v]) is Some ==> exists|kk: int|
                0 <= kk < f.parameters@.len() && (#[trigger] f.parameters@[kk]).value as int == v,
        r.2 == p1_ctr_after_params(*f),
{
    let ghost ts = m.types@;
    let ghost gf = *f;
    let mut local_ctr: usize = 0;
    let mut val_names: Vec<Option<Name>> = Vec::new();
    let mut vi: usize = 0;
    while vi < m.values.len()
        invariant
            0 <= vi <= m.values@.len(),
            val_names@.len() == vi,
            forall|v: int| 0 <= v < vi ==> val_names@[v] is None,
        decreases m.values@.len() - vi,
    {
        val_names.push(None);
        vi = vi + 1;
    }
    let mut parameters: Vec<Parameter> = Vec::new();
    let mut k: usize = 0;
    while k < f.parameters.len()
        invariant
            ctx.wf(*m),
            ctx.extends(*old(ctx)),
            0 <= k <= gf.parameters@.len(),
            local_ctr == p1_ctr_params(gf, k as int),
            parameters@.len() == k,
            forall|kk: int|
                0 <= kk < k ==> param_matches(#[trigger] parameters@[kk], *m, gf, kk, *ctx),
            val_names@.len() == m.values@.len(),
            forall|kk: int|
                0 <= kk < k ==> (val_names@[(#[trigger] gf.parameters@[kk]).value as int]
                    matches Some(n) && n@ == p1_param_name(gf, kk)),
            forall|v: int|
                0 <= v < val_names@.len() && (#[trigger] val_names@[v]) is Some ==> exists|kk: int|
                    0 <= kk < k && (#[trigger] gf.parameters@[kk]).value as int == v,
        decreases gf.parameters@.len() - k,
    {
        proof {
            lemma_p1_ctr_params_mono(gf, k as int + 1, gf.parameters@.len() as int);
            lemma_p1_ctr_blocks_mono(
                ts,
                gf.blocks@,
                p1_ctr_after_params(gf),
                0,
                gf.blocks@.len() as int,
            );
        }
        let p = &f.parameters[k];
        let name = Name::name_or_num(p.name.clone(), &mut local_ctr);
        let ghost c_pre = *ctx;
        let ty = ctx.types.intern_type(&m.types, p.ty);
        proof {
            c_pre.constants.lemma_types_extend(c_pre.types, ctx.types);
            ModuleContext::lemma_extends_trans(ctx, &c_pre, old(ctx));
            assert forall|kk: int| 0 <= kk < k implies param_matches(
                #[trigger] parameters@[kk],
                *m,
                gf,
                kk,
                *ctx,
            ) by {
                ctx.types.lemma_extends_shape(c_pre.types, parameters@[kk].ty);
            }
        }
        let attributes = decode_param_attrs(&p.attributes, &ctx.attrsdata);
        let ghost before = val_names@;
        let v = p.value;
        let ghost nv = name@;
        val_names[v] = Some(name.clone());
        parameters.push(Parameter { name, ty, attributes });
        k = k + 1;
        proof {
            assert forall|kk: int| 0 <= kk < k implies (val_names@[(
            #[trigger] gf.parameters@[kk]).value as int] matches Some(n) && n@ == p1_param_name(
                gf,
                kk,
            )) by {
                if kk < k - 1 {
                    assert(gf.parameters@[kk].value != gf.parameters@[k - 1].value);
                    assert(val_names@[gf.parameters@[kk].value as int] == before[gf.parameters@[kk].value as int]);
                } else {
                    assert(val_names@[v as int] matches Some(n) && n@ == nv);
                }
            }
        }
    }
    (parameters, val_names, local_ctr)
}

/// First pass over a foreign function's body: walk the blocks in
/// declared order and record a name for every block and every
/// result-producing instruction, continuing the counter the parameters
/// started. On return, both name maps are fully populated, and nothing is
/// registered that the first pass does not register.
#[verifier::loop_isolation(false)]
fn first_pass_function(
    f: &FFunction,
    m: &FModule,
    local_ctr: &mut usize,
    val_names: &mut Vec<Option<Name>>,
) -> (bb_names: Vec<Name>)
    requires
        wf_fmodule(*m),
        wf_ffunction(*m, *f),
        p1_ctr_final(m.types@, *f) <= usize::MAX,
        *old(local_ctr) == p1_ctr_after_params(*f),
        old(val_names)@.len() == m.values@.len(),
        forall|k: int|
            0 <= k < f.parameters@.len() ==> (old(val_names)@[(
            #[trigger] f.parameters@[k]).value as int] matches Some(n) && n@ == p1_param_name(
                *f,
                k,
            )),
        forall|v: int|
            0 <= v < old(val_names)@.len() && (#[trigger] old(val_names)@[v]) is Some ==> exists|
                kk: int,
            | 0 <= kk < f.parameters@.len() && (#[trigger] f.parameters@[kk]).value as int == v,
    ensures
        p1_bb_names_ok(m.types@, *f, bb_names@),
        final(val_names)@.len() == m.values@.len(),
        p1_val_names_ok(*m, *f, final(val_names)@),
        *final(local_ctr) == p1_ctr_final(m.types@, *f),
{
    let ghost ts = m.types@;
    let ghost gf = *f;
    let ghost c0 = p1_ctr_after_params(gf);
    let mut bb_names: Vec<Name> = Vec::new();
    let mut bi: usize = 0;
    while bi < f.blocks.len()
        invariant
            0 <= bi <= gf.blocks@.len(),
            *local_ctr == p1_ctr_blocks(ts, gf.blocks@, c0, bi as int),
            bb_names@.len() == bi,
            forall|b2: int|
                0 <= b2 < bi ==> (#[trigger] bb_names@[b2])@ == p1_fn_block_name(ts, gf, b2),
            val_names@.len() == m.values@.len(),
            forall|kk: int|
                0 <= kk < gf.parameters@.len() ==> (val_names@[(
                #[trigger] gf.parameters@[kk]).value as int] matches Some(n) && n@
                    == p1_param_name(gf, kk)),
            forall|b2: int, j: int, v: int|
                #[trigger] is_registering_instr(ts, gf, b2, j, v) && b2 < bi ==> (val_names@[v]
                    matches Some(n) && n@ == block_reg_name(
                    ts,
                    gf.blocks@[b2],
                    p1_fn_block_start(ts, gf, b2),
                    j,
                )),
            forall|v: int|
                0 <= v < val_names@.len() && (#[trigger] val_names@[v]) is Some ==> (exists|
                    kk: int,
                | 0 <= kk < gf.parameters@.len() && gf.parameters@[kk].value as int == v) || (
                exists|b2: int, j: int| is_registering_instr(ts, gf, b2, j, v) && b2 < bi),
        decreases gf.blocks@.len() - bi,
    {
        let b = &f.blocks[bi];
        let ghost gb = gf.blocks@[bi as int];
        proof {
            assert(wf_fblock(*m, gb));
            assert forall|j1: int, j2: int, v1: int, v2: int|
                #[trigger] block_reg(ts, gb, j1, v1) && #[trigger] block_reg(ts, gb, j2, v2) && j1
                    != j2 implies v1 != v2 by {
                assert(is_registering_instr(ts, gf, bi as int, j1, v1));
                assert(is_registering_instr(ts, gf, bi as int, j2, v2));
            }
            lemma_p1_ctr_blocks_mono(ts, gf.blocks@, c0, bi as int + 1, gf.blocks@.len() as int);
            assert(p1_ctr_blocks(ts, gf.blocks@, c0, bi as int + 1) == p1_ctr_block(
                ts,
                gb,
                *local_ctr as nat,
            ));
        }
        let ghost vn_before = val_names@;
        let bbname = first_pass_names(&m.types, b, local_ctr, val_names);
        bb_names.push(bbname);
        bi = bi + 1;
        proof {
            assert forall|b2: int, j: int, v: int|
                #[trigger] is_registering_instr(ts, gf, b2, j, v) && b2 < bi implies (
            val_names@[v] matches Some(n) && n@ == block_reg_name(
                ts,
                gf.blocks@[b2],
                p1_fn_block_start(ts, gf, b2),
                j,
            )) by {
                if b2 == bi - 1 {
                    assert(block_reg(ts, gb, j, v));
                } else {
                    assert(!(exists|j2: int| block_reg(ts, gb, j2, v))) by {
                        if exists|j2: int| block_reg(ts, gb, j2, v) {
                            let j2 = choose|j2: int| block_reg(ts, gb, j2, v);
                            assert(is_registering_instr(ts, gf, bi - 1, j2, v));
                        }
                    }
                    assert(val_names@[v] == vn_before[v]);
                }
            }
            assert forall|kk: int| 0 <= kk < gf.parameters@.len() implies (val_names@[(
            #[trigger] gf.parameters@[kk]).value as int] matches Some(n) && n@ == p1_param_name(
                gf,
                kk,
            )) by {
                let v = gf.parameters@[kk].value as int;
                assert(!(exists|j2: int| block_reg(ts, gb, j2, v))) by {
                    if exists|j2: int| block_reg(ts, gb, j2, v) {
                        let j2 = choose|j2: int| block_reg(ts, gb, j2, v);
                        assert(is_registering_instr(ts, gf, bi - 1, j2, v));
                    }
                }
                assert(val_names@[v] == vn_before[v]);
            }
            assert forall|v: int|
                0 <= v < val_names@.len() && (#[trigger] val_names@[v]) is Some implies (exists|
                    kk: int,
                | 0 <= kk < gf.parameters@.len() && gf.parameters@[kk].value as int == v) || (
            exists|b2: int, j: int| is_registering_instr(ts, gf, b2, j, v) && b2 < bi) by {
                if !(exists|j2: int| block_reg(ts, gb, j2, v)) {
                    assert(val_names@[v] == vn_before[v]);
                } else {
                    let j2 = choose|j2: int| block_reg(ts, gb, j2, v);
                    assert(is_registering_instr(ts, gf, bi - 1, j2, v) && bi - 1 < bi);
                }
            }
        }
    }
    proof {
        assert(p1_bb_names_ok(ts, gf, bb_names@));
        assert forall|b2: int, j: int, v: int|
            #[trigger] is_registering_instr(ts, gf, b2, j, v) implies (val_names@[v] matches Some(
            n,
        ) && n@ == block_reg_name(ts, gf.blocks@[b2], p1_fn_block_start(ts, gf, b2), j)) by {
            assert(b2 < gf.blocks@.len());
        }
    }
    bb_names
}

/// Second pass over a foreign function's body: translate every block
/// against the complete first-pass maps. Fails — with no partial result —
/// exactly when some block does not decode.
#[verifier::loop_isolation(false)]
fn decode_body(
    f: &FFunction,
    m: &FModule,
    ctx: &mut ModuleContext,
    func_ctx: &FunctionContext,
) -> (r: Result<Vec<BasicBlock>, DecodeError>)
    requires
        old(ctx).wf(*m),
        wf_fmodule(*m),
        wf_ffunction(*m, *f),
        p1_bb_names_ok(m.types@, *f, func_ctx.bb_names@),
        p1_val_names_ok(*m, *f, func_ctx.val_names@),
    ensures
        final(ctx).wf(*m),
        final(ctx).extends(*old(ctx)),
        r.is_ok() <==> function_decodable(*m, *f),
        r matches Ok(blocks) ==> blocks@.len() == f.blocks@.len() && (forall|b2: int|
            0 <= b2 < f.blocks@.len() ==> bblock_matches(
                #[trigger] blocks@[b2],
                *m,
                func_ctx.bb_names@,
                func_ctx.val_names@,
                f.blocks@[b2],
                b2,
                *final(ctx),
            )),
{
    let ghost ts = m.types@;
    let ghost gf = *f;
    let ghost gbb = func_ctx.bb_names@;
    let ghost gvn = func_ctx.val_names@;
    proof {
        // What decodability observes is the same of the real maps and of
        // the canonical ones.
        assert(same_map_obs(gbb, gvn, p1_len_bb(gf), p1_reg_vn(*m, gf))) by {
            assert forall|v: int| 0 <= v < gvn.len() implies ((#[trigger] gvn[v]) is Some <==> (
            #[trigger] p1_reg_vn(*m, gf)[v]) is Some) by {
                if gvn[v] is Some {
                    assert(is_registered(ts, gf, v));
                }
                if is_registered(ts, gf, v) {
                    if exists|kk: int|
                        0 <= kk < gf.parameters@.len() && (#[trigger] gf.parameters@[kk]).value
                            as int == v {
                        let kk = choose|kk: int|
                            0 <= kk < gf.parameters@.len() && (#[trigger] gf.parameters@[kk]).value
                                as int == v;
                        assert(gvn[v] is Some);
                    } else {
                        let (b2, j) = choose|b2: int, j: int|
                            #[trigger] is_registering_instr(ts, gf, b2, j, v);
                        assert(gvn[v] is Some);
                    }
                }
            }
        }
    }
    let mut basic_blocks: Vec<BasicBlock> = Vec::new();
    let mut bi2: usize = 0;
    while bi2 < f.blocks.len()
        invariant
            ctx.wf(*m),
            ctx.extends(*old(ctx)),
            0 <= bi2 <= gf.blocks@.len(),
            basic_blocks@.len() == bi2,
            forall|b2: int|
                0 <= b2 < bi2 ==> bblock_decodable(*m, gbb, gvn, #[trigger] gf.blocks@[b2]),
            forall|b2: int|
                0 <= b2 < bi2 ==> bblock_matches(
                    #[trigger] basic_blocks@[b2],
                    *m,
                    gbb,
                    gvn,
                    gf.blocks@[b2],
                    b2,
                    *ctx,
                ),
        decreases gf.blocks@.len() - bi2,
    {
        let ghost c_pre = *ctx;
        proof {
            assert(wf_fblock(*m, gf.blocks@[bi2 as int]));
        }
        let block = match BasicBlock::from_llvm_ref(&f.blocks[bi2], bi2, m, ctx, func_ctx) {
            Ok(x) => x,
            Err(e) => {
                proof {
                    lemma_bblock_decodable_congruent(
                        *m,
                        gbb,
                        gvn,
                        p1_len_bb(gf),
                        p1_reg_vn(*m, gf),
                        gf.blocks@[bi2 as int],
                    );
                }
                return Err(e);
            },
        };
        proof {
            ModuleContext::lemma_extends_trans(ctx, &c_pre, old(ctx));
            assert forall|b2: int| 0 <= b2 < bi2 implies bblock_matches(
                #[trigger] basic_blocks@[b2],
                *m,
                gbb,
                gvn,
                gf.blocks@[b2],
                b2,
                *ctx,
            ) by {
                lemma_bblock_matches_extend(
                    basic_blocks@[b2],
                    *m,
                    gbb,
                    gvn,
                    gf.blocks@[b2],
                    b2,
                    c_pre,
                    *ctx,
                );
            }
        }
        basic_blocks.push(block);
        bi2 = bi2 + 1;
    }
    proof {
        assert forall|b2: int| 0 <= b2 < gf.blocks@.len() implies bblock_decodable(
            *m,
            p1_len_bb(gf),
            p1_reg_vn(*m, gf),
            #[trigger] gf.blocks@[b2],
        ) by {
            lemma_bblock_decodable_congruent(
                *m,
                gbb,
                gvn,
                p1_len_bb(gf),
                p1_reg_vn(*m, gf),
                gf.blocks@[b2],
            );
        }
    }
    Ok(basic_blocks)
}

impl Function {
    /// Decode one foreign function. Parameters are named and decoded
    /// first, consuming the per-function counter; then the first pass
    /// walks every block and instruction, completing the name maps; only
    /// then does the second pass translate the body, so forward
    /// references resolve. Function-level metadata is decoded
    /// independently of the body walk. Fails — with no partial result —
    /// exactly when some block of the function does not decode.
    #[verifier::rlimit(60)]
    #[verifier::spinoff_prover]
    pub fn from_llvm_ref(m: &FModule, fi: usize, ctx: &mut ModuleContext) -> (r: Result<
        Function,
        DecodeError,
    >)
        requires
            old(ctx).wf(*m),
            wf_fmodule(*m),
            (fi as int) < m.functions@.len(),
            p1_ctr_final(m.types@, m.functions@[fi as int]) <= usize::MAX,
        ensures
            final(ctx).wf(*m),
            final(ctx).extends(*old(ctx)),
            r.is_ok() <==> function_decodable(*m, m.functions@[fi as int]),
            r matches Ok(x) ==> function_matches(x, *m, m.functions@[fi as int], *final(ctx)),
    {
        let f = &m.functions[fi];
        let ghost ts = m.types@;
        let ghost gf = m.functions@[fi as int];
        proof {
            assert(wf_ffunction(*m, gf));
        }
        let (parameters, mut val_names, mut local_ctr) = decode_parameters(f, m, ctx);
        let ghost c_params = *ctx;
        let bb_names = first_pass_function(f, m, &mut local_ctr, &mut val_names);
        let func_ctx = FunctionContext { bb_names, val_names };
        let ghost gbb = func_ctx.bb_names@;
        let ghost gvn = func_ctx.val_names@;
        let ghost c_fp = *ctx;
        let basic_blocks = match decode_body(f, m, ctx, &func_ctx) {
            Ok(x) => x,
            Err(e) => {
                return Err(e);
            },
        };
        proof {
            ModuleContext::lemma_extends_trans(ctx, &c_fp, old(ctx));
        }
        // Function-level metadata, independent of the body walk.
        let ghost c_body = *ctx;
        let return_type = ctx.types.intern_type(&m.types, f.return_type);
        proof {
            c_body.constants.lemma_types_extend(c_body.types, ctx.types);
            ModuleContext::lemma_extends_trans(ctx, &c_body, old(ctx));
        }
        let function_attributes = decode_function_attrs(&f.function_attributes, &ctx.attrsdata);
        let return_attributes = decode_param_attrs(&f.return_attributes, &ctx.attrsdata);
        let calling_convention = CallingConvention::from_u32(f.calling_convention);
        let ghost c_meta = *ctx;
        let personality_function = match &f.personality_function {
            Some(c) => Some(
                ctx.constants.intern_constant(&m.constants, &m.types, &mut ctx.types, *c),
            ),
            None => None,
        };
        proof {
            ModuleContext::lemma_extends_trans(ctx, &c_meta, old(ctx));
            assert forall|kk: int| 0 <= kk < gf.parameters@.len() implies param_matches(
                #[trigger] parameters@[kk],
                *m,
                gf,
                kk,
                *ctx,
            ) by {
                ctx.types.lemma_extends_shape(c_params.types, parameters@[kk].ty);
            }
            assert forall|b2: int| 0 <= b2 < gf.blocks@.len() implies bblock_matches(
                #[trigger] basic_blocks@[b2],
                *m,
                gbb,
                gvn,
                gf.blocks@[b2],
                b2,
                *ctx,
            ) by {
                assert(wf_fblock(*m, gf.blocks@[b2]));
                assert(bblock_decodable(*m, gbb, gvn, gf.blocks@[b2])) by {
                    lemma_bblock_decodable_congruent(
                        *m,
                        gbb,
                        gvn,
                        p1_len_bb(gf),
                        p1_reg_vn(*m, gf),
                        gf.blocks@[b2],
                    );
                }
                lemma_bblock_matches_extend(
                    basic_blocks@[b2],
                    *m,
                    gbb,
                    gvn,
                    gf.blocks@[b2],
                    b2,
                    c_body,
                    *ctx,
                );
            }
            ctx.types.lemma_extends_shape(c_meta.types, return_type);
        }
        let x = Function {
            name: f.name.clone(),
            parameters,
            is_var_arg: f.is_var_arg,
            return_type,
            basic_blocks,
            function_attributes,
            return_attributes,
            linkage: f.linkage,
            visibility: f.visibility,
            dll_storage_class: f.dll_storage_class,
            calling_convention,
            section: clone_opt_string(&f.section),
            comdat: f.comdat,
            alignment: f.alignment,
            garbage_collector_name: clone_opt_string(&f.garbage_collector_name),
            personality_function,
            debugloc: clone_opt_debugloc(&f.debugloc),
        };
        proof {
            assert(p1_bb_names_ok(ts, gf, gbb) && p1_val_names_ok(*m, gf, gvn));
        }
        Ok(x)
    }

}

} // verus!

verus! {

use crate::types::TyShape;

/// The index of the first basic block of `blocks` whose name has the
/// same value as `n`, scanning from `i`.
pub open spec fn first_bb_with_name(blocks: Seq<BasicBlock>, n: NameV, i: int) -> Option<int>
    decreases blocks.len() - i,
{
    if i < 0 || i >= blocks.len() {
        None
    } else if blocks[i].name@ == n {
        Some(i)
    } else {
        first_bb_with_name(blocks, n, i + 1)
    }
}

impl Function {
    /// Get the basic block with the given name, if any: the first block
    /// whose name equals `name`.
    pub fn get_bb_by_name(&self, name: &Name) -> (r: Option<&BasicBlock>)
        ensures
            match first_bb_with_name(self.basic_blocks@, name@, 0) {
                Some(i) => r matches Some(b) && *b == self.basic_blocks@[i],
                None => r is None,
            },
    {
        let mut i: usize = 0;
        while i < self.basic_blocks.len()
            invariant
                0 <= i <= self.basic_blocks@.len(),
                first_bb_with_name(self.basic_blocks@, name@, 0) == first_bb_with_name(
                    self.basic_blocks@,
                    name@,
                    i as int,
                ),
            decreases self.basic_blocks@.len() - i,
        {
            if self.basic_blocks[i].name == *name {
                return Some(&self.basic_blocks[i]);
            }
            i = i + 1;
        }
        None
    }

    /// A function as empty as possible, using defaults. Its return type
    /// is the void reference every type session pre-interns at index 0.
    pub fn new(name: String) -> (r: Self)
        ensures
            r.name@ == name@,
            r.parameters@.len() == 0,
            !r.is_var_arg,
            r.return_type == TypeRef(0usize),
            r.basic_blocks@.len() == 0,
            r.function_attributes@.len() == 0,
            r.return_attributes@.len() == 0,
            r.linkage == Linkage::Private,
            r.visibility == Visibility::Default,
            r.dll_storage_class == DLLStorageClass::Default,
            r.calling_convention == CallingConvention::C,
            r.section is None,
            r.comdat is None,
            r.alignment == 4,
            r.garbage_collector_name is None,
            r.personality_function is None,
            r.debugloc is None,
    {
        Function {
            name,
            parameters: Vec::new(),
            is_var_arg: false,
            return_type: TypeRef(0),
            basic_blocks: Vec::new(),
            function_attributes: Vec::new(),
            return_attributes: Vec::new(),
            linkage: Linkage::Private,
            visibility: Visibility::Default,
            dll_storage_class: DLLStorageClass::Default,
            calling_convention: CallingConvention::C,
            section: None,
            comdat: None,
            alignment: 4,
            garbage_collector_name: None,
            personality_function: None,
            debugloc: None,
        }
    }

    /// The source-location tag of this function.
    pub fn get_debug_loc(&self) -> (r: &Option<DebugLoc>)
        ensures
            *r == self.debugloc,
    {
        &self.debugloc
    }

    /// The type of a function: the function-signature type built from its
    /// return type and its parameters' types, interned fresh in the
    /// session.
    pub fn get_type(&self, types: &mut Types) -> (r: TypeRef)
        requires
            old(types).wf(),
            old(types).valid_ref(self.return_type),
            forall|k: int|
                0 <= k < self.parameters@.len() ==> old(types).valid_ref(
                    (#[trigger] self.parameters@[k]).ty,
                ),
        ensures
            final(types).wf(),
            final(types).extends(*old(types)),
            final(types).named() == old(types).named(),
            final(types).valid_ref(r),
            final(types).shape_of(r) == (TyShape::Func {
                result: Box::new(old(types).shape_of(self.return_type)),
                params: Seq::new(
                    self.parameters@.len(),
                    |k: int|
                        if 0 <= k < self.parameters@.len() {
                            old(types).shape_of(self.parameters@[k].ty)
                        } else {
                            TyShape::Invalid
                        },
                ),
                is_var_arg: self.is_var_arg,
            }),
    {
        let mut param_types: Vec<TypeRef> = Vec::new();
        let mut k: usize = 0;
        while k < self.parameters.len()
            invariant
                0 <= k <= self.parameters@.len(),
                param_types@.len() == k,
                forall|kk: int|
                    0 <= kk < k ==> #[trigger] param_types@[kk] == self.parameters@[kk].ty,
            decreases self.parameters@.len() - k,
        {
            param_types.push(self.parameters[k].get_type(types));
            k = k + 1;
        }
        let ghost ptys = param_types@;
        let r = types.func_type(self.return_type, param_types, self.is_var_arg);
        proof {
            assert(Seq::new(
                ptys.len(),
                |kk: int|
                    if 0 <= kk < ptys.len() {
                        old(types).shape_of(ptys[kk])
                    } else {
                        TyShape::Invalid
                    },
            ) =~= Seq::new(
                self.parameters@.len(),
                |kk: int|
                    if 0 <= kk < self.parameters@.len() {
                        old(types).shape_of(self.parameters@[kk].ty)
                    } else {
                        TyShape::Invalid
                    },
            ));
        }
        r
    }
}

} // verus!

verus! {

/// A decoded function keeps matching its foreign function as the
/// session's interners grow.
pub proof fn lemma_function_matches_extend(
    x: Function,
    m: FModule,
    f: FFunction,
    ctx1: ModuleContext,
    ctx2: ModuleContext,
)
    requires
        wf_fmodule(m),
        wf_ffunction(m, f),
        function_decodable(m, f),
        ctx1.types.wf(),
        ctx1.constants.wf(ctx1.types),
        ctx2.extends(ctx1),
        function_matches(x, m, f, ctx1),
    ensures
        function_matches(x, m, f, ctx2),
{
    assert forall|k: int| 0 <= k < f.parameters@.len() implies param_matches(
        #[trigger] x.parameters@[k],
        m,
        f,
        k,
        ctx2,
    ) by {
        ctx2.types.lemma_extends_shape(ctx1.types, x.parameters@[k].ty);
    }
    ctx2.types.lemma_extends_shape(ctx1.types, x.return_type);
    let (bb, vn) = choose|bb: Seq<Name>, vn: Seq<Option<Name>>|
        #![trigger p1_bb_names_ok(m.types@, f, bb), p1_val_names_ok(m, f, vn)]
        p1_bb_names_ok(m.types@, f, bb) && p1_val_names_ok(m, f, vn) && (forall|bi: int|
            0 <= bi < f.blocks@.len() ==> bblock_matches(
                #[trigger] x.basic_blocks@[bi],
                m,
                bb,
                vn,
                f.blocks@[bi],
                bi,
                ctx1,
            ));
    assert(same_map_obs(bb, vn, p1_len_bb(f), p1_reg_vn(m, f))) by {
        assert forall|v: int| 0 <= v < vn.len() implies ((#[trigger] vn[v]) is Some <==> (
        #[trigger] p1_reg_vn(m, f)[v]) is Some) by {
            if vn[v] is Some {
                assert(is_registered(m.types@, f, v));
            }
            if is_registered(m.types@, f, v) {
                if exists|kk: int|
                    0 <= kk < f.parameters@.len() && (#[trigger] f.parameters@[kk]).value as int
                        == v {
                    let kk = choose|kk: int|
                        0 <= kk < f.parameters@.len() && (#[trigger] f.parameters@[kk]).value
                            as int == v;
                    assert(vn[v] is Some);
                } else {
                    let (b2, j) = choose|b2: int, j: int|
                        #[trigger] is_registering_instr(m.types@, f, b2, j, v);
                    assert(vn[v] is Some);
                }
            }
        }
    }
    assert forall|bi: int| 0 <= bi < f.blocks@.len() implies bblock_matches(
        #[trigger] x.basic_blocks@[bi],
        m,
        bb,
        vn,
        f.blocks@[bi],
        bi,
        ctx2,
    ) by {
        assert(wf_fblock(m, f.blocks@[bi]));
        assert(bblock_decodable(m, bb, vn, f.blocks@[bi])) by {
            lemma_bblock_decodable_congruent(
                m,
                bb,
                vn,
                p1_len_bb(f),
                p1_reg_vn(m, f),
                f.blocks@[bi],
            );
        }
        lemma_bblock_matches_extend(
            x.basic_blocks@[bi],
            m,
            bb,
            vn,
            f.blocks@[bi],
            bi,
            ctx1,
            ctx2,
        );
    }
    if let Some(c) = f.personality_function {
        if let Some(pr) = x.personality_function {
            crate::constant::lemma_resolve_const_prefix(
                ctx1.constants.arena(),
                ctx2.constants.arena(),
                ctx1.types.arena(),
                ctx2.types.arena(),
                pr.0 as int,
            );
        }
    }
}

} // verus!

verus! {

use crate::basicblock::lemma_p1_ctr_instrs_mono;
use crate::basicblock::p1_ctr_instrs;
use crate::basicblock::p1_instr_name;
use crate::basicblock::p1_ctr_after_block_name;
use crate::foreign::instr_produces_result;

/// Name-resolution completeness: every block or value handle reachable by
/// an operand in a function's body that the first pass registers — every
/// parameter and every result-producing instruction — appears in the
/// value-name map before the second pass begins, so the second pass never
/// fails to find the name of a registered handle.
pub proof fn lemma_name_resolution_complete(
    m: FModule,
    f: FFunction,
    vn: Seq<Option<Name>>,
    v: int,
)
    requires
        p1_val_names_ok(m, f, vn),
        0 <= v < vn.len(),
        is_registered(m.types@, f, v),
    ensures
        vn[v] is Some,
{
    if exists|kk: int|
        0 <= kk < f.parameters@.len() && (#[trigger] f.parameters@[kk]).value as int == v {
        let kk = choose|kk: int|
            0 <= kk < f.parameters@.len() && (#[trigger] f.parameters@[kk]).value as int == v;
        assert(vn[v] is Some);
    } else {
        let (b2, j) = choose|b2: int, j: int|
            #[trigger] is_registering_instr(m.types@, f, b2, j, v);
        assert(vn[v] is Some);
    }
}

/// A local operand whose handle the first pass registers always decodes:
/// with a complete value-name map, the operand decoder cannot fail with
/// "name not found" on it.
pub proof fn lemma_registered_local_decodes(m: FModule, f: FFunction, vn: Seq<Option<Name>>, v: int)
    requires
        p1_val_names_ok(m, f, vn),
        0 <= v < vn.len(),
        m.values@[v] is Local ==> is_registered(m.types@, f, v),
        !(m.values@[v] is Block),
    ensures
        crate::operand::operand_decodable(m, vn, v),
{
    if m.values@[v] is Local {
        lemma_name_resolution_complete(m, f, vn, v);
    }
}

/// Counter monotonicity over the parameters: two distinct unnamed
/// parameters receive distinct synthetic numbers, in declaration order.
pub proof fn lemma_param_numbers_no_reuse(f: FFunction, k1: int, k2: int)
    requires
        0 <= k1 < k2 < f.parameters@.len(),
        f.parameters@[k1].name@.len() == 0,
        f.parameters@[k2].name@.len() == 0,
    ensures
        p1_param_name(f, k1) matches NameV::Number(n1) && p1_param_name(f, k2) matches NameV::Number(
            n2,
        ) && n1 < n2,
{
    lemma_p1_ctr_params_mono(f, k1 + 1, k2);
}

/// Counter monotonicity inside a block: two distinct unnamed
/// result-producing instructions receive distinct synthetic numbers, in
/// declaration order.
pub proof fn lemma_instr_numbers_no_reuse(
    ts: Seq<FTypeDesc>,
    instrs: Seq<crate::foreign::FInstruction>,
    start: nat,
    j1: int,
    j2: int,
)
    requires
        0 <= j1 < j2 < instrs.len(),
        instr_produces_result(ts, instrs[j1]),
        instr_produces_result(ts, instrs[j2]),
        instrs[j1].name@.len() == 0,
        instrs[j2].name@.len() == 0,
    ensures
        p1_instr_name(ts, instrs, start, j1) matches NameV::Number(n1) && p1_instr_name(
            ts,
            instrs,
            start,
            j2,
        ) matches NameV::Number(n2) && n1 < n2,
{
    lemma_p1_ctr_instrs_mono(ts, instrs, start, j1 + 1, j2);
}

/// The numbering order equals first-occurrence order across entity
/// kinds: every parameter number is below every block number, because
/// parameters are named first on the shared counter.
pub proof fn lemma_param_numbers_before_blocks(ts: Seq<FTypeDesc>, f: FFunction, k: int, bi: int)
    requires
        0 <= k < f.parameters@.len(),
        f.parameters@[k].name@.len() == 0,
        0 <= bi < f.blocks@.len(),
        f.blocks@[bi].name@.len() == 0,
    ensures
        p1_param_name(f, k) matches NameV::Number(n1) && p1_fn_block_name(ts, f, bi)
            matches NameV::Number(n2) && n1 < n2,
{
    lemma_p1_ctr_params_mono(f, k + 1, f.parameters@.len() as int);
    lemma_p1_ctr_blocks_mono(ts, f.blocks@, p1_ctr_after_params(f), 0, bi);
}

/// Two distinct unnamed blocks receive distinct synthetic numbers, in
/// declaration order.
pub proof fn lemma_block_numbers_no_reuse(ts: Seq<FTypeDesc>, f: FFunction, b1: int, b2: int)
    requires
        0 <= b1 < b2 < f.blocks@.len(),
        f.blocks@[b1].name@.len() == 0,
        f.blocks@[b2].name@.len() == 0,
    ensures
        p1_fn_block_name(ts, f, b1) matches NameV::Number(n1) && p1_fn_block_name(ts, f, b2)
            matches NameV::Number(n2) && n1 < n2,
{
    let start1 = p1_fn_block_start(ts, f, b1);
    crate::basicblock::lemma_p1_ctr_instrs_ge_start(
        ts,
        f.blocks@[b1].instructions@,
        p1_ctr_after_block_name(f.blocks@[b1], start1),
        f.blocks@[b1].instructions@.len() as int,
    );
    assert(p1_ctr_blocks(ts, f.blocks@, p1_ctr_after_params(f), b1 + 1) == crate::basicblock::p1_ctr_block(
        ts,
        f.blocks@[b1],
        start1,
    ));
    lemma_p1_ctr_blocks_mono(ts, f.blocks@, p1_ctr_after_params(f), b1 + 1, b2);
}

} // verus!
