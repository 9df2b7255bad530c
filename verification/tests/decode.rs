use llvm_ir::constant::Constant;
use llvm_ir::constant::Constants;
use llvm_ir::error::DecodeError;
use llvm_ir::foreign::FAttribute;
use llvm_ir::foreign::FBlock;
use llvm_ir::foreign::FCallInfo;
use llvm_ir::foreign::FCallee;
use llvm_ir::foreign::FConstDesc;
use llvm_ir::foreign::FFunction;
use llvm_ir::foreign::FInstruction;
use llvm_ir::foreign::FModule;
use llvm_ir::foreign::FParameter;
use llvm_ir::foreign::FTypeDesc;
use llvm_ir::foreign::FValueDesc;
use llvm_ir::foreign::OPCODE_BR;
use llvm_ir::foreign::OPCODE_CLEANUP_RET;
use llvm_ir::foreign::OPCODE_INVOKE;
use llvm_ir::foreign::OPCODE_RET;
use llvm_ir::foreign::OPCODE_SWITCH;
use llvm_ir::foreign::OPCODE_UNREACHABLE;
use llvm_ir::function::AttributesData;
use llvm_ir::function::CallingConvention;
use llvm_ir::function::FunctionAttribute;
use llvm_ir::function::ParameterAttribute;
use llvm_ir::module::DLLStorageClass;
use llvm_ir::module::Linkage;
use llvm_ir::module::Module;
use llvm_ir::module::Visibility;
use llvm_ir::name::Name;
use llvm_ir::operand::Operand;
use llvm_ir::terminator::Terminator;
use llvm_ir::types::Types;

const FN_ATTR_NAMES: [&str; 49] = [
    "alignstack",
    "allocsize",
    "alwaysinline",
    "builtin",
    "cold",
    "convergent",
    "inaccessiblememonly",
    "inaccessiblemem_or_argmemonly",
    "inlinehint",
    "jumptable",
    "minsize",
    "naked",
    "nobuiltin",
    "nocf_check",
    "noduplicate",
    "nofree",
    "noimplicitfloat",
    "noinline",
    "nomerge",
    "nonlazybind",
    "noredzone",
    "noreturn",
    "norecurse",
    "willreturn",
    "returns_twice",
    "nosync",
    "nounwind",
    "null_pointer_is_valid",
    "optforfuzzing",
    "optnone",
    "optsize",
    "readnone",
    "readonly",
    "writeonly",
    "argmemonly",
    "safestack",
    "sanitize_address",
    "sanitize_memory",
    "sanitize_thread",
    "sanitize_hwaddress",
    "sanitize_memtag",
    "shadowcallstack",
    "speculative_load_hardening",
    "speculatable",
    "ssp",
    "sspreq",
    "sspstrong",
    "strictfp",
    "uwtable",
];

const PARAM_ATTR_NAMES: [&str; 20] = [
    "zeroext", "signext", "inreg", "byval", "preallocated", "inalloca", "sret", "align",
    "noalias", "nocapture", "nofree", "nest", "returned", "nonnull", "dereferenceable",
    "dereferenceable_or_null", "swiftself", "swifterror", "immarg", "noundef",
];

/// A kind-for-name table covering the whole catalog: kind = position + 1
/// in this combined list (duplicates collapse to the first position).
fn full_attr_table() -> Vec<(String, u32)> {
    let mut t: Vec<(String, u32)> = Vec::new();
    let mut next = 1u32;
    for n in FN_ATTR_NAMES.iter().chain(PARAM_ATTR_NAMES.iter()) {
        if !t.iter().any(|(s, _)| s == n) {
            t.push((n.to_string(), next));
            next += 1;
        }
    }
    t
}

fn expect_err(r: Result<Module, DecodeError>) -> DecodeError {
    match r {
        Err(e) => e,
        Ok(_) => panic!("expected a decode failure"),
    }
}

fn kind_of(table: &[(String, u32)], name: &str) -> u32 {
    table.iter().find(|(s, _)| s == name).unwrap().1
}

fn instr(value: usize, opcode: u32, ty: usize) -> FInstruction {
    FInstruction {
        value,
        opcode,
        name: String::new(),
        ty,
        operands: vec![],
        successors: vec![],
        unwind_dest: None,
        normal_dest: None,
        handlers: vec![],
        call: None,
        debugloc: None,
    }
}

fn empty_function(name: &str) -> FFunction {
    FFunction {
        name: name.to_string(),
        parameters: vec![],
        is_var_arg: false,
        return_type: 0,
        blocks: vec![],
        function_attributes: vec![],
        return_attributes: vec![],
        linkage: Linkage::External,
        visibility: Visibility::Default,
        dll_storage_class: DLLStorageClass::Default,
        calling_convention: 0,
        section: None,
        comdat: None,
        alignment: 0,
        garbage_collector_name: None,
        personality_function: None,
        debugloc: None,
    }
}

/// A module skeleton: type 0 is void, type 1 is i32, type 2 is i1.
fn base_module() -> FModule {
    FModule {
        name: "m".to_string(),
        attr_kinds: full_attr_table(),
        types: vec![
            FTypeDesc::Void,
            FTypeDesc::Integer { bits: 32 },
            FTypeDesc::Integer { bits: 1 },
        ],
        named_structs: vec![],
        constants: vec![],
        values: vec![],
        functions: vec![],
    }
}

#[test]
fn intern_type_is_idempotent() {
    let m = base_module();
    let mut types = Types::new(&m.types);
    let a = types.intern_type(&m.types, 1);
    let b = types.intern_type(&m.types, 1);
    // Identical shared instance, not merely structurally equal.
    assert_eq!(a, b);
    let c = types.intern_type(&m.types, 2);
    assert_ne!(a, c);
    let d = types.intern_type(&m.types, 2);
    assert_eq!(c, d);
}

#[test]
fn intern_constant_is_idempotent() {
    let mut m = base_module();
    m.constants = vec![
        FConstDesc::Int { bits: 32, value: 7 },
        FConstDesc::Array { element_ty: 1, elements: vec![0, 0] },
    ];
    let mut types = Types::new(&m.types);
    let mut constants = Constants::new(&m.constants, &types);
    let a = constants.intern_constant(&m.constants, &m.types, &mut types, 1);
    let b = constants.intern_constant(&m.constants, &m.types, &mut types, 1);
    assert_eq!(a, b);
    let c = constants.intern_constant(&m.constants, &m.types, &mut types, 0);
    let d = constants.intern_constant(&m.constants, &m.types, &mut types, 0);
    assert_eq!(c, d);
    assert_ne!(a, c);
}

#[test]
fn catalog_build_fails_on_unknown_name() {
    let empty: Vec<(String, u32)> = Vec::new();
    match AttributesData::create(&empty) {
        Err(e) => assert_eq!(e, DecodeError::AttributeKindNotFound),
        Ok(_) => panic!("expected a catalog build failure"),
    }
}

#[test]
fn catalog_lookups_answer_names() {
    let table = full_attr_table();
    let ad = AttributesData::create(&table).unwrap();
    let k = kind_of(&table, "alwaysinline");
    assert_eq!(ad.lookup_function_attr(k), Some("alwaysinline"));
    let k2 = kind_of(&table, "noalias");
    assert_eq!(ad.lookup_param_attr(k2), Some("noalias"));
    assert_eq!(ad.lookup_function_attr(10_000), None);
    assert_eq!(ad.lookup_param_attr(10_000), None);
}

#[test]
fn unknown_attribute_is_safe() {
    // An attribute identifier not present in the catalog never aborts
    // conversion: it decodes to the Unknown variant.
    let table = full_attr_table();
    let ad = AttributesData::create(&table).unwrap();
    let a = FAttribute::Enum { kind: 9_999, value: 0 };
    assert_eq!(
        FunctionAttribute::from_llvm_ref(&a, &ad),
        FunctionAttribute::UnknownAttribute
    );
    assert_eq!(
        ParameterAttribute::from_llvm_ref(&a, &ad),
        ParameterAttribute::UnknownAttribute
    );
    let neither = FAttribute::Other;
    assert_eq!(
        FunctionAttribute::from_llvm_ref(&neither, &ad),
        FunctionAttribute::UnknownAttribute
    );
}

#[test]
fn known_attributes_decode() {
    let table = full_attr_table();
    let ad = AttributesData::create(&table).unwrap();
    let cold = FAttribute::Enum { kind: kind_of(&table, "cold"), value: 0 };
    assert_eq!(FunctionAttribute::from_llvm_ref(&cold, &ad), FunctionAttribute::Cold);
    let align = FAttribute::Enum { kind: kind_of(&table, "align"), value: 16 };
    assert_eq!(
        ParameterAttribute::from_llvm_ref(&align, &ad),
        ParameterAttribute::Alignment(16)
    );
    let s = FAttribute::String { kind: "frame-pointer".to_string(), value: "all".to_string() };
    assert_eq!(
        FunctionAttribute::from_llvm_ref(&s, &ad),
        FunctionAttribute::StringAttribute {
            kind: "frame-pointer".to_string(),
            value: "all".to_string()
        }
    );
}

#[test]
fn allocsize_splits_its_payload() {
    // The element size is the upper 32 bits; the lower 32 bits give the
    // element count, with all-ones standing for "no count".
    let table = full_attr_table();
    let ad = AttributesData::create(&table).unwrap();
    let k = kind_of(&table, "allocsize");
    let with_count = FAttribute::Enum { kind: k, value: (3u64 << 32) | 5 };
    assert_eq!(
        FunctionAttribute::from_llvm_ref(&with_count, &ad),
        FunctionAttribute::AllocSize { elt_size: 3, num_elts: Some(5) }
    );
    let no_count = FAttribute::Enum { kind: k, value: (7u64 << 32) | 0xFFFF_FFFF };
    assert_eq!(
        FunctionAttribute::from_llvm_ref(&no_count, &ad),
        FunctionAttribute::AllocSize { elt_size: 7, num_elts: None }
    );
}

#[test]
fn calling_convention_codes() {
    assert_eq!(CallingConvention::from_u32(0), CallingConvention::C);
    assert_eq!(CallingConvention::from_u32(8), CallingConvention::Fast);
    assert_eq!(CallingConvention::from_u32(10), CallingConvention::GHC);
    assert_eq!(CallingConvention::from_u32(78), CallingConvention::X86_64_SysV);
    assert_eq!(CallingConvention::from_u32(94), CallingConvention::MSP430_Builtin);
    assert_eq!(CallingConvention::from_u32(1_234), CallingConvention::Numbered(1_234));
}

/// A function with one i32 parameter and two blocks:
///   entry: br i1 %c, label %right, label %left   (3 operands)
///   left/right: ret
/// Values: 0 = parameter c (i1), 1 = block left, 2 = block right.
fn branching_module() -> FModule {
    let mut m = base_module();
    m.values = vec![
        FValueDesc::Local { ty: 2 },
        FValueDesc::Block { block: 1 },
        FValueDesc::Block { block: 2 },
    ];
    let mut condbr = instr(0, OPCODE_BR, 0);
    condbr.operands = vec![0, 1, 2];
    let mut f = empty_function("f");
    f.parameters = vec![FParameter {
        value: 0,
        name: "c".to_string(),
        ty: 2,
        attributes: vec![],
    }];
    f.blocks = vec![
        FBlock {
            name: "entry".to_string(),
            instructions: vec![],
            terminator: condbr,
        },
        FBlock {
            name: String::new(),
            instructions: vec![],
            terminator: instr(0, OPCODE_RET, 0),
        },
        FBlock {
            name: String::new(),
            instructions: vec![],
            terminator: instr(0, OPCODE_RET, 0),
        },
    ];
    m.functions = vec![f];
    m
}

#[test]
fn conditional_branch_swaps_slots() {
    // 3 operands: condition = operand 0, true destination = operand 2,
    // false destination = operand 1.
    let m = branching_module();
    let md = Module::from_fmodule(&m).unwrap();
    let f = &md.functions[0];
    match &f.basic_blocks[0].term {
        Terminator::CondBr(cb) => {
            match &cb.condition {
                Operand::LocalOperand { name, .. } => assert_eq!(*name, Name::Name("c".to_string())),
                other => panic!("expected a local operand, got {other:?}"),
            }
            // Unnamed blocks: the counter numbered them 0 (left) and 1
            // (right); parameter "c" is named, consuming no number.
            assert_eq!(cb.true_dest, Name::Number(1));
            assert_eq!(cb.false_dest, Name::Number(0));
        },
        other => panic!("expected a conditional branch, got {other:?}"),
    }
}

#[test]
fn unconditional_branch_single_destination() {
    // 1 operand: the destination.
    let mut m = base_module();
    m.values = vec![FValueDesc::Block { block: 1 }];
    let mut br = instr(0, OPCODE_BR, 0);
    br.operands = vec![0];
    let mut f = empty_function("f");
    f.blocks = vec![
        FBlock { name: "a".to_string(), instructions: vec![], terminator: br },
        FBlock {
            name: "b".to_string(),
            instructions: vec![],
            terminator: instr(0, OPCODE_RET, 0),
        },
    ];
    m.functions = vec![f];
    let md = Module::from_fmodule(&m).unwrap();
    match &md.functions[0].basic_blocks[0].term {
        Terminator::Br(br) => assert_eq!(br.dest, Name::Name("b".to_string())),
        other => panic!("expected an unconditional branch, got {other:?}"),
    }
}

#[test]
fn branch_with_two_operands_is_fatal() {
    let mut m = base_module();
    m.values = vec![FValueDesc::Block { block: 0 }];
    let mut br = instr(0, OPCODE_BR, 0);
    br.operands = vec![0, 0];
    let mut f = empty_function("f");
    f.blocks = vec![FBlock { name: "a".to_string(), instructions: vec![], terminator: br }];
    m.functions = vec![f];
    assert_eq!(
        expect_err(Module::from_fmodule(&m)),
        DecodeError::WrongOperandCount { found: 2 }
    );
}

#[test]
fn switch_reads_alternating_slots() {
    // Default destination from successor slot 0; case values from operand
    // slots 2 and 4, paired with successor slots 1 and 2.
    let mut m = base_module();
    m.constants = vec![
        FConstDesc::Int { bits: 32, value: 10 },
        FConstDesc::Int { bits: 32, value: 20 },
    ];
    m.values = vec![
        FValueDesc::Local { ty: 1 },    // 0: the scrutinee %x
        FValueDesc::Constant { c: 0 },  // 1
        FValueDesc::Constant { c: 1 },  // 2
        FValueDesc::Block { block: 0 }, // 3 (filler)
    ];
    m.values.push(FValueDesc::Local { ty: 0 }); // 4: the switch itself (void)
    m.values.push(FValueDesc::Local { ty: 1 }); // 5: the entry instruction %x
    m.values.push(FValueDesc::Local { ty: 0 }); // 6, 7, 8: the rets
    m.values.push(FValueDesc::Local { ty: 0 });
    m.values.push(FValueDesc::Local { ty: 0 });
    let mut sw = instr(4, OPCODE_SWITCH, 0);
    // Operand layout: [scrutinee, default-dest, case 1 value, case 1
    // dest, case 2 value, ...]; only slots 0, 2, 4 are read.
    sw.operands = vec![5, 3, 1, 3, 2];
    sw.successors = vec![1, 2, 3]; // default = block 1, cases to blocks 2 and 3
    let ret = |v: usize| instr(v, OPCODE_RET, 0);
    let mut entry_instr = instr(5, 8, 1); // an `add`-style instruction, named "x"
    entry_instr.name = "x".to_string();
    let mut f = empty_function("f");
    f.blocks = vec![
        FBlock {
            name: "entry".to_string(),
            instructions: vec![entry_instr],
            terminator: sw,
        },
        FBlock { name: "d".to_string(), instructions: vec![], terminator: ret(6) },
        FBlock { name: "b1".to_string(), instructions: vec![], terminator: ret(7) },
        FBlock { name: "b2".to_string(), instructions: vec![], terminator: ret(8) },
    ];
    m.functions = vec![f];
    let md = Module::from_fmodule(&m).unwrap();
    match &md.functions[0].basic_blocks[0].term {
        Terminator::Switch(sw) => {
            assert_eq!(sw.default_dest, Name::Name("d".to_string()));
            assert_eq!(sw.dests.len(), 2);
            assert_eq!(sw.dests[0].1, Name::Name("b1".to_string()));
            assert_eq!(sw.dests[1].1, Name::Name("b2".to_string()));
            // The case values, in declaration order.
            assert_eq!(md.constants.get(sw.dests[0].0), &Constant::Int { bits: 32, value: 10 });
            assert_eq!(md.constants.get(sw.dests[1].0), &Constant::Int { bits: 32, value: 20 });
            match &sw.operand {
                Operand::LocalOperand { name, .. } => assert_eq!(*name, Name::Name("x".to_string())),
                other => panic!("expected a local operand, got {other:?}"),
            }
        },
        other => panic!("expected a switch, got {other:?}"),
    }
}

#[test]
fn cleanupret_unwind_to_caller_is_explicit_absence() {
    // A cleanup-return whose foreign unwind-destination query answers "no
    // destination" decodes to an explicit None: not an error, not a
    // default block.
    let mut m = base_module();
    m.values = vec![FValueDesc::Local { ty: 1 }]; // 0: the cleanup pad token
    let mut cr = instr(1, OPCODE_CLEANUP_RET, 0);
    cr.operands = vec![0];
    cr.unwind_dest = None;
    m.values.push(FValueDesc::Local { ty: 0 }); // 1
    let mut pad = instr(0, 8, 1);
    pad.name = "pad".to_string();
    let mut f = empty_function("f");
    f.blocks = vec![FBlock {
        name: "entry".to_string(),
        instructions: vec![pad],
        terminator: cr,
    }];
    m.functions = vec![f];
    let md = Module::from_fmodule(&m).unwrap();
    match &md.functions[0].basic_blocks[0].term {
        Terminator::CleanupRet(cr) => assert_eq!(cr.unwind_dest, None),
        other => panic!("expected a cleanup return, got {other:?}"),
    }
}

#[test]
fn forward_reference_resolves() {
    // A block branching to a not-yet-declared later block still resolves
    // that block's name, because the first pass saw the whole body first.
    let mut m = base_module();
    m.values = vec![FValueDesc::Block { block: 1 }];
    let mut br = instr(0, OPCODE_BR, 0);
    br.operands = vec![0];
    let mut f = empty_function("f");
    f.blocks = vec![
        FBlock {
            name: String::new(),
            instructions: vec![],
            terminator: br,
        },
        FBlock {
            name: String::new(),
            instructions: vec![],
            terminator: instr(0, OPCODE_UNREACHABLE, 0),
        },
    ];
    m.functions = vec![f];
    let md = Module::from_fmodule(&m).unwrap();
    let f = &md.functions[0];
    // The two unnamed blocks got numbers 0 and 1; the forward branch in
    // block 0 carries block 1's synthetic name.
    assert_eq!(f.basic_blocks[0].name, Name::Number(0));
    assert_eq!(f.basic_blocks[1].name, Name::Number(1));
    match &f.basic_blocks[0].term {
        Terminator::Br(br) => assert_eq!(br.dest, Name::Number(1)),
        other => panic!("expected an unconditional branch, got {other:?}"),
    }
}

#[test]
fn counter_numbers_parameters_first_without_reuse() {
    // Two unnamed parameters, an unnamed block, an unnamed
    // result-producing instruction: numbered 0, 1, 2, 3 in
    // first-occurrence order, with no number reused.
    let mut m = base_module();
    m.values = vec![
        FValueDesc::Local { ty: 1 }, // 0: parameter
        FValueDesc::Local { ty: 1 }, // 1: parameter
        FValueDesc::Local { ty: 1 }, // 2: instruction result
    ];
    let mut add = instr(2, 8, 1);
    add.operands = vec![0, 1];
    let mut f = empty_function("f");
    f.parameters = vec![
        FParameter { value: 0, name: String::new(), ty: 1, attributes: vec![] },
        FParameter { value: 1, name: String::new(), ty: 1, attributes: vec![] },
    ];
    f.blocks = vec![FBlock {
        name: String::new(),
        instructions: vec![add],
        terminator: instr(3, OPCODE_RET, 0),
    }];
    m.values.push(FValueDesc::Local { ty: 0 }); // 3
    m.functions = vec![f];
    let md = Module::from_fmodule(&m).unwrap();
    let f = &md.functions[0];
    assert_eq!(f.parameters[0].name, Name::Number(0));
    assert_eq!(f.parameters[1].name, Name::Number(1));
    assert_eq!(f.basic_blocks[0].name, Name::Number(2));
    assert_eq!(f.basic_blocks[0].instrs[0].result, Some(Name::Number(3)));
}

#[test]
fn unknown_opcode_is_fatal() {
    let mut m = base_module();
    let mut f = empty_function("f");
    f.blocks = vec![FBlock {
        name: "a".to_string(),
        instructions: vec![],
        terminator: instr(0, 9_999, 0),
    }];
    m.values = vec![FValueDesc::Local { ty: 0 }];
    m.functions = vec![f];
    assert_eq!(
        expect_err(Module::from_fmodule(&m)),
        DecodeError::UnknownOpcode { opcode: 9_999 }
    );
}

#[test]
fn unregistered_local_is_fatal() {
    // A `ret` whose operand refers to a local no first pass registered:
    // a resolver invariant violation, fatal.
    let mut m = base_module();
    m.values = vec![
        FValueDesc::Local { ty: 1 }, // 0: never defined anywhere
        FValueDesc::Local { ty: 0 }, // 1: the ret
    ];
    let mut ret = instr(1, OPCODE_RET, 0);
    ret.operands = vec![0];
    let mut f = empty_function("f");
    f.blocks = vec![FBlock { name: "a".to_string(), instructions: vec![], terminator: ret }];
    m.functions = vec![f];
    assert_eq!(expect_err(Module::from_fmodule(&m)), DecodeError::LocalNotFound);
}

#[test]
fn branch_to_unknown_block_is_fatal() {
    let mut m = base_module();
    m.values = vec![FValueDesc::Block { block: 7 }];
    let mut br = instr(0, OPCODE_BR, 0);
    br.operands = vec![0];
    let mut f = empty_function("f");
    f.blocks = vec![FBlock { name: "a".to_string(), instructions: vec![], terminator: br }];
    m.functions = vec![f];
    assert_eq!(expect_err(Module::from_fmodule(&m)), DecodeError::BlockNotFound);
}

#[test]
fn invoke_without_call_info_is_fatal() {
    let mut m = base_module();
    m.values = vec![FValueDesc::Local { ty: 1 }];
    let inv = instr(0, OPCODE_INVOKE, 1);
    let mut f = empty_function("f");
    f.blocks = vec![FBlock { name: "a".to_string(), instructions: vec![], terminator: inv }];
    m.functions = vec![f];
    assert_eq!(expect_err(Module::from_fmodule(&m)), DecodeError::MissingCallInfo);
}

#[test]
fn switch_case_must_be_constant() {
    let mut m = base_module();
    m.values = vec![
        FValueDesc::Local { ty: 1 },  // 0: scrutinee (parameter)
        FValueDesc::Local { ty: 1 },  // 1: not a constant
        FValueDesc::Local { ty: 0 },  // 2: switch
        FValueDesc::Local { ty: 0 },  // 3: ret
    ];
    let mut sw = instr(2, OPCODE_SWITCH, 0);
    sw.operands = vec![0, 0, 1];
    sw.successors = vec![0, 0];
    let mut f = empty_function("f");
    f.parameters = vec![FParameter {
        value: 0,
        name: "x".to_string(),
        ty: 1,
        attributes: vec![],
    }];
    f.blocks = vec![FBlock { name: "a".to_string(), instructions: vec![], terminator: sw }];
    m.functions = vec![f];
    assert_eq!(expect_err(Module::from_fmodule(&m)), DecodeError::ConstantExpected);
}

#[test]
fn invoke_decodes_call_info() {
    let mut m = base_module();
    // Type 3: the function type i32().
    m.types.push(FTypeDesc::Func { result: 1, params: vec![], is_var_arg: false });
    m.constants = vec![FConstDesc::GlobalReference { name: "g".to_string(), ty: 3 }];
    m.values = vec![
        FValueDesc::Constant { c: 0 },  // 0: the callee @g
        FValueDesc::Local { ty: 1 },    // 1: the invoke's result
        FValueDesc::Local { ty: 0 },    // 2: ret in block 1
        FValueDesc::Local { ty: 0 },    // 3: unreachable in block 2
    ];
    let mut inv = instr(1, OPCODE_INVOKE, 1);
    inv.name = "r".to_string();
    inv.normal_dest = Some(1);
    inv.unwind_dest = Some(2);
    inv.call = Some(FCallInfo {
        callee: FCallee::Value { v: 0 },
        arguments: vec![],
        return_attributes: vec![],
        function_attributes: vec![],
        calling_convention: 8,
    });
    let mut f = empty_function("f");
    f.blocks = vec![
        FBlock { name: "entry".to_string(), instructions: vec![], terminator: inv },
        FBlock {
            name: "ok".to_string(),
            instructions: vec![],
            terminator: instr(2, OPCODE_RET, 0),
        },
        FBlock {
            name: "bad".to_string(),
            instructions: vec![],
            terminator: instr(3, OPCODE_UNREACHABLE, 0),
        },
    ];
    m.functions = vec![f];
    let md = Module::from_fmodule(&m).unwrap();
    match &md.functions[0].basic_blocks[0].term {
        Terminator::Invoke(inv) => {
            assert_eq!(inv.result, Name::Name("r".to_string()));
            assert_eq!(inv.return_label, Name::Name("ok".to_string()));
            assert_eq!(inv.exception_label, Name::Name("bad".to_string()));
            assert_eq!(inv.calling_convention, CallingConvention::Fast);
            match &inv.function {
                either::Either::Right(Operand::ConstantOperand(c)) => {
                    match md.constants.get(*c) {
                        Constant::GlobalReference { name, .. } => {
                            assert_eq!(*name, Name::Name("g".to_string()));
                        },
                        other => panic!("expected a global reference, got {other:?}"),
                    }
                },
                other => panic!("expected a constant callee, got {other:?}"),
            }
        },
        other => panic!("expected an invoke, got {other:?}"),
    }
}

#[test]
fn get_bb_by_name_finds_first_match() {
    let m = branching_module();
    let md = Module::from_fmodule(&m).unwrap();
    let f = &md.functions[0];
    let entry = f.get_bb_by_name(&Name::Name("entry".to_string()));
    assert!(entry.is_some());
    assert_eq!(entry.unwrap().name, Name::Name("entry".to_string()));
    assert!(f.get_bb_by_name(&Name::Name("missing".to_string())).is_none());
    // A numeric name and a string name with the same textual form are
    // distinct.
    assert!(f.get_bb_by_name(&Name::Name("0".to_string())).is_none());
    assert!(f.get_bb_by_name(&Name::Number(0)).is_some());
}

#[test]
fn function_metadata_carries_over() {
    let mut m = branching_module();
    m.functions[0].calling_convention = 9;
    m.functions[0].alignment = 16;
    m.functions[0].section = Some(".text.hot".to_string());
    m.functions[0].linkage = Linkage::Internal;
    let md = Module::from_fmodule(&m).unwrap();
    let f = &md.functions[0];
    assert_eq!(f.name, "f");
    assert_eq!(f.calling_convention, CallingConvention::Cold);
    assert_eq!(f.alignment, 16);
    assert_eq!(f.section, Some(".text.hot".to_string()));
    assert_eq!(f.linkage, Linkage::Internal);
    assert!(!f.is_var_arg);
}

#[test]
fn name_or_num_consumes_counter_only_when_unnamed() {
    let mut ctr: usize = 5;
    let n1 = Name::name_or_num("x".to_string(), &mut ctr);
    assert_eq!(n1, Name::Name("x".to_string()));
    assert_eq!(ctr, 5);
    let n2 = Name::name_or_num(String::new(), &mut ctr);
    assert_eq!(n2, Name::Number(5));
    assert_eq!(ctr, 6);
}

#[test]
fn function_new_uses_defaults() {
    let f = llvm_ir::function::Function::new("g".to_string());
    assert_eq!(f.name, "g");
    assert!(f.parameters.is_empty());
    assert!(f.basic_blocks.is_empty());
    assert_eq!(f.calling_convention, CallingConvention::C);
    assert_eq!(f.linkage, Linkage::Private);
    assert_eq!(f.alignment, 4);
}

#[test]
fn structural_equality_is_independent_of_interning() {
    // Two separately interned pointer types with identical structure:
    // distinct references, equal structure.
    let mut m = base_module();
    m.types.push(FTypeDesc::Pointer { pointee: 1, addr_space: 0 }); // 3
    m.types.push(FTypeDesc::Pointer { pointee: 1, addr_space: 0 }); // 4: same shape, other handle
    m.types.push(FTypeDesc::Pointer { pointee: 2, addr_space: 0 }); // 5: different pointee
    let mut types = Types::new(&m.types);
    let a = types.intern_type(&m.types, 3);
    let b = types.intern_type(&m.types, 4);
    let c = types.intern_type(&m.types, 5);
    assert_ne!(a, b); // distinct instances (interning is by handle identity)
    assert!(types.structural_eq(a, b)); // but structurally equal
    assert!(!types.structural_eq(a, c));
    assert!(types.structural_eq(a, a));
}

#[test]
fn unknown_attribute_does_not_abort_module_conversion() {
    // A function carrying an enumerated attribute the catalog does not
    // track still converts; the attribute degrades to Unknown.
    let mut m = branching_module();
    m.functions[0].function_attributes = vec![FAttribute::Enum { kind: 60_000, value: 0 }];
    let md = Module::from_fmodule(&m).unwrap();
    assert_eq!(
        md.functions[0].function_attributes,
        vec![FunctionAttribute::UnknownAttribute]
    );
}

#[test]
fn ret_carries_its_operand() {
    let mut m = base_module();
    m.constants = vec![FConstDesc::Int { bits: 32, value: 42 }];
    m.values = vec![
        FValueDesc::Constant { c: 0 },
        FValueDesc::Local { ty: 0 },
    ];
    let mut ret = instr(1, OPCODE_RET, 0);
    ret.operands = vec![0];
    let mut f = empty_function("f");
    f.blocks = vec![FBlock { name: "a".to_string(), instructions: vec![], terminator: ret }];
    m.functions = vec![f];
    let md = Module::from_fmodule(&m).unwrap();
    match &md.functions[0].basic_blocks[0].term {
        Terminator::Ret(r) => match &r.return_operand {
            Some(Operand::ConstantOperand(c)) => {
                assert_eq!(md.constants.get(*c), &Constant::Int { bits: 32, value: 42 });
            },
            other => panic!("expected a constant return operand, got {other:?}"),
        },
        other => panic!("expected a return, got {other:?}"),
    }
    // An empty return is represented distinctly, not as a special
    // constant.
    let mut m2 = base_module();
    m2.values = vec![FValueDesc::Local { ty: 0 }];
    let mut f2 = empty_function("g");
    f2.blocks = vec![FBlock {
        name: "a".to_string(),
        instructions: vec![],
        terminator: instr(0, OPCODE_RET, 0),
    }];
    m2.functions = vec![f2];
    let md2 = Module::from_fmodule(&m2).unwrap();
    match &md2.functions[0].basic_blocks[0].term {
        Terminator::Ret(r) => assert_eq!(r.return_operand, None),
        other => panic!("expected a return, got {other:?}"),
    }
}

#[test]
fn indirectbr_collects_all_destinations() {
    let mut m = base_module();
    m.constants = vec![FConstDesc::Int { bits: 32, value: 0 }];
    m.values = vec![
        FValueDesc::Constant { c: 0 },
        FValueDesc::Local { ty: 0 },
        FValueDesc::Local { ty: 0 },
        FValueDesc::Local { ty: 0 },
    ];
    let mut ib = instr(1, llvm_ir::foreign::OPCODE_INDIRECT_BR, 0);
    ib.operands = vec![0];
    ib.successors = vec![1, 2];
    let mut f = empty_function("f");
    f.blocks = vec![
        FBlock { name: "entry".to_string(), instructions: vec![], terminator: ib },
        FBlock {
            name: "x".to_string(),
            instructions: vec![],
            terminator: instr(2, OPCODE_RET, 0),
        },
        FBlock {
            name: "y".to_string(),
            instructions: vec![],
            terminator: instr(3, OPCODE_RET, 0),
        },
    ];
    m.functions = vec![f];
    let md = Module::from_fmodule(&m).unwrap();
    match &md.functions[0].basic_blocks[0].term {
        Terminator::IndirectBr(ib) => {
            assert_eq!(
                ib.possible_dests,
                vec![Name::Name("x".to_string()), Name::Name("y".to_string())]
            );
        },
        other => panic!("expected an indirect branch, got {other:?}"),
    }
}

#[test]
fn catchswitch_handlers_and_unwind() {
    let mut m = base_module();
    m.values = vec![
        FValueDesc::Local { ty: 1 },  // 0: parent pad (parameter stand-in)
        FValueDesc::Local { ty: 1 },  // 1: the catchswitch result (token-like)
        FValueDesc::Local { ty: 0 },  // 2: catchret
        FValueDesc::Local { ty: 0 },  // 3: unreachable
    ];
    let mut cs = instr(1, llvm_ir::foreign::OPCODE_CATCH_SWITCH, 1);
    cs.operands = vec![0];
    cs.handlers = vec![1];
    cs.unwind_dest = None; // unwind to caller
    let mut cr = instr(2, llvm_ir::foreign::OPCODE_CATCH_RET, 0);
    cr.operands = vec![1];
    cr.successors = vec![2];
    let mut f = empty_function("f");
    f.parameters = vec![FParameter {
        value: 0,
        name: "pad".to_string(),
        ty: 1,
        attributes: vec![],
    }];
    f.blocks = vec![
        FBlock { name: "dispatch".to_string(), instructions: vec![], terminator: cs },
        FBlock { name: "handler".to_string(), instructions: vec![], terminator: cr },
        FBlock {
            name: "done".to_string(),
            instructions: vec![],
            terminator: instr(3, OPCODE_UNREACHABLE, 0),
        },
    ];
    m.functions = vec![f];
    let md = Module::from_fmodule(&m).unwrap();
    let f = &md.functions[0];
    match &f.basic_blocks[0].term {
        Terminator::CatchSwitch(cs) => {
            assert_eq!(cs.catch_handlers, vec![Name::Name("handler".to_string())]);
            assert_eq!(cs.default_unwind_dest, None);
            assert_eq!(cs.result, Name::Number(0));
        },
        other => panic!("expected a catchswitch, got {other:?}"),
    }
    match &f.basic_blocks[1].term {
        Terminator::CatchRet(cr) => {
            assert_eq!(cr.successor, Name::Name("done".to_string()));
            match &cr.catch_pad {
                Operand::LocalOperand { name, .. } => assert_eq!(*name, Name::Number(0)),
                other => panic!("expected a local operand, got {other:?}"),
            }
        },
        other => panic!("expected a catchret, got {other:?}"),
    }
}

#[test]
fn resume_carries_its_operand() {
    let mut m = base_module();
    m.values = vec![
        FValueDesc::Local { ty: 1 },
        FValueDesc::Local { ty: 0 },
    ];
    let mut rs = instr(1, llvm_ir::foreign::OPCODE_RESUME, 0);
    rs.operands = vec![0];
    let mut f = empty_function("f");
    f.parameters = vec![FParameter {
        value: 0,
        name: "e".to_string(),
        ty: 1,
        attributes: vec![],
    }];
    f.blocks = vec![FBlock { name: "a".to_string(), instructions: vec![], terminator: rs }];
    m.functions = vec![f];
    let md = Module::from_fmodule(&m).unwrap();
    match &md.functions[0].basic_blocks[0].term {
        Terminator::Resume(rs) => match &rs.operand {
            Operand::LocalOperand { name, .. } => assert_eq!(*name, Name::Name("e".to_string())),
            other => panic!("expected a local operand, got {other:?}"),
        },
        other => panic!("expected a resume, got {other:?}"),
    }
}

#[test]
fn named_structs_register_in_order() {
    let mut m = base_module();
    m.types.push(FTypeDesc::NamedStruct { name: "list".to_string() }); // 3
    m.types.push(FTypeDesc::Pointer { pointee: 3, addr_space: 0 });    // 4: recursion via the name
    m.types.push(FTypeDesc::Struct { elements: vec![1, 4], is_packed: false }); // 5: the body
    m.named_structs = vec![
        ("list".to_string(), Some(5)),
        ("opaque".to_string(), None),
    ];
    let md = Module::from_fmodule(&m).unwrap();
    let def = md.types.named_struct_def(&"list".to_string());
    match def {
        Some(Some(body)) => {
            // The body is a two-element structure; its second element is a
            // pointer whose pointee is the named-structure node itself, so
            // the recursion is broken by the name.
            match md.types.get_node(body) {
                llvm_ir::types::Type::StructType { element_types, is_packed } => {
                    assert_eq!(element_types.len(), 2);
                    assert!(!is_packed);
                    match md.types.get_node(element_types[1]) {
                        llvm_ir::types::Type::PointerType { pointee_type, .. } => {
                            match md.types.get_node(*pointee_type) {
                                llvm_ir::types::Type::NamedStructType { name } => {
                                    assert_eq!(name, "list");
                                },
                                other => panic!("expected the named structure, got {other:?}"),
                            }
                        },
                        other => panic!("expected a pointer element, got {other:?}"),
                    }
                },
                other => panic!("expected a structure body, got {other:?}"),
            }
        },
        other => panic!("expected a defined named structure, got {other:?}"),
    }
    assert_eq!(md.types.named_struct_def(&"opaque".to_string()), Some(None));
    assert_eq!(md.types.named_struct_def(&"missing".to_string()), None);
}
