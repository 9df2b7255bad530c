//! Basic blocks of the owned model, and the first naming pass over a
//! foreign block.
//!
//! Decoding a function takes two passes over its body. The first pass
//! only assigns a `Name` to every block and every result-producing
//! instruction — an explicit name where the foreign module has one, the
//! next value of the per-function counter where it does not. Only then
//! are instructions translated, so that forward references (a branch to a
//! later block, a use before the defining instruction) resolve against an
//! already-complete name map.

use vstd::prelude::*;

use crate::foreign::instr_produces_result;
use crate::foreign::term_produces_result;
use crate::foreign::FBlock;
use crate::foreign::FInstruction;
use crate::foreign::FTypeDesc;
use crate::name::Name;
use crate::name::NameV;

verus! {

/// The counter value after the first pass has walked the first `j`
/// instructions of a block's non-terminator list, starting from `start`:
/// each result-producing instruction without an explicit name consumes
/// one number.
pub open spec fn p1_ctr_instrs(
    ts: Seq<FTypeDesc>,
    instrs: Seq<FInstruction>,
    start: nat,
    j: int,
) -> nat
    decreases j,
{
    if j <= 0 || j > instrs.len() {
        start
    } else {
        let prev = p1_ctr_instrs(ts, instrs, start, j - 1);
        if instr_produces_result(ts, instrs[j - 1]) {
            Name::spec_ctr_after(instrs[j - 1].name@, prev)
        } else {
            prev
        }
    }
}

/// The name the first pass assigns to the result of instruction `j` of a
/// block whose instruction walk starts at counter value `start`. Defined
/// for result-producing instructions.
pub open spec fn p1_instr_name(
    ts: Seq<FTypeDesc>,
    instrs: Seq<FInstruction>,
    start: nat,
    j: int,
) -> NameV {
    Name::spec_name_or_num(instrs[j].name@, p1_ctr_instrs(ts, instrs, start, j))
}

/// The counter value at which a block's instruction walk starts: the
/// block's own name is assigned first.
pub open spec fn p1_ctr_after_block_name(b: FBlock, start: nat) -> nat {
    Name::spec_ctr_after(b.name@, start)
}

/// The name the first pass assigns to the block itself.
pub open spec fn p1_block_name(b: FBlock, start: nat) -> NameV {
    Name::spec_name_or_num(b.name@, start)
}

/// The counter value at which a block's terminator is named: after the
/// block's name and all its non-terminator instructions.
pub open spec fn p1_ctr_at_term(ts: Seq<FTypeDesc>, b: FBlock, start: nat) -> nat {
    p1_ctr_instrs(
        ts,
        b.instructions@,
        p1_ctr_after_block_name(b, start),
        b.instructions@.len() as int,
    )
}

/// The name the first pass assigns to the block's terminator result.
/// Defined for result-producing terminators.
pub open spec fn p1_term_name(ts: Seq<FTypeDesc>, b: FBlock, start: nat) -> NameV {
    Name::spec_name_or_num(b.terminator.name@, p1_ctr_at_term(ts, b, start))
}

/// The counter value after the first pass has walked a whole block,
/// starting from `start`.
pub open spec fn p1_ctr_block(ts: Seq<FTypeDesc>, b: FBlock, start: nat) -> nat {
    let at_term = p1_ctr_at_term(ts, b, start);
    if term_produces_result(b.terminator) {
        Name::spec_ctr_after(b.terminator.name@, at_term)
    } else {
        at_term
    }
}

/// The counter never decreases along a block's instruction walk.
pub proof fn lemma_p1_ctr_instrs_mono(
    ts: Seq<FTypeDesc>,
    instrs: Seq<FInstruction>,
    start: nat,
    j1: int,
    j2: int,
)
    requires
        0 <= j1 <= j2 <= instrs.len(),
    ensures
        p1_ctr_instrs(ts, instrs, start, j1) <= p1_ctr_instrs(ts, instrs, start, j2),
    decreases j2 - j1,
{
    if j1 < j2 {
        lemma_p1_ctr_instrs_mono(ts, instrs, start, j1, j2 - 1);
    }
}

/// The instruction walk never goes below its starting value.
pub proof fn lemma_p1_ctr_instrs_ge_start(
    ts: Seq<FTypeDesc>,
    instrs: Seq<FInstruction>,
    start: nat,
    j: int,
)
    ensures
        start <= p1_ctr_instrs(ts, instrs, start, j),
    decreases j,
{
    if j > 0 && j <= instrs.len() {
        lemma_p1_ctr_instrs_ge_start(ts, instrs, start, j - 1);
    }
}

/// A whole block's walk never goes below its starting value.
pub proof fn lemma_p1_ctr_block_ge_start(ts: Seq<FTypeDesc>, b: FBlock, start: nat)
    ensures
        start <= p1_ctr_block(ts, b, start),
{
    lemma_p1_ctr_instrs_ge_start(
        ts,
        b.instructions@,
        p1_ctr_after_block_name(b, start),
        b.instructions@.len() as int,
    );
}

/// Whether value handle `v` is registered by the first pass over block
/// `b`: it is the result of instruction `j` — `j` equal to the
/// non-terminator count standing for the terminator — and that
/// instruction produces a result.
pub open spec fn block_reg(ts: Seq<FTypeDesc>, b: FBlock, j: int, v: int) -> bool {
    if 0 <= j < b.instructions@.len() {
        instr_produces_result(ts, b.instructions@[j]) && b.instructions@[j].value as int == v
    } else if j == b.instructions@.len() {
        term_produces_result(b.terminator) && b.terminator.value as int == v
    } else {
        false
    }
}

/// The name the first pass over block `b`, starting at `start`, assigns
/// to the registered position `j`.
pub open spec fn block_reg_name(ts: Seq<FTypeDesc>, b: FBlock, start: nat, j: int) -> NameV {
    if j < b.instructions@.len() {
        p1_instr_name(ts, b.instructions@, p1_ctr_after_block_name(b, start), j)
    } else {
        p1_term_name(ts, b, start)
    }
}

} // verus!

verus! {

use crate::foreign::FTypeDesc as FT;
use crate::foreign::OPCODE_CALL_BR;
use crate::foreign::OPCODE_CATCH_SWITCH;
use crate::foreign::OPCODE_INVOKE;

/// First naming pass over one foreign block: assign the block its name,
/// then walk its instructions in declared order and record a name in the
/// value-name map for every result-producing one — the explicit foreign
/// name where there is one, the next counter value where there is none.
/// Nothing is translated yet.
#[verifier::loop_isolation(false)]
pub fn first_pass_names(
    ftypes: &Vec<FTypeDesc>,
    block: &FBlock,
    ctr: &mut usize,
    val_names: &mut Vec<Option<Name>>,
) -> (bbname: Name)
    requires
        forall|j: int|
            0 <= j < block.instructions@.len() ==> ((#[trigger] block.instructions@[j]).value
                as int) < old(val_names)@.len() && ((block.instructions@[j]).ty as int)
                < ftypes@.len(),
        (block.terminator.value as int) < old(val_names)@.len(),
        (block.terminator.ty as int) < ftypes@.len(),
        forall|j1: int, j2: int, v1: int, v2: int|
            #[trigger] block_reg(ftypes@, *block, j1, v1) && #[trigger] block_reg(
                ftypes@,
                *block,
                j2,
                v2,
            ) && j1 != j2 ==> v1 != v2,
        p1_ctr_block(ftypes@, *block, *old(ctr) as nat) <= usize::MAX,
    ensures
        bbname@ == p1_block_name(*block, *old(ctr) as nat),
        *final(ctr) == p1_ctr_block(ftypes@, *block, *old(ctr) as nat),
        final(val_names)@.len() == old(val_names)@.len(),
        forall|j: int, v: int|
            #[trigger] block_reg(ftypes@, *block, j, v) ==> (final(val_names)@[v] matches Some(n)
                && n@ == block_reg_name(ftypes@, *block, *old(ctr) as nat, j)),
        forall|v: int|
            0 <= v < old(val_names)@.len() && !(exists|j: int|
                block_reg(ftypes@, *block, j, v)) ==> final(val_names)@[v] == old(val_names)@[v],
{
    let ghost ts = ftypes@;
    let ghost start = *old(ctr) as nat;
    let ghost c1 = p1_ctr_after_block_name(*block, start);
    proof {
        lemma_p1_ctr_instrs_ge_start(
            ts,
            block.instructions@,
            c1,
            block.instructions@.len() as int,
        );
    }
    let bbname = Name::name_or_num(block.name.clone(), ctr);
    let mut j: usize = 0;
    while j < block.instructions.len()
        invariant
            ftypes@ == ts,
            0 <= j <= block.instructions@.len(),
            forall|jj: int|
                0 <= jj < block.instructions@.len() ==> ((#[trigger] block.instructions@[jj]).value
                    as int) < val_names@.len() && ((block.instructions@[jj]).ty as int)
                    < ts.len(),
            (block.terminator.value as int) < val_names@.len(),
            forall|j1: int, j2: int, v1: int, v2: int|
                #[trigger] block_reg(ts, *block, j1, v1) && #[trigger] block_reg(
                    ts,
                    *block,
                    j2,
                    v2,
                ) && j1 != j2 ==> v1 != v2,
            p1_ctr_block(ts, *block, start) <= usize::MAX,
            *ctr == p1_ctr_instrs(ts, block.instructions@, c1, j as int),
            val_names@.len() == old(val_names)@.len(),
            forall|jj: int, v: int|
                0 <= jj < j && #[trigger] block_reg(ts, *block, jj, v) ==> (
                val_names@[v] matches Some(n) && n@ == block_reg_name(ts, *block, start, jj)),
            forall|v: int|
                0 <= v < val_names@.len() && !(exists|jj: int|
                    0 <= jj < j && block_reg(ts, *block, jj, v)) ==> val_names@[v] == old(
                    val_names,
                )@[v],
        decreases block.instructions@.len() - j,
    {
        let instr = &block.instructions[j];
        let produces = !matches!(&ftypes[instr.ty], FT::Void);
        proof {
            assert(produces == instr_produces_result(ts, block.instructions@[j as int]));
        }
        if produces {
            proof {
                assert(block_reg(ts, *block, j as int, instr.value as int));
                lemma_p1_ctr_instrs_mono(
                    ts,
                    block.instructions@,
                    c1,
                    j as int + 1,
                    block.instructions@.len() as int,
                );
                assert(p1_ctr_instrs(ts, block.instructions@, c1, block.instructions@.len() as int)
                    == p1_ctr_at_term(ts, *block, start));
                assert(p1_ctr_at_term(ts, *block, start) <= p1_ctr_block(ts, *block, start));
                if block.instructions@[j as int].name@.len() == 0 {
                    assert(p1_ctr_instrs(ts, block.instructions@, c1, j as int + 1) == *ctr
                        + 1);
                }
            }
            let n = Name::name_or_num(instr.name.clone(), ctr);
            let ghost nv = n@;
            let ghost before = val_names@;
            let v = instr.value;
            val_names[v] = Some(n);
            proof {
                assert(val_names@ == before.update(v as int, Some(n)));
                assert(nv == block_reg_name(ts, *block, start, j as int));
                assert forall|jj: int, vv: int|
                    0 <= jj < j + 1 && #[trigger] block_reg(ts, *block, jj, vv) implies (
                    val_names@[vv] matches Some(nn) && nn@ == block_reg_name(
                    ts,
                    *block,
                    start,
                    jj,
                )) by {
                    assert(0 <= vv < before.len());
                    if jj < j {
                        assert(block_reg(ts, *block, j as int, v as int));
                        assert(vv != v as int);
                        assert(val_names@[vv] == before[vv]);
                    } else {
                        assert(vv == v as int);
                        assert(val_names@[vv] == Some(n));
                    }
                }
            }
        } else {
            proof {
                assert(!block_reg(ts, *block, j as int, instr.value as int));
            }
        }
        j = j + 1;
    }
    let op = block.terminator.opcode;
    if op == OPCODE_INVOKE || op == OPCODE_CATCH_SWITCH || op == OPCODE_CALL_BR {
        proof {
            assert(block_reg(ts, *block, block.instructions@.len() as int,
                block.terminator.value as int));
        }
        let n = Name::name_or_num(block.terminator.name.clone(), ctr);
        let ghost before = val_names@;
        let v = block.terminator.value;
        val_names[v] = Some(n);
        proof {
            let tj = block.instructions@.len() as int;
            assert(val_names@ == before.update(v as int, Some(n)));
            assert(n@ == block_reg_name(ts, *block, start, tj));
            assert forall|jj: int, vv: int| #[trigger] block_reg(ts, *block, jj, vv) implies (
                val_names@[vv] matches Some(nn) && nn@ == block_reg_name(ts, *block, start, jj)) by {
                assert(0 <= vv < before.len());
                assert(block_reg(ts, *block, tj, v as int));
                if jj != tj {
                    assert(vv != v as int);
                    assert(val_names@[vv] == before[vv]);
                } else {
                    assert(vv == v as int);
                    assert(val_names@[vv] == Some(n));
                }
            }
        }
    }
    bbname
}

} // verus!

verus! {

use crate::debugloc::opt_debugloc_view;
use crate::error::DecodeError;
use crate::foreign::wf_fblock;
use crate::foreign::wf_fmodule;
use crate::foreign::FModule;
use crate::function::FunctionContext;
use crate::instruction::instr_decodable;
use crate::instruction::instr_matches;
use crate::instruction::lemma_instr_matches_extend;
use crate::instruction::Instruction;
use crate::module::ModuleContext;
use crate::terminator::lemma_term_matches_extend;
use crate::terminator::term_decodable;
use crate::terminator::term_matches;
use crate::terminator::Terminator;

/// A basic block: a name, an ordered list of non-terminator
/// instructions, and exactly one terminator, which by construction stands
/// after every instruction.
#[derive(PartialEq, Clone, Debug)]
pub struct BasicBlock {
    pub name: Name,
    pub instrs: Vec<Instruction>,
    pub term: Terminator,
}

/// One element of a basic block, seen as a single sequence.
pub enum BlockElement {
    Instr(Instruction),
    Term(Terminator),
}

impl BasicBlock {
    /// The block as one sequence of elements: its instructions in order,
    /// then its terminator.
    pub open spec fn elements(&self) -> Seq<BlockElement> {
        Seq::new(
            self.instrs@.len(),
            |j: int|
                if 0 <= j < self.instrs@.len() {
                    BlockElement::Instr(self.instrs@[j])
                } else {
                    BlockElement::Term(self.term)
                },
        ).push(BlockElement::Term(self.term))
    }
}

/// Terminator-finality: in every basic block, the last element is the
/// terminator and no earlier element is one. The decoders preserve this
/// by construction — the block type separates the terminator — so it
/// holds of every block, decoded or not.
pub proof fn lemma_terminator_finality(b: BasicBlock)
    ensures
        b.elements().len() == b.instrs@.len() + 1,
        b.elements().last() is Term,
        forall|j: int| 0 <= j < b.elements().len() - 1 ==> b.elements()[j] is Instr,
{
    assert forall|j: int| 0 <= j < b.elements().len() - 1 implies b.elements()[j] is Instr by {
        assert(b.elements()[j] == BlockElement::Instr(b.instrs@[j]));
    }
}

/// Whether a foreign block decodes, given the first-pass maps: every
/// instruction and the terminator must decode.
pub open spec fn bblock_decodable(
    m: FModule,
    bb: Seq<Name>,
    vn: Seq<Option<Name>>,
    b: FBlock,
) -> bool {
    &&& forall|j: int|
        0 <= j < b.instructions@.len() ==> instr_decodable(m, vn, #[trigger] b.instructions@[j])
    &&& term_decodable(m, bb, vn, b.terminator)
}

/// The decoded block `x` is exactly what foreign block `b` — block `bi`
/// of its function — denotes: the block's first-pass name, every
/// instruction in order, and the terminator.
pub open spec fn bblock_matches(
    x: BasicBlock,
    m: FModule,
    bb: Seq<Name>,
    vn: Seq<Option<Name>>,
    b: FBlock,
    bi: int,
    ctx: ModuleContext,
) -> bool {
    &&& x.name@ == bb[bi]@
    &&& x.instrs@.len() == b.instructions@.len()
    &&& forall|j: int|
        0 <= j < b.instructions@.len() ==> instr_matches(
            #[trigger] x.instrs@[j],
            m,
            vn,
            b.instructions@[j],
            ctx,
        )
    &&& term_matches(x.term, m, bb, vn, b.terminator, ctx)
}

/// A decoded block keeps matching its foreign block as the session's
/// interners grow.
pub proof fn lemma_bblock_matches_extend(
    x: BasicBlock,
    m: FModule,
    bb: Seq<Name>,
    vn: Seq<Option<Name>>,
    b: FBlock,
    bi: int,
    ctx1: ModuleContext,
    ctx2: ModuleContext,
)
    requires
        wf_fblock(m, b),
        bblock_decodable(m, bb, vn, b),
        ctx1.types.wf(),
        ctx1.constants.wf(ctx1.types),
        ctx2.extends(ctx1),
        bblock_matches(x, m, bb, vn, b, bi, ctx1),
    ensures
        bblock_matches(x, m, bb, vn, b, bi, ctx2),
{
    assert forall|j: int| 0 <= j < b.instructions@.len() implies instr_matches(
        #[trigger] x.instrs@[j],
        m,
        vn,
        b.instructions@[j],
        ctx2,
    ) by {
        lemma_instr_matches_extend(x.instrs@[j], m, vn, b.instructions@[j], ctx1, ctx2);
    }
    lemma_term_matches_extend(x.term, m, bb, vn, b.terminator, ctx1, ctx2);
}

impl BasicBlock {
    /// Second, translating pass over one foreign block: decode every
    /// instruction and the terminator, resolving names through the
    /// complete first-pass maps. The block's own name is the one the
    /// first pass assigned.
    pub fn from_llvm_ref(
        b: &FBlock,
        bi: usize,
        m: &FModule,
        ctx: &mut ModuleContext,
        func_ctx: &FunctionContext,
    ) -> (r: Result<BasicBlock, DecodeError>)
        requires
            old(ctx).wf(*m),
            wf_fmodule(*m),
            wf_fblock(*m, *b),
            func_ctx.val_names@.len() == m.values@.len(),
            (bi as int) < func_ctx.bb_names@.len(),
        ensures
            final(ctx).wf(*m),
            final(ctx).extends(*old(ctx)),
            r.is_ok() <==> bblock_decodable(*m, func_ctx.bb_names@, func_ctx.val_names@, *b),
            r matches Ok(x) ==> bblock_matches(
                x,
                *m,
                func_ctx.bb_names@,
                func_ctx.val_names@,
                *b,
                bi as int,
                *final(ctx),
            ),
    {
        let ghost bb = func_ctx.bb_names@;
        let ghost vn = func_ctx.val_names@;
        let name = func_ctx.bb_names[bi].clone();
        let mut instrs: Vec<Instruction> = Vec::new();
        let mut j: usize = 0;
        while j < b.instructions.len()
            invariant
                ctx.wf(*m),
                wf_fmodule(*m),
                wf_fblock(*m, *b),
                func_ctx.val_names@.len() == m.values@.len(),
                bb == func_ctx.bb_names@,
                vn == func_ctx.val_names@,
                ctx.extends(*old(ctx)),
                0 <= j <= b.instructions@.len(),
                instrs@.len() == j,
                forall|k: int|
                    0 <= k < j ==> instr_decodable(*m, vn, #[trigger] b.instructions@[k]),
                forall|k: int|
                    0 <= k < j ==> instr_matches(
                        #[trigger] instrs@[k],
                        *m,
                        vn,
                        b.instructions@[k],
                        *ctx,
                    ),
            decreases b.instructions@.len() - j,
        {
            let ghost c_pre = *ctx;
            let instr = match Instruction::from_llvm_ref(&b.instructions[j], m, ctx, func_ctx) {
                Ok(x) => x,
                Err(e) => {
                    return Err(e);
                },
            };
            proof {
                ModuleContext::lemma_extends_trans(ctx, &c_pre, old(ctx));
                assert forall|k: int| 0 <= k < j implies instr_matches(
                    #[trigger] instrs@[k],
                    *m,
                    vn,
                    b.instructions@[k],
                    *ctx,
                ) by {
                    lemma_instr_matches_extend(instrs@[k], *m, vn, b.instructions@[k], c_pre, *ctx);
                }
            }
            instrs.push(instr);
            j = j + 1;
        }
        let ghost c_loop = *ctx;
        let term = match Terminator::from_llvm_ref(&b.terminator, m, ctx, func_ctx) {
            Ok(x) => x,
            Err(e) => {
                return Err(e);
            },
        };
        proof {
            ModuleContext::lemma_extends_trans(ctx, &c_loop, old(ctx));
            assert forall|k: int| 0 <= k < b.instructions@.len() implies instr_matches(
                #[trigger] instrs@[k],
                *m,
                vn,
                b.instructions@[k],
                *ctx,
            ) by {
                lemma_instr_matches_extend(instrs@[k], *m, vn, b.instructions@[k], c_loop, *ctx);
            }
        }
        Ok(BasicBlock { name, instrs, term })
    }
}

} // verus!

verus! {

use crate::foreign::wf_finstruction;
use crate::operand::operand_decodable;

/// Two first-pass map pairs agree on everything decodability observes:
/// the block count, and which value handles have a name.
pub open spec fn same_map_obs(
    bb1: Seq<Name>,
    vn1: Seq<Option<Name>>,
    bb2: Seq<Name>,
    vn2: Seq<Option<Name>>,
) -> bool {
    &&& bb1.len() == bb2.len()
    &&& vn1.len() == vn2.len()
    &&& forall|v: int| 0 <= v < vn1.len() ==> ((#[trigger] vn1[v]) is Some <==> (#[trigger] vn2[v]) is Some)
}

/// Whether a terminator decodes depends only on what the maps observe:
/// the block count and which handles are named.
pub proof fn lemma_term_decodable_congruent(
    m: FModule,
    bb1: Seq<Name>,
    vn1: Seq<Option<Name>>,
    bb2: Seq<Name>,
    vn2: Seq<Option<Name>>,
    t: crate::foreign::FInstruction,
)
    requires
        wf_finstruction(m, t),
        vn1.len() == m.values@.len(),
        same_map_obs(bb1, vn1, bb2, vn2),
    ensures
        term_decodable(m, bb1, vn1, t) == term_decodable(m, bb2, vn2, t),
{
    assert forall|v: int| 0 <= v < m.values@.len() implies (operand_decodable(m, vn1, v)
        == operand_decodable(m, vn2, v)) by {
        assert(vn1[v] is Some <==> vn2[v] is Some);
    }
    if t.opcode == crate::foreign::OPCODE_INVOKE || t.opcode == crate::foreign::OPCODE_CALL_BR {
        if let Some(ci) = t.call {
            assert(crate::instruction::callinfo_decodable(m, vn1, ci)
                == crate::instruction::callinfo_decodable(m, vn2, ci)) by {
                assert(forall|j: int|
                    0 <= j < ci.arguments@.len() ==> (operand_decodable(
                        m,
                        vn1,
                        (#[trigger] ci.arguments@[j]).0 as int,
                    ) == operand_decodable(m, vn2, ci.arguments@[j].0 as int)));
                match ci.callee {
                    crate::foreign::FCallee::Value { v } => {
                        assert(operand_decodable(m, vn1, v as int) == operand_decodable(
                            m,
                            vn2,
                            v as int,
                        ));
                    },
                    _ => {},
                }
            }
            assert(vn1[t.value as int] is Some <==> vn2[t.value as int] is Some);
        }
    }
}

/// Whether a non-terminator instruction decodes depends only on what the
/// maps observe.
pub proof fn lemma_instr_decodable_congruent(
    m: FModule,
    vn1: Seq<Option<Name>>,
    vn2: Seq<Option<Name>>,
    i: crate::foreign::FInstruction,
)
    requires
        wf_finstruction(m, i),
        vn1.len() == m.values@.len(),
        vn2.len() == vn1.len(),
        forall|v: int| 0 <= v < vn1.len() ==> ((#[trigger] vn1[v]) is Some <==> (#[trigger] vn2[v]) is Some),
    ensures
        instr_decodable(m, vn1, i) == instr_decodable(m, vn2, i),
{
    assert forall|v: int| 0 <= v < m.values@.len() implies (operand_decodable(m, vn1, v)
        == operand_decodable(m, vn2, v)) by {
        assert(vn1[v] is Some <==> vn2[v] is Some);
    }
}

/// Whether a whole block decodes depends only on what the maps observe.
pub proof fn lemma_bblock_decodable_congruent(
    m: FModule,
    bb1: Seq<Name>,
    vn1: Seq<Option<Name>>,
    bb2: Seq<Name>,
    vn2: Seq<Option<Name>>,
    b: FBlock,
)
    requires
        wf_fblock(m, b),
        vn1.len() == m.values@.len(),
        same_map_obs(bb1, vn1, bb2, vn2),
    ensures
        bblock_decodable(m, bb1, vn1, b) == bblock_decodable(m, bb2, vn2, b),
{
    assert forall|j: int| 0 <= j < b.instructions@.len() implies (instr_decodable(
        m,
        vn1,
        #[trigger] b.instructions@[j],
    ) == instr_decodable(m, vn2, b.instructions@[j])) by {
        lemma_instr_decodable_congruent(m, vn1, vn2, b.instructions@[j]);
    }
    lemma_term_decodable_congruent(m, bb1, vn1, bb2, vn2, b.terminator);
}

} // verus!
