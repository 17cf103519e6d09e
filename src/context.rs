//! The block builder: walks SM83 code from a start address, collects the
//! host code of each instruction into a code block until control leaves
//! the straight line, and keeps the worklist of jumps whose SM83 target has
//! no block yet.

use std::collections::HashMap;

use vstd::prelude::*;

use crate::decode::{decode_instr, decoded};
use crate::host::{Amd64Instr, HostLabel, HostReg, mem_base_ok};
use crate::instructions::{Instruction, instr_len};
use crate::translate::{
    TranspileInstrRes, disposition, host_code, lemma_transfer_is_labelled,
    transpile_instr_preserve_c_flag,
};

verus! {

broadcast use vstd::std_specs::hash::group_hash_axioms;

/// The size of the ROM window: the 32 KiB of SM83 address space that code
/// is read as code, plus room for a three-byte instruction that starts
/// at its last byte.
pub const ROM_LEN: usize = 32771;

/// The first SM83 address past the ROM; code there may be rewritten at run
/// time.
pub const ROM_END: u16 = 0x8000;

/// Why a block or a region could not be translated.
#[derive(Debug, PartialEq, Eq, Structural, Clone, Copy)]
pub enum CompileError {
    /// The code runs into (or starts in) the writable part of the address
    /// space, or the start address is negative.
    SelfModifyingCode,
    /// The instruction at this address has no translation rule.
    UnsupportedInstruction(u16),
    /// A jump to this address never got a block.
    UnresolvedPatch(u16),
}

/// A jump in a block's host code whose SM83 target has to be resolved:
/// the index of the host instruction and the SM83 address it jumps to.
#[derive(Debug, PartialEq, Eq, Structural, Clone, Copy)]
pub struct Amd64Patch {
    pub index: usize,
    pub sm83_addr: u16,
}

/// The contents of a code block: the SM83 range `[start, end)` it covers,
/// its host code, its patches, the memory base register, and the
/// disposition of its last instruction.
pub ghost struct BlockModel {
    pub start: u16,
    pub end: nat,
    pub code: Seq<Amd64Instr>,
    pub patches: Seq<Amd64Patch>,
    pub mem: HostReg,
    pub exit: TranspileInstrRes,
    pub instrs: Seq<(u16, Instruction)>,
}

/// The host code of a straight run of SM83 code.
pub struct CodeBlock {
    start: u16,
    end: u16,
    out_instrs: Vec<Amd64Instr>,
    patches: Vec<Amd64Patch>,
    mem_reg: HostReg,
    exit: TranspileInstrRes,
    decoded: Ghost<Seq<(u16, Instruction)>>,
}

impl View for CodeBlock {
    type V = BlockModel;

    closed spec fn view(&self) -> BlockModel {
        BlockModel {
            start: self.start,
            end: self.end as nat,
            code: self.out_instrs@,
            patches: self.patches@,
            mem: self.mem_reg,
            exit: self.exit,
            instrs: self.decoded@,
        }
    }
}

/// An empty block at `start`.
pub open spec fn empty_block(mem: HostReg, start: u16) -> BlockModel {
    BlockModel {
        start,
        end: start as nat,
        code: Seq::empty(),
        patches: Seq::empty(),
        mem,
        exit: TranspileInstrRes::Fallthrough,
        instrs: Seq::empty(),
    }
}

/// Whether a disposition ends the straight line.
pub open spec fn ends_block(d: TranspileInstrRes) -> bool {
    d is Lockup || d is Jump || d is Branch || d is Indirect
}

/// The ways control leaves a block towards SM83 addresses: its patches,
/// and for a block that ends in a branch, the fall-through into the next
/// SM83 instruction, as a patch at the block's end (index `code.len()`)
/// that the block at that address resolves.
pub open spec fn exits_of(b: BlockModel) -> Seq<Amd64Patch> {
    if b.exit is Branch {
        b.patches.push(Amd64Patch { index: b.code.len() as usize, sm83_addr: b.end as u16 })
    } else {
        b.patches
    }
}

/// The block after appending the instruction at its end address: its host
/// code is appended, and a jump or branch adds one patch, for its target,
/// at the index of its jump within the whole block.
pub open spec fn block_step(b: BlockModel, i: Instruction) -> BlockModel {
    let pc = b.end as u16;
    let code = b.code + host_code(i, b.mem, pc);
    let end = b.end + instr_len(i);
    let d = disposition(i, pc);
    let instrs = b.instrs.push((pc, i));
    match d {
        TranspileInstrRes::Jump { dest, to_patch } => BlockModel {
            end,
            code,
            patches: b.patches.push(Amd64Patch { index: (b.code.len() + to_patch) as usize, sm83_addr: dest }),
            exit: d,
            instrs,
            ..b
        },
        TranspileInstrRes::Branch { dest, to_patch, .. } => BlockModel {
            end,
            code,
            patches: b.patches.push(Amd64Patch { index: (b.code.len() + to_patch) as usize, sm83_addr: dest }),
            exit: d,
            instrs,
            ..b
        },
        _ => BlockModel { end, code, exit: d, instrs, ..b },
    }
}

/// Continues the block `b` over the SM83 code in `rom` until a jump, a
/// branch, a lockup or an indirect transfer ends it, fails on an
/// unsupported instruction, and fails when the walk
/// reaches the end of the ROM.
pub open spec fn walk(rom: Seq<u8>, b: BlockModel) -> Result<BlockModel, CompileError>
    decreases ROM_END + 3 - b.end,
    via walk_decreases
{
    if b.end >= ROM_END || rom.len() < b.end + 3 {
        Err(CompileError::SelfModifyingCode)
    } else {
        let pc = b.end as int;
        let i = decoded(rom[pc], rom[pc + 1], rom[pc + 2]);
        let d = disposition(i, pc as u16);
        if d is Unsupported {
            Err(CompileError::UnsupportedInstruction(pc as u16))
        } else if ends_block(d) {
            Ok(block_step(b, i))
        } else {
            walk(rom, block_step(b, i))
        }
    }
}

#[via_fn]
proof fn walk_decreases(rom: Seq<u8>, b: BlockModel) {
    if b.end < ROM_END && rom.len() >= b.end + 3 {
        let pc = b.end as int;
        let i = decoded(rom[pc], rom[pc + 1], rom[pc + 2]);
        lemma_code_len(i, b.mem, pc as u16);
        assert(block_step(b, i).end == b.end + instr_len(i));
    }
}

/// The block that translation at `pc` yields.
pub open spec fn block_at(rom: Seq<u8>, mem: HostReg, pc: i16) -> Result<BlockModel, CompileError> {
    if pc < 0 {
        Err(CompileError::SelfModifyingCode)
    } else {
        walk(rom, empty_block(mem, pc as u16))
    }
}

/// The invariant of a block under construction: it lies in the ROM and
/// holds at most six host instructions per SM83 byte.
pub open spec fn block_wf(b: BlockModel) -> bool {
    &&& b.start <= b.end < ROM_END + 3
    &&& b.code.len() <= 6 * (b.end - b.start)
    &&& mem_base_ok(b.mem)
}

/// An instruction never needs more than five host instructions.
proof fn lemma_code_len(i: Instruction, mem: HostReg, pc: u16)
    ensures
        host_code(i, mem, pc).len() <= 5,
        1 <= instr_len(i) <= 3,
{
}

impl CodeBlock {
    /// The first SM83 address of the block.
    pub fn start(&self) -> (r: u16)
        ensures
            r == self@.start,
    {
        self.start
    }

    /// The first SM83 address past the block.
    pub fn end(&self) -> (r: u16)
        ensures
            r as nat == self@.end,
    {
        self.end
    }

    /// The host code of the block.
    pub fn instrs(&self) -> (r: &Vec<Amd64Instr>)
        ensures
            r@ == self@.code,
    {
        &self.out_instrs
    }

    /// The jumps of the block to SM83 addresses.
    pub fn patches(&self) -> (r: &Vec<Amd64Patch>)
        ensures
            r@ == self@.patches,
    {
        &self.patches
    }

    /// The block's exits towards SM83 addresses (see `exits_of`).
    pub fn exits(&self) -> (r: Vec<Amd64Patch>)
        ensures
            r@ == exits_of(self@),
    {
        let mut r: Vec<Amd64Patch> = Vec::new();
        let mut k: usize = 0;
        while k < self.patches.len()
            invariant
                k <= self.patches@.len(),
                r@ == self.patches@.subrange(0, k as int),
            decreases self.patches@.len() - k,
        {
            r.push(self.patches[k]);
            proof {
                assert(self.patches@.subrange(0, k + 1) =~= self.patches@.subrange(0, k as int).push(
                    self.patches@[k as int],
                ));
            }
            k = k + 1;
        }
        proof {
            assert(self.patches@.subrange(0, k as int) =~= self.patches@);
        }
        match self.exit {
            TranspileInstrRes::Branch { .. } => {
                r.push(Amd64Patch { index: self.out_instrs.len(), sm83_addr: self.end });
            },
            _ => {},
        }
        r
    }

    /// The disposition of the block's last instruction.
    pub fn exit(&self) -> (r: TranspileInstrRes)
        ensures
            r == self@.exit,
    {
        self.exit
    }

    /// Translates `sm83_instr`, taken to sit at the block's end address,
    /// and appends it to the block.
    fn push_sm83_instr(&mut self, sm83_instr: Instruction) -> (r: TranspileInstrRes)
        requires
            block_wf(old(self)@),
            old(self)@.end < ROM_END,
        ensures
            final(self)@ == block_step(old(self)@, sm83_instr),
            block_wf(final(self)@),
            r == disposition(sm83_instr, old(self)@.end as u16),
    {
        let at = self.end;
        let (mut x86_instrs, res) = transpile_instr_preserve_c_flag(sm83_instr, self.mem_reg, at);
        proof {
            lemma_code_len(sm83_instr, self.mem_reg, at);
            lemma_transfer_is_labelled(sm83_instr, self.mem_reg, at);
        }
        let base = self.out_instrs.len();
        self.end = at + sm83_instr.len();
        self.exit = res;
        self.decoded = Ghost(self.decoded@.push((at, sm83_instr)));
        // a patch is numbered within the whole block
        match res {
            TranspileInstrRes::Branch { cond: _, dest, to_patch } => {
                self.patches.push(Amd64Patch { index: base + to_patch, sm83_addr: dest });
                self.out_instrs.append(&mut x86_instrs);
            },
            TranspileInstrRes::Jump { dest, to_patch } => {
                self.patches.push(Amd64Patch { index: base + to_patch, sm83_addr: dest });
                self.out_instrs.append(&mut x86_instrs);
            },
            _ => {
                self.out_instrs.append(&mut x86_instrs);
            },
        }
        res
    }

    /// An empty block at `start`.
    fn new(mem_reg: HostReg, start: u16) -> (r: Self)
        requires
            mem_base_ok(mem_reg),
        ensures
            r@ == empty_block(mem_reg, start),
    {
        CodeBlock {
            start,
            end: start,
            out_instrs: Vec::new(),
            patches: Vec::new(),
            mem_reg,
            exit: TranspileInstrRes::Fallthrough,
            decoded: Ghost(Seq::empty()),
        }
    }
}

/// Translates the block that starts at `pc`: decodes and translates one
/// instruction after the other until a jump, a branch, a lockup or an
/// indirect transfer ends the block. The fall-through of a branch is left
/// to the block at the next address (see `exits_of`). A negative `pc`, or a walk that runs past the ROM, is rejected as
/// self-modifying code; an instruction without a translation rule fails
/// the block.
pub fn transpile_block_at(rom: &[u8; ROM_LEN], pc: i16, outer_ctx: &Context) -> (r: Result<
    CodeBlock,
    CompileError,
>)
    requires
        mem_base_ok(outer_ctx.mem()),
    ensures
        match r {
            Ok(b) => block_at(rom@, outer_ctx.mem(), pc) == Ok::<BlockModel, CompileError>(b@),
            Err(e) => block_at(rom@, outer_ctx.mem(), pc) == Err::<BlockModel, CompileError>(e),
        },
{
    if pc < 0 {
        return Err(CompileError::SelfModifyingCode);
    }
    let mut block = CodeBlock::new(outer_ctx.mem_base_reg, pc as u16);
    loop
        invariant
            block_wf(block@),
            rom@.len() == ROM_LEN,
            walk(rom@, block@) == block_at(rom@, outer_ctx.mem(), pc),
        decreases ROM_END + 3 - block@.end,
    {
        let at = block.end();
        if at >= ROM_END {
            return Err(CompileError::SelfModifyingCode);
        }
        let i = at as usize;
        let next_instr_bytes: [u8; 3] = [rom[i], rom[i + 1], rom[i + 2]];
        let sm83_instr = decode_instr(next_instr_bytes);
        proof {
            lemma_code_len(sm83_instr, block@.mem, at);
        }
        let res = block.push_sm83_instr(sm83_instr);
        match res {
            TranspileInstrRes::Unsupported { .. } => {
                return Err(CompileError::UnsupportedInstruction(at));
            },
            TranspileInstrRes::Fallthrough => {},
            _ => {
                return Ok(block);
            },
        }
    }
}

/// An exit of a sealed block that still waits for its target: the block's
/// index, the host instruction's index within it (the block's length for
/// the fall-through of a branch), and the SM83 target.
#[derive(Debug, PartialEq, Eq, Structural, Clone, Copy)]
pub struct PendingPatch {
    pub block: usize,
    pub index: usize,
    pub sm83_addr: u16,
}

/// Whether one of `blocks` starts at `addr`.
pub open spec fn sealed_at(blocks: Seq<BlockModel>, addr: u16) -> bool {
    exists|j: int| 0 <= j < blocks.len() && (#[trigger] blocks[j]).start == addr
}

/// The blocks start at distinct addresses, all in the ROM.
pub open spec fn starts_distinct(blocks: Seq<BlockModel>) -> bool {
    &&& forall|i: int, j: int|
        0 <= i < j < blocks.len() ==> (#[trigger] blocks[i]).start != (#[trigger] blocks[j]).start
    &&& forall|i: int| 0 <= i < blocks.len() ==> (#[trigger] blocks[i]).start < ROM_END
}

/// The pending patches once a block at `addr` exists: those that target
/// another address, in order.
pub open spec fn resolve(pending: Seq<PendingPatch>, addr: u16) -> Seq<PendingPatch>
    decreases pending.len(),
{
    if pending.len() == 0 {
        Seq::empty()
    } else {
        let rest = resolve(pending.drop_last(), addr);
        if pending.last().sm83_addr != addr {
            rest.push(pending.last())
        } else {
            rest
        }
    }
}

/// The patches `ps` of block number `block` whose target none of `blocks`
/// starts at, in order.
pub open spec fn still_pending(ps: Seq<Amd64Patch>, block: usize, blocks: Seq<BlockModel>) -> Seq<
    PendingPatch,
>
    decreases ps.len(),
{
    if ps.len() == 0 {
        Seq::empty()
    } else {
        let rest = still_pending(ps.drop_last(), block, blocks);
        let p = ps.last();
        if sealed_at(blocks, p.sm83_addr) {
            rest
        } else {
            rest.push(PendingPatch { block, index: p.index, sm83_addr: p.sm83_addr })
        }
    }
}

/// The translation state of a region: the sealed blocks, keyed by their
/// start address, and the worklist of patches that wait for a block.
pub struct Context {
    /// The host register that holds the base address of the emulated
    /// memory. It must be one that the binding leaves free and that needs
    /// no REX prefix, since such a prefix rules out `AH`, `BH`, `CH` and
    /// `DH` in the same instruction: `RBP`.
    pub mem_base_reg: HostReg,
    blocks: Vec<CodeBlock>,
    // SM83 start address -> index of its block in `blocks`
    label_map: HashMap<u16, usize>,
    pending: Vec<PendingPatch>,
}

impl Context {
    /// The memory base register.
    pub closed spec fn mem(&self) -> HostReg {
        self.mem_base_reg
    }

    /// The sealed blocks, in the order they were translated.
    pub closed spec fn blocks_model(&self) -> Seq<BlockModel> {
        self.blocks@.map_values(|b: CodeBlock| b@)
    }

    /// The address map holds exactly the start of every block, mapped to
    /// the block's index.
    pub closed spec fn index_ok(&self) -> bool {
        forall|a: u16|
            #![trigger self.label_map@.contains_key(a)]
            #![trigger sealed_at(self.blocks_model(), a)]
            (self.label_map@.contains_key(a) <==> sealed_at(self.blocks_model(), a)) && (
            self.label_map@.contains_key(a) ==> self.label_map@[a] < self.blocks@.len()
                && self.blocks_model()[self.label_map@[a] as int].start == a)
    }

    /// The patches that wait for a block.
    pub closed spec fn pending_model(&self) -> Seq<PendingPatch> {
        self.pending@
    }

    /// Every pending patch belongs to a sealed block and targets an address
    /// at which no block starts; the blocks start at distinct addresses in
    /// the ROM.
    pub open spec fn wf(&self) -> bool {
        &&& mem_base_ok(self.mem())
        &&& self.index_ok()
        &&& forall|k: int|
            0 <= k < self.pending_model().len() ==> {
                &&& (#[trigger] self.pending_model()[k]).block < self.blocks_model().len()
                &&& !sealed_at(self.blocks_model(), self.pending_model()[k].sm83_addr)
            }
        &&& starts_distinct(self.blocks_model())
    }

    /// A context with no block, for code that addresses memory from
    /// `mem_base_reg`.
    pub fn new(mem_base_reg: HostReg) -> (r: Self)
        requires
            mem_base_ok(mem_base_reg),
        ensures
            r.mem() == mem_base_reg,
            r.blocks_model().len() == 0,
            r.pending_model().len() == 0,
            r.wf(),
    {
        let r = Context {
            mem_base_reg,
            blocks: Vec::new(),
            label_map: HashMap::new(),
            pending: Vec::new(),
        };
        proof {
            assert(r.blocks_model() =~= Seq::<BlockModel>::empty());
        }
        r
    }

    /// The number of sealed blocks.
    pub fn num_blocks(&self) -> (r: usize)
        ensures
            r == self.blocks_model().len(),
    {
        self.blocks.len()
    }

    /// The sealed block number `j`.
    pub fn block(&self, j: usize) -> (r: &CodeBlock)
        requires
            j < self.blocks_model().len(),
        ensures
            r@ == self.blocks_model()[j as int],
    {
        &self.blocks[j]
    }

    /// The number of the block that starts at `addr`, if there is one.
    pub fn block_index_at(&self, addr: u16) -> (r: Option<usize>)
        requires
            self.index_ok(),
        ensures
            match r {
                Some(j) => j < self.blocks_model().len() && self.blocks_model()[j as int].start
                    == addr,
                None => !sealed_at(self.blocks_model(), addr),
            },
    {
        match self.label_map.get(&addr) {
            Some(j) => Some(*j),
            None => None,
        }
    }

    /// The SM83 targets of the pending patches, in worklist order.
    pub fn pending_targets(&self) -> (r: Vec<u16>)
        ensures
            r@.len() == self.pending_model().len(),
            forall|k: int| 0 <= k < r@.len() ==> r@[k] == self.pending_model()[k].sm83_addr,
    {
        let mut r: Vec<u16> = Vec::new();
        let mut k: usize = 0;
        while k < self.pending.len()
            invariant
                k <= self.pending@.len(),
                r@.len() == k,
                forall|m: int| 0 <= m < k ==> r@[m] == self.pending_model()[m].sm83_addr,
            decreases self.pending@.len() - k,
        {
            r.push(self.pending[k].sm83_addr);
            k = k + 1;
        }
        r
    }

    /// Translates the block at `pc` unless one starts there already, and
    /// returns its number. A new block is sealed: every pending patch that
    /// targets `pc` is resolved and leaves the worklist, and the new
    /// block's exits (its patches and a branch's fall-through) join it
    /// unless a sealed block (the new one included) starts at their target.
    /// On an error nothing changes.
    pub fn translate_block(&mut self, rom: &[u8; ROM_LEN], pc: i16) -> (r: Result<
        usize,
        CompileError,
    >)
        requires
            old(self).wf(),
        ensures
            final(self).wf(),
            final(self).mem() == old(self).mem(),
            pc < 0 ==> r == Err::<usize, CompileError>(CompileError::SelfModifyingCode),
            r is Err || (pc >= 0 && sealed_at(old(self).blocks_model(), pc as u16)) ==> {
                &&& final(self).blocks_model() == old(self).blocks_model()
                &&& final(self).pending_model() == old(self).pending_model()
            },
            pc >= 0 && sealed_at(old(self).blocks_model(), pc as u16) ==> (r matches Ok(j) && j
                < old(self).blocks_model().len() && old(self).blocks_model()[j as int].start == pc
                as u16),
            pc >= 0 && !sealed_at(old(self).blocks_model(), pc as u16) ==> match block_at(
                rom@,
                old(self).mem(),
                pc,
            ) {
                Err(e) => r == Err::<usize, CompileError>(e),
                Ok(b) => {
                    &&& r == Ok::<usize, CompileError>(old(self).blocks_model().len() as usize)
                    &&& final(self).blocks_model() == old(self).blocks_model().push(b)
                    &&& final(self).pending_model() == resolve(old(self).pending_model(), pc as u16)
                        + still_pending(
                        exits_of(b),
                        old(self).blocks_model().len() as usize,
                        final(self).blocks_model(),
                    )
                },
            },
            r matches Ok(j) ==> (j < final(self).blocks_model().len()
                && final(self).blocks_model()[j as int].start == pc as u16),
            r is Ok ==> forall|k: int|
                0 <= k < final(self).pending_model().len() ==> (#[trigger] final(self).pending_model()[k]).sm83_addr
                    != pc as u16,
    {
        if pc < 0 {
            return Err(CompileError::SelfModifyingCode);
        }
        let start = pc as u16;
        match self.block_index_at(start) {
            Some(j) => {
                proof {
                    assert(forall|k: int|
                        0 <= k < self.pending_model().len() ==> (#[trigger] self.pending_model()[k]).sm83_addr
                            != start);
                }
                return Ok(j);
            },
            None => {},
        }
        let block = match transpile_block_at(rom, pc, self) {
            Ok(b) => b,
            Err(e) => {
                return Err(e);
            },
        };
        let ghost old_blocks = self.blocks_model();
        let ghost old_pending = self.pending_model();
        let ghost b = block@;
        let exits = block.exits();
        proof {
            lemma_walk_keeps(rom@, empty_block(self.mem(), start));
        }
        let new_index = self.blocks.len();
        let ghost old_map = self.label_map@;
        self.blocks.push(block);
        self.label_map.insert(start, new_index);
        proof {
            assert(self.blocks_model() =~= old_blocks.push(b));
            assert(self.blocks_model()[new_index as int].start == start);
            assert forall|i: int, j: int|
                0 <= i < j < self.blocks_model().len() implies (#[trigger] self.blocks_model()[i]).start
                != (#[trigger] self.blocks_model()[j]).start by {
                if j == new_index {
                    assert(old_blocks[i] == self.blocks_model()[i]);
                } else {
                    assert(old_blocks[i] == self.blocks_model()[i]);
                    assert(old_blocks[j] == self.blocks_model()[j]);
                }
            }
            assert forall|i: int| 0 <= i < self.blocks_model().len() implies (
            #[trigger] self.blocks_model()[i]).start < ROM_END by {
                if i < new_index {
                    assert(old_blocks[i] == self.blocks_model()[i]);
                }
            }
            let blocks = self.blocks_model();
            assert forall|a: u16|
                (self.label_map@.contains_key(a) <==> sealed_at(blocks, a)) && (
                self.label_map@.contains_key(a) ==> self.label_map@[a] < self.blocks@.len()
                    && blocks[self.label_map@[a] as int].start == a) by {
                if a == start {
                    assert(blocks[new_index as int].start == a);
                } else {
                    assert(old_map.contains_key(a) <==> sealed_at(old_blocks, a));
                    if sealed_at(blocks, a) {
                        let j = choose|j: int| 0 <= j < blocks.len() && (#[trigger] blocks[j]).start == a;
                        assert(j < old_blocks.len());
                        assert(old_blocks[j] == blocks[j]);
                    }
                    if sealed_at(old_blocks, a) {
                        let j = choose|j: int| 0 <= j < old_blocks.len() && (#[trigger] old_blocks[j]).start == a;
                        assert(old_blocks[j] == blocks[j]);
                    }
                    if old_map.contains_key(a) {
                        assert(old_blocks[old_map[a] as int] == blocks[old_map[a] as int]);
                    }
                }
            }
            assert(self.index_ok());
        }
        // resolve what waited for this block
        let mut kept: Vec<PendingPatch> = Vec::new();
        let mut k: usize = 0;
        while k < self.pending.len()
            invariant
                self.pending@ == old_pending,
                self.blocks_model() == old_blocks.push(b),
                k <= old_pending.len(),
                kept@ == resolve(old_pending.subrange(0, k as int), start),
            decreases old_pending.len() - k,
        {
            let p = self.pending[k];
            proof {
                assert(old_pending.subrange(0, k + 1).drop_last() =~= old_pending.subrange(
                    0,
                    k as int,
                ));
            }
            if p.sm83_addr != start {
                kept.push(p);
            }
            k = k + 1;
        }
        proof {
            assert(old_pending.subrange(0, old_pending.len() as int) =~= old_pending);
        }
        // the new block's patches that still wait
        proof {
            assert(self.blocks_model()[new_index as int] == self.blocks@[new_index as int]@);
        }
        let mut m: usize = 0;
        let ghost ps = exits_of(b);
        let n = exits.len();
        while m < n
            invariant
                self.blocks_model() == old_blocks.push(b),
                self.index_ok(),
                new_index == old_blocks.len(),
                ps == exits_of(b),
                exits@ == ps,
                n == ps.len(),
                m <= n,
                kept@ == resolve(old_pending, start) + still_pending(
                    ps.subrange(0, m as int),
                    new_index,
                    self.blocks_model(),
                ),
            decreases n - m,
        {
            proof {
                assert(self.blocks_model()[new_index as int] == self.blocks@[new_index as int]@);
            }
            let patch = exits[m];
            proof {
                assert(ps.subrange(0, m + 1).drop_last() =~= ps.subrange(0, m as int));
            }
            match self.block_index_at(patch.sm83_addr) {
                Some(_) => {},
                None => {
                    kept.push(
                        PendingPatch { block: new_index, index: patch.index, sm83_addr: patch.sm83_addr },
                    );
                    proof {
                        let l = resolve(old_pending, start);
                        let t = still_pending(ps.subrange(0, m as int), new_index, self.blocks_model());
                        assert((l + t).push(
                            PendingPatch { block: new_index, index: patch.index, sm83_addr: patch.sm83_addr },
                        ) =~= l + t.push(
                            PendingPatch { block: new_index, index: patch.index, sm83_addr: patch.sm83_addr },
                        ));
                    }
                },
            }
            m = m + 1;
        }
        proof {
            assert(ps.subrange(0, n as int) =~= ps);
        }
        self.pending = kept;
        proof {
            lemma_sealed_pending_wf(old_pending, old_blocks, b, start, ps, new_index);
        }
        Ok(new_index)
    }

    /// Translates the region reachable from `pc`: the block at `pc`, then
    /// the block at the target of the first pending patch, and so on until
    /// no patch waits. Stops at the first block that cannot be translated;
    /// the blocks sealed until then stay.
    pub fn translate_from(&mut self, rom: &[u8; ROM_LEN], pc: i16) -> (r: Result<(), CompileError>)
        requires
            old(self).wf(),
        ensures
            final(self).wf(),
            final(self).mem() == old(self).mem(),
            old(self).blocks_model().len() <= final(self).blocks_model().len(),
            final(self).blocks_model().subrange(0, old(self).blocks_model().len() as int)
                == old(self).blocks_model(),
            r is Ok ==> pc >= 0 && sealed_at(final(self).blocks_model(), pc as u16)
                && final(self).pending_model().len() == 0,
            r matches Err(e) ==> {
                ||| (pc < 0 && e == CompileError::SelfModifyingCode)
                ||| (pc >= 0 && !sealed_at(old(self).blocks_model(), pc as u16) && block_at(
                    rom@,
                    old(self).mem(),
                    pc,
                ) == Err::<BlockModel, CompileError>(e))
                ||| (final(self).pending_model().len() > 0 && ({
                    let a = final(self).pending_model()[0].sm83_addr;
                    ||| (a >= ROM_END && e == CompileError::SelfModifyingCode)
                    ||| (a < ROM_END && block_at(rom@, old(self).mem(), a as i16) == Err::<
                        BlockModel,
                        CompileError,
                    >(e))
                }))
            },
    {
        let ghost old_blocks = self.blocks_model();
        match self.translate_block(rom, pc) {
            Ok(_) => {},
            Err(e) => {
                return Err(e);
            },
        }
        proof {
            assert(self.blocks_model().subrange(0, old_blocks.len() as int) =~= old_blocks);
            lemma_room_for_block(self.blocks_model(), 0);
        }
        loop
            invariant
                self.wf(),
                self.mem() == old(self).mem(),
                old_blocks == old(self).blocks_model(),
                old_blocks.len() <= self.blocks_model().len() <= ROM_END,
                self.blocks_model().subrange(0, old_blocks.len() as int) == old_blocks,
                pc >= 0,
                sealed_at(self.blocks_model(), pc as u16),
            decreases ROM_END - self.blocks_model().len(),
        {
            if self.pending.len() == 0 {
                return Ok(());
            }
            let target = self.pending[0].sm83_addr;
            if target >= ROM_END {
                return Err(CompileError::SelfModifyingCode);
            }
            let ghost before = self.blocks_model();
            proof {
                assert(self.pending_model()[0].sm83_addr == target);
                assert(!sealed_at(before, target));
                lemma_room_for_block(before, target);
            }
            match self.translate_block(rom, target as i16) {
                Ok(_) => {},
                Err(e) => {
                    return Err(e);
                },
            }
            proof {
                let after = self.blocks_model();
                assert(after.subrange(0, old_blocks.len() as int) =~= before.subrange(
                    0,
                    old_blocks.len() as int,
                ));
                let j = choose|j: int| 0 <= j < before.len() && (#[trigger] before[j]).start == pc as u16;
                assert(after[j] == before[j]);
            }
        }
    }

    /// Succeeds when no patch waits for a block; otherwise reports the
    /// target of the first one that does.
    pub fn finish(&self) -> (r: Result<(), CompileError>)
        ensures
            self.pending_model().len() == 0 ==> r is Ok,
            self.pending_model().len() > 0 ==> r == Err::<(), CompileError>(
                CompileError::UnresolvedPatch(self.pending_model()[0].sm83_addr),
            ),
    {
        if self.pending.len() == 0 {
            Ok(())
        } else {
            Err(CompileError::UnresolvedPatch(self.pending[0].sm83_addr))
        }
    }
}

/// Each patch that `still_pending` keeps belongs to `block` and targets an
/// address at which none of `blocks` starts.
proof fn lemma_still_pending(ps: Seq<Amd64Patch>, block: usize, blocks: Seq<BlockModel>)
    ensures
        forall|k: int|
            0 <= k < still_pending(ps, block, blocks).len() ==> {
                &&& (#[trigger] still_pending(ps, block, blocks)[k]).block == block
                &&& !sealed_at(blocks, still_pending(ps, block, blocks)[k].sm83_addr)
            },
    decreases ps.len(),
{
    if ps.len() > 0 {
        lemma_still_pending(ps.drop_last(), block, blocks);
        let rest = still_pending(ps.drop_last(), block, blocks);
        let out = still_pending(ps, block, blocks);
        assert forall|k: int| 0 <= k < out.len() implies {
            &&& (#[trigger] out[k]).block == block
            &&& !sealed_at(blocks, out[k].sm83_addr)
        } by {
            if k < rest.len() {
                assert(out[k] == rest[k]);
            }
        }
    }
}

/// At most `ROM_END` distinct addresses lie in the ROM.
proof fn lemma_distinct_in_rom(starts: Seq<int>)
    requires
        starts.no_duplicates(),
        forall|i: int| 0 <= i < starts.len() ==> 0 <= #[trigger] starts[i] < ROM_END,
    ensures
        starts.len() <= ROM_END,
{
    starts.unique_seq_to_set();
    let range = vstd::set_lib::set_int_range(0, ROM_END as int);
    vstd::set_lib::lemma_int_range(0, ROM_END as int);
    assert forall|x: int| starts.to_set().contains(x) implies range.contains(x) by {
        let i = choose|i: int| 0 <= i < starts.len() && starts[i] == x;
    }
    vstd::set_lib::lemma_len_subset(starts.to_set(), range);
}

/// Blocks at distinct addresses in the ROM number at most `ROM_END`, and
/// fewer when an address in the ROM starts none of them.
proof fn lemma_room_for_block(blocks: Seq<BlockModel>, addr: u16)
    requires
        starts_distinct(blocks),
    ensures
        blocks.len() <= ROM_END,
        addr < ROM_END && !sealed_at(blocks, addr) ==> blocks.len() < ROM_END,
{
    let starts = blocks.map_values(|b: BlockModel| b.start as int);
    assert forall|i: int, j: int| 0 <= i < starts.len() && 0 <= j < starts.len() && i != j implies starts[i]
        != starts[j] by {
        if i < j {
            assert(blocks[i].start != blocks[j].start);
        } else {
            assert(blocks[j].start != blocks[i].start);
        }
    }
    assert forall|i: int| 0 <= i < starts.len() implies 0 <= #[trigger] starts[i] < ROM_END by {
        assert(blocks[i].start < ROM_END);
    }
    lemma_distinct_in_rom(starts);
    if addr < ROM_END && !sealed_at(blocks, addr) {
        let more = starts.push(addr as int);
        assert forall|i: int, j: int| 0 <= i < more.len() && 0 <= j < more.len() && i != j implies more[i]
            != more[j] by {
            if i < starts.len() && j < starts.len() {
                assert(more[i] == starts[i] && more[j] == starts[j]);
            } else if i < starts.len() {
                assert(blocks[i].start != addr);
            } else if j < starts.len() {
                assert(blocks[j].start != addr);
            }
        }
        assert forall|i: int| 0 <= i < more.len() implies 0 <= #[trigger] more[i] < ROM_END by {
            if i < starts.len() {
                assert(more[i] == starts[i]);
            }
        }
        lemma_distinct_in_rom(more);
    }
}

/// A walk keeps the block's start and memory base.
proof fn lemma_walk_keeps(rom: Seq<u8>, b: BlockModel)
    ensures
        walk(rom, b) matches Ok(r) ==> r.start == b.start && r.mem == b.mem,
    decreases ROM_END + 3 - b.end,
{
    if b.end < ROM_END && rom.len() >= b.end + 3 {
        let pc = b.end as int;
        let i = decoded(rom[pc], rom[pc + 1], rom[pc + 2]);
        lemma_code_len(i, b.mem, pc as u16);
        lemma_walk_keeps(rom, block_step(b, i));
    }
}

/// What `resolve` keeps targets another address and keeps every property
/// that all pending patches had.
proof fn lemma_resolve(pending: Seq<PendingPatch>, addr: u16, n: nat, blocks: Seq<BlockModel>)
    requires
        forall|k: int|
            0 <= k < pending.len() ==> {
                &&& (#[trigger] pending[k]).block < n
                &&& !sealed_at(blocks, pending[k].sm83_addr)
            },
    ensures
        forall|k: int|
            0 <= k < resolve(pending, addr).len() ==> {
                &&& (#[trigger] resolve(pending, addr)[k]).block < n
                &&& !sealed_at(blocks, resolve(pending, addr)[k].sm83_addr)
                &&& resolve(pending, addr)[k].sm83_addr != addr
            },
    decreases pending.len(),
{
    if pending.len() > 0 {
        let front = pending.drop_last();
        assert forall|k: int| 0 <= k < front.len() implies {
            &&& (#[trigger] front[k]).block < n
            &&& !sealed_at(blocks, front[k].sm83_addr)
        } by {
            assert(front[k] == pending[k]);
        }
        lemma_resolve(front, addr, n, blocks);
        assert(pending.last() == pending[pending.len() - 1]);
        let rest = resolve(front, addr);
        let out = resolve(pending, addr);
        assert forall|k: int| 0 <= k < out.len() implies {
            &&& (#[trigger] out[k]).block < n
            &&& !sealed_at(blocks, out[k].sm83_addr)
            &&& out[k].sm83_addr != addr
        } by {
            if k < rest.len() {
                assert(out[k] == rest[k]);
            }
        }
    }
}

/// Sealing a block at `start` keeps the worklist invariant.
proof fn lemma_sealed_pending_wf(
    old_pending: Seq<PendingPatch>,
    old_blocks: Seq<BlockModel>,
    b: BlockModel,
    start: u16,
    ps: Seq<Amd64Patch>,
    new_index: usize,
)
    requires
        b.start == start,
        new_index == old_blocks.len(),
        forall|k: int|
            0 <= k < old_pending.len() ==> {
                &&& (#[trigger] old_pending[k]).block < old_blocks.len()
                &&& !sealed_at(old_blocks, old_pending[k].sm83_addr)
            },
    ensures
        ({
            let blocks = old_blocks.push(b);
            let pending = resolve(old_pending, start) + still_pending(ps, new_index, blocks);
            forall|k: int|
                0 <= k < pending.len() ==> {
                    &&& (#[trigger] pending[k]).block < blocks.len()
                    &&& !sealed_at(blocks, pending[k].sm83_addr)
                    &&& pending[k].sm83_addr != start
                }
        }),
{
    let blocks = old_blocks.push(b);
    let left = resolve(old_pending, start);
    let right = still_pending(ps, new_index, blocks);
    lemma_still_pending(ps, new_index, blocks);
    lemma_resolve(old_pending, start, old_blocks.len(), old_blocks);
    assert(blocks[new_index as int].start == start);
    assert forall|k: int| 0 <= k < left.len() implies {
        &&& (#[trigger] left[k]).block < blocks.len()
        &&& !sealed_at(blocks, left[k].sm83_addr)
        &&& left[k].sm83_addr != start
    } by {
        let p = left[k];
        if sealed_at(blocks, p.sm83_addr) {
            let j = choose|j: int| 0 <= j < blocks.len() && (#[trigger] blocks[j]).start == p.sm83_addr;
            if j < old_blocks.len() {
                assert(old_blocks[j] == blocks[j]);
                assert(sealed_at(old_blocks, p.sm83_addr));
            }
        }
    }
    assert forall|k: int| 0 <= k < right.len() implies {
        &&& (#[trigger] right[k]).block < blocks.len()
        &&& !sealed_at(blocks, right[k].sm83_addr)
        &&& right[k].sm83_addr != start
    } by {
        if right[k].sm83_addr == start {
            assert(blocks[new_index as int].start == start);
        }
    }
    let pending = left + right;
    assert forall|k: int| 0 <= k < pending.len() implies {
        &&& (#[trigger] pending[k]).block < blocks.len()
        &&& !sealed_at(blocks, pending[k].sm83_addr)
        &&& pending[k].sm83_addr != start
    } by {
        if k < left.len() {
            assert(pending[k] == left[k]);
        } else {
            assert(pending[k] == right[k - left.len()]);
        }
    }
}

/// The host code of a run of instructions, each at its SM83 address, in
/// order.
pub open spec fn code_of(instrs: Seq<(u16, Instruction)>, mem: HostReg) -> Seq<Amd64Instr>
    decreases instrs.len(),
{
    if instrs.len() == 0 {
        Seq::empty()
    } else {
        code_of(instrs.drop_last(), mem) + host_code(instrs.last().1, mem, instrs.last().0)
    }
}

/// The disposition of the `k`-th instruction of a run.
pub open spec fn disp_at(instrs: Seq<(u16, Instruction)>, k: int) -> TranspileInstrRes {
    disposition(instrs[k].1, instrs[k].0)
}

/// None of the first `n` instructions ends a block or is unsupported.
pub open spec fn straight(instrs: Seq<(u16, Instruction)>, n: int) -> bool {
    forall|k: int| 0 <= k < n ==> !ends_block(#[trigger] disp_at(instrs, k)) && !(disp_at(instrs, k) is Unsupported)
}

/// A block's code is the concatenation of its instructions' translations,
/// and every patch points at a host jump to the label of its target.
pub open spec fn block_consistent(b: BlockModel) -> bool {
    &&& b.code == code_of(b.instrs, b.mem)
    &&& forall|k: int|
        0 <= k < b.patches.len() ==> {
            &&& (#[trigger] b.patches[k]).index < b.code.len()
            &&& b.code[b.patches[k].index as int].dest_label == Some(HostLabel::Sm83(b.patches[k].sm83_addr))
        }
}

/// How a finished block ends: its code is the concatenation of the
/// translations of its instructions; every instruction but the last falls
/// through; the last one locks up, jumps, branches or leaves indirectly. A
/// block that ends in a jump or a branch holds exactly one patch, for that
/// transfer's target, on its last host instruction, and nothing after it;
/// a block that locks up or leaves indirectly holds none.
pub open spec fn block_exit_ok(b: BlockModel) -> bool {
    &&& b.instrs.len() >= 1
    &&& straight(b.instrs, b.instrs.len() - 1)
    &&& ends_block(disp_at(b.instrs, b.instrs.len() - 1))
    &&& b.exit == disp_at(b.instrs, b.instrs.len() - 1)
    &&& block_consistent(b)
    &&& (b.exit is Lockup || b.exit is Indirect) ==> b.patches.len() == 0
    &&& b.exit matches TranspileInstrRes::Jump { dest, .. } ==> {
        &&& b.code.len() >= 1
        &&& b.patches == seq![Amd64Patch { index: (b.code.len() - 1) as usize, sm83_addr: dest }]
        &&& b.code.last().dest_label == Some(HostLabel::Sm83(dest))
    }
    &&& b.exit matches TranspileInstrRes::Branch { dest, .. } ==> {
        &&& b.code.len() >= 1
        &&& b.patches == seq![Amd64Patch { index: (b.code.len() - 1) as usize, sm83_addr: dest }]
        &&& b.code.last().dest_label == Some(HostLabel::Sm83(dest))
    }
}

/// What a walk from a consistent block of straight-line instructions ends
/// in.
proof fn lemma_walk_exit(rom: Seq<u8>, b: BlockModel)
    requires
        block_consistent(b),
        straight(b.instrs, b.instrs.len() as int),
        b.patches.len() == 0,
        b.start <= b.end,
        b.code.len() <= 6 * (b.end - b.start),
    ensures
        walk(rom, b) matches Ok(r) ==> block_exit_ok(r),
    decreases ROM_END + 3 - b.end,
{
    if b.end < ROM_END && rom.len() >= b.end + 3 {
        let pc = b.end as int;
        let i = decoded(rom[pc], rom[pc + 1], rom[pc + 2]);
        let code = host_code(i, b.mem, pc as u16);
        lemma_code_len(i, b.mem, pc as u16);
        lemma_transfer_is_labelled(i, b.mem, pc as u16);
        let d = disposition(i, pc as u16);
        let r = block_step(b, i);
        if !(d is Unsupported) {
            assert(r.instrs.drop_last() =~= b.instrs);
            assert(r.code == code_of(r.instrs, r.mem));
            assert forall|k: int| 0 <= k < r.patches.len() implies {
                &&& (#[trigger] r.patches[k]).index < r.code.len()
                &&& r.code[r.patches[k].index as int].dest_label == Some(HostLabel::Sm83(r.patches[k].sm83_addr))
            } by {
                if k < b.patches.len() {
                    assert(r.patches[k] == b.patches[k]);
                    assert(r.code[b.patches[k].index as int] == b.code[b.patches[k].index as int]);
                } else {
                    match d {
                        TranspileInstrRes::Jump { dest, to_patch } => {
                            assert(r.code[b.code.len() + to_patch] == code[to_patch as int]);
                        },
                        TranspileInstrRes::Branch { dest, to_patch, .. } => {
                            assert(r.code[b.code.len() + to_patch] == code[to_patch as int]);
                        },
                        _ => {},
                    }
                }
            }
            assert forall|k: int| 0 <= k < b.instrs.len() implies disp_at(r.instrs, k) == disp_at(b.instrs, k) by {
                assert(r.instrs[k] == b.instrs[k]);
            }
            assert(disp_at(r.instrs, b.instrs.len() as int) == d);
            if ends_block(d) {
                match d {
                    TranspileInstrRes::Jump { dest, to_patch } => {
                        assert(r.code[b.code.len() + to_patch] == code[to_patch as int]);
                        assert(r.patches =~= seq![
                            Amd64Patch { index: (r.code.len() - 1) as usize, sm83_addr: dest },
                        ]);
                    },
                    TranspileInstrRes::Branch { dest, to_patch, .. } => {
                        assert(r.code[b.code.len() + to_patch] == code[to_patch as int]);
                        assert(r.patches =~= seq![
                            Amd64Patch { index: (r.code.len() - 1) as usize, sm83_addr: dest },
                        ]);
                    },
                    _ => {},
                }
            } else {
                lemma_walk_exit(rom, r);
            }
        }
    }
}

/// A block ends at the first instruction that locks up, jumps, branches
/// or leaves indirectly, and holds nothing after it: every earlier
/// instruction falls through, its code is the concatenation of their
/// translations, and a block that ends in a jump or branch holds exactly
/// one patch, on its last host instruction, while one that locks up or
/// leaves indirectly holds none.
pub proof fn lemma_block_termination(rom: Seq<u8>, mem: HostReg, pc: i16)
    ensures
        block_at(rom, mem, pc) matches Ok(b) ==> block_exit_ok(b),
{
    if pc >= 0 {
        assert(code_of(Seq::<(u16, Instruction)>::empty(), mem) == Seq::<Amd64Instr>::empty());
        lemma_walk_exit(rom, empty_block(mem, pc as u16));
    }
}

} // verus!
