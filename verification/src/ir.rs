//! The intermediate representation: a control-flow graph of blocks holding
//! doubly-linked instructions, over a store of interned, deduplicated values.

use vstd::prelude::*;

use crate::forest::entity_sets_view;
use crate::forest::EntitySetForest;
use crate::lex::numeral::Numeral;
use crate::string_pool::StringRef;
use crate::vec_cell::VecCell;

verus! {

/// A typed dense-integer handle naming a block of the graph.
#[derive(Clone, Copy, Debug, PartialEq, Eq, Structural, Hash, PartialOrd, Ord)]
pub struct BlockRef(pub u32);

/// A typed dense-integer handle naming an instruction of the graph.
#[derive(Clone, Copy, Debug, PartialEq, Eq, Structural, Hash, PartialOrd, Ord)]
pub struct InstructionRef(pub u32);

/// A typed dense-integer handle naming an interned operand value.
#[derive(Clone, Copy, Debug, PartialEq, Eq, Structural, Hash, PartialOrd, Ord)]
pub struct ValueRef(pub u32);

impl BlockRef {
    /// Wraps a raw dense index.
    pub fn new(index: u32) -> (r: Self)
        ensures
            r.0 == index,
    {
        BlockRef(index)
    }

    /// The raw dense index behind this reference.
    pub fn index(self) -> (r: u32)
        ensures
            r == self.0,
    {
        self.0
    }
}

impl InstructionRef {
    /// Wraps a raw dense index.
    pub fn new(index: u32) -> (r: Self)
        ensures
            r.0 == index,
    {
        InstructionRef(index)
    }

    /// The raw dense index behind this reference.
    pub fn index(self) -> (r: u32)
        ensures
            r == self.0,
    {
        self.0
    }
}

impl ValueRef {
    /// Wraps a raw dense index.
    pub fn new(index: u32) -> (r: Self)
        ensures
            r.0 == index,
    {
        ValueRef(index)
    }

    /// The raw dense index behind this reference.
    pub fn index(self) -> (r: u32)
        ensures
            r == self.0,
    {
        self.0
    }
}

/// An immutable, pure, structurally-deduplicated operand.
///
/// Values form a DAG through structural sharing: a value may refer to other
/// values, to an instruction's result, or to a block argument, but interning
/// can never build a cycle.
#[derive(Clone, Copy, Debug, PartialEq, Eq, Structural, Hash)]
pub enum Value {
    Nil,
    Bool(bool),
    Int(i64),
    /// A float constant, carried as its bit pattern.
    Float(u64),
    String(StringRef),
    InstructionResult(InstructionRef),
    /// The argument of a block, named by position.
    BlockArgument(BlockRef, u32),
    Unpack(ValueRef, u32),
    Trailing(ValueRef, u32),
    /// Boolean negation as a pure derived value.
    Not(ValueRef),
    CoerceBool(ValueRef),
}

/// A control transfer's destination together with the ordered values handed
/// to the destination block's arguments.
#[derive(Clone, Debug)]
pub struct BranchTarget {
    pub block: BlockRef,
    pub args: Vec<ValueRef>,
}

impl BranchTarget {
    /// A target of `block` carrying `args`.
    pub fn new(block: BlockRef, args: Vec<ValueRef>) -> (r: Self)
        ensures
            r.block == block,
            r.args == args,
    {
        BranchTarget { block, args }
    }
}

/// A control-dependent operation.
#[derive(Clone, Debug)]
pub enum Op {
    Table,
    Local,
    LocalGet(ValueRef),
    LocalSet(ValueRef, ValueRef),
    Branch(BranchTarget),
    BranchIf(ValueRef, BranchTarget, BranchTarget),
    Bnot(ValueRef),
    Len(ValueRef),
    Unm(ValueRef),
    Add(ValueRef, ValueRef),
    Band(ValueRef, ValueRef),
    Bor(ValueRef, ValueRef),
    Bxor(ValueRef, ValueRef),
    Concat(ValueRef, ValueRef),
    Div(ValueRef, ValueRef),
    Eq(ValueRef, ValueRef),
    Ge(ValueRef, ValueRef),
    Gt(ValueRef, ValueRef),
    Idiv(ValueRef, ValueRef),
    Index(ValueRef, ValueRef),
    Le(ValueRef, ValueRef),
    Lt(ValueRef, ValueRef),
    Mod(ValueRef, ValueRef),
    Mul(ValueRef, ValueRef),
    Ne(ValueRef, ValueRef),
    Pow(ValueRef, ValueRef),
    Shl(ValueRef, ValueRef),
    Shr(ValueRef, ValueRef),
    Sub(ValueRef, ValueRef),
    Newindex(ValueRef, ValueRef, ValueRef),
    Call(ValueRef, Vec<ValueRef>),
    TailCall(ValueRef, Vec<ValueRef>),
    Return(Vec<ValueRef>),
}

/// An instruction: its operation and its position inside the owning block's
/// doubly-linked chain. A detached instruction has all three links empty.
#[derive(Debug)]
pub struct Instruction {
    pub op: Op,
    pub prior: Option<InstructionRef>,
    pub next: Option<InstructionRef>,
    pub block: Option<BlockRef>,
}

/// A block: an exclusively-owned chain of instructions, addressed by its head
/// and tail, with the full chain carried alongside as a ghost sequence.
pub struct Block {
    pub head: Option<InstructionRef>,
    pub tail: Option<InstructionRef>,
    pub chain: Ghost<Seq<InstructionRef>>,
}

/// Owns every block, instruction and value of one compilation unit, all
/// addressed by dense typed indices and never freed individually.
pub struct Graph {
    blocks: Vec<Block>,
    instructions: Vec<Instruction>,
    values: Vec<Value>,
    pred_sets: EntitySetForest,
}

impl Graph {
    /// The blocks, in creation order.
    pub closed spec fn blocks_seq(self) -> Seq<Block> {
        self.blocks@
    }

    /// The instructions, in creation order.
    pub closed spec fn instrs_seq(self) -> Seq<Instruction> {
        self.instructions@
    }

    /// The canonical value store, in allocation order.
    pub closed spec fn values_seq(self) -> Seq<Value> {
        self.values@
    }

    /// The predecessor set of each block, in block order.
    pub closed spec fn preds_view(self) -> Seq<Set<u32>> {
        entity_sets_view(self.pred_sets)
    }

    /// The predecessor set of block `b`.
    pub open spec fn preds_of(self, b: int) -> Set<u32> {
        self.preds_view()[b]
    }

    pub open spec fn num_blocks(self) -> int {
        self.blocks_seq().len() as int
    }

    pub open spec fn num_instructions(self) -> int {
        self.instrs_seq().len() as int
    }

    pub open spec fn num_values(self) -> int {
        self.values_seq().len() as int
    }

    /// The instruction chain of block `b`, in block order.
    pub open spec fn chain_of(self, b: int) -> Seq<InstructionRef> {
        self.blocks_seq()[b].chain@
    }

    pub open spec fn valid_block(self, b: BlockRef) -> bool {
        b.0 < self.num_blocks()
    }

    pub open spec fn valid_instruction(self, i: InstructionRef) -> bool {
        i.0 < self.num_instructions()
    }

    pub open spec fn valid_value(self, v: ValueRef) -> bool {
        v.0 < self.num_values()
    }

    /// A detached instruction: not owned by any block, with empty links.
    pub open spec fn detached(self, i: InstructionRef) -> bool {
        &&& self.instrs_seq()[i.0 as int].block is None
        &&& self.instrs_seq()[i.0 as int].prior is None
        &&& self.instrs_seq()[i.0 as int].next is None
    }

    /// A linked instruction: owned by some block.
    pub open spec fn linked(self, i: InstructionRef) -> bool {
        self.instrs_seq()[i.0 as int].block is Some
    }

    /// Block `b`'s head, tail and its members' neighbor links all agree with
    /// its chain sequence.
    pub open spec fn wf_chain_links(self, b: int) -> bool {
        let c = self.chain_of(b);
        &&& self.blocks_seq()[b].head == (if c.len() == 0 {
            Option::<InstructionRef>::None
        } else {
            Some(c[0])
        })
        &&& self.blocks_seq()[b].tail == (if c.len() == 0 {
            Option::<InstructionRef>::None
        } else {
            Some(c[c.len() - 1])
        })
        &&& forall|k: int| 0 <= k < c.len() ==> (#[trigger] c[k]).0 < self.num_instructions()
        &&& forall|k: int|
            0 <= k < c.len() ==> (#[trigger] self.instrs_seq()[c[k].0 as int]).block == Some(
                BlockRef(b as u32),
            )
        &&& forall|k: int|
            0 <= k < c.len() ==> (#[trigger] self.instrs_seq()[c[k].0 as int]).prior == (if k == 0 {
                Option::<InstructionRef>::None
            } else {
                Some(c[k - 1])
            })
        &&& forall|k: int|
            0 <= k < c.len() ==> (#[trigger] self.instrs_seq()[c[k].0 as int]).next == (if k == c.len()
                - 1 {
                Option::<InstructionRef>::None
            } else {
                Some(c[k + 1])
            })
        &&& forall|k1: int, k2: int| 0 <= k1 < k2 < c.len() ==> c[k1] != c[k2]
    }

    /// Every instruction is owned by at most one block: a linked instruction
    /// stands in its owner's chain, a detached one has empty neighbor links.
    pub open spec fn wf_membership(self) -> bool {
        forall|ii: int|
            0 <= ii < self.num_instructions() ==> match (#[trigger] self.instrs_seq()[ii]).block {
                Some(b) => b.0 < self.num_blocks() && self.chain_of(b.0 as int).contains(
                    InstructionRef(ii as u32),
                ),
                None => self.instrs_seq()[ii].prior is None && self.instrs_seq()[ii].next is None,
            }
    }

    /// The value store holds each value at most once.
    pub open spec fn values_distinct(self) -> bool {
        forall|i: int, j: int|
            0 <= i < j < self.num_values() ==> self.values_seq()[i] != self.values_seq()[j]
    }

    /// The graph's structural invariant: every mutator re-establishes it
    /// before returning, so no half-updated state is ever observable.
    pub open spec fn wf(self) -> bool {
        &&& self.num_blocks() <= u32::MAX
        &&& self.num_instructions() <= u32::MAX
        &&& self.num_values() <= u32::MAX
        &&& self.values_distinct()
        &&& self.preds_view().len() == self.num_blocks()
        &&& forall|b: int| 0 <= b < self.num_blocks() ==> self.wf_chain_links(b)
        &&& self.wf_membership()
    }

    /// An empty graph.
    pub fn new() -> (r: Self)
        ensures
            r.wf(),
            r.num_blocks() == 0,
            r.num_instructions() == 0,
            r.num_values() == 0,
            r.preds_view() =~= Seq::<Set<u32>>::empty(),
    {
        Graph {
            blocks: Vec::new(),
            instructions: Vec::new(),
            values: Vec::new(),
            pred_sets: EntitySetForest::new(),
        }
    }

    /// How many blocks exist.
    pub fn block_count(&self) -> (r: usize)
        ensures
            r == self.num_blocks(),
    {
        self.blocks.len()
    }

    /// How many instructions exist, linked or detached.
    pub fn instruction_count(&self) -> (r: usize)
        ensures
            r == self.num_instructions(),
    {
        self.instructions.len()
    }

    /// How many distinct values have been interned.
    pub fn value_count(&self) -> (r: usize)
        ensures
            r == self.num_values(),
    {
        self.values.len()
    }

    /// The canonical value behind a reference.
    pub fn value(&self, r: ValueRef) -> (v: &Value)
        requires
            self.valid_value(r),
        ensures
            *v == self.values_seq()[r.0 as int],
    {
        &self.values[r.0 as usize]
    }

    /// The instruction behind a reference.
    pub fn instruction(&self, r: InstructionRef) -> (i: &Instruction)
        requires
            self.valid_instruction(r),
        ensures
            *i == self.instrs_seq()[r.0 as int],
    {
        &self.instructions[r.0 as usize]
    }

    /// The block behind a reference.
    pub fn block(&self, r: BlockRef) -> (b: &Block)
        requires
            self.valid_block(r),
        ensures
            *b == self.blocks_seq()[r.0 as int],
    {
        &self.blocks[r.0 as usize]
    }

    /// Interns a value: returns the existing reference for structurally-equal
    /// content, else stores the value in a fresh dense slot.
    pub fn add_value(&mut self, value: Value) -> (r: ValueRef)
        requires
            old(self).wf(),
            old(self).num_values() < u32::MAX,
        ensures
            final(self).wf(),
            r.0 < final(self).num_values(),
            final(self).values_seq()[r.0 as int] == value,
            forall|i: int|
                0 <= i < final(self).num_values() && final(self).values_seq()[i] == value ==> i
                    == r.0 as int,
            old(self).values_seq().contains(value) ==> final(self).values_seq() == old(self).values_seq(),
            !old(self).values_seq().contains(value) ==> {
                &&& final(self).values_seq() =~= old(self).values_seq().push(value)
                &&& r.0 == old(self).num_values()
            },
            final(self).blocks_seq() == old(self).blocks_seq(),
            final(self).instrs_seq() == old(self).instrs_seq(),
            final(self).preds_view() == old(self).preds_view(),
    {
        let n = self.values.len();
        let mut i: usize = 0;
        while i < n
            invariant
                n == self.num_values(),
                i <= n,
                self.wf(),
                self.blocks_seq() == old(self).blocks_seq(),
                self.instrs_seq() == old(self).instrs_seq(),
                self.values_seq() == old(self).values_seq(),
                forall|j: int| 0 <= j < i ==> self.values_seq()[j] != value,
            decreases n - i,
        {
            if self.values[i] == value {
                return ValueRef(i as u32);
            }
            i += 1;
        }
        assert(!self.values_seq().contains(value));
        self.values.push(value);
        assert(self.values_seq() =~= old(self).values_seq().push(value));
        proof {
            assert forall|b: int| 0 <= b < self.num_blocks() implies self.wf_chain_links(b) by {
                assert(old(self).wf_chain_links(b));
                assert(self.blocks_seq()[b] == old(self).blocks_seq()[b]);
            }
        }
        ValueRef(n as u32)
    }

    /// Makes a fresh block with no instructions.
    pub fn new_block(&mut self) -> (r: BlockRef)
        requires
            old(self).wf(),
            old(self).num_blocks() < u32::MAX,
        ensures
            final(self).wf(),
            r.0 == old(self).num_blocks(),
            final(self).num_blocks() == old(self).num_blocks() + 1,
            forall|b: int|
                0 <= b < old(self).num_blocks() ==> final(self).blocks_seq()[b] == old(self).blocks_seq()[b],
            final(self).chain_of(r.0 as int) =~= Seq::<InstructionRef>::empty(),
            final(self).instrs_seq() == old(self).instrs_seq(),
            final(self).values_seq() == old(self).values_seq(),
            final(self).preds_view() =~= old(self).preds_view().push(Set::<u32>::empty()),
            final(self).preds_of(r.0 as int) =~= Set::<u32>::empty(),
    {
        let n = self.blocks.len();
        self.blocks.push(Block { head: None, tail: None, chain: Ghost(Seq::empty()) });
        let _ = self.pred_sets.new_set();
        proof {
            assert forall|b: int| 0 <= b < self.num_blocks() implies self.wf_chain_links(b) by {
                if b < n as int {
                    assert(old(self).wf_chain_links(b));
                    assert(self.blocks_seq()[b] == old(self).blocks_seq()[b]);
                } else {
                    assert(self.chain_of(b).len() == 0);
                }
            }
            assert(self.wf_membership()) by {
                assert forall|ii: int|
                    0 <= ii < self.num_instructions() implies match (#[trigger] self.instrs_seq()[ii]).block {
                    Some(b) => b.0 < self.num_blocks() && self.chain_of(b.0 as int).contains(
                        InstructionRef(ii as u32),
                    ),
                    None => self.instrs_seq()[ii].prior is None && self.instrs_seq()[ii].next is None,
                } by {
                    match old(self).instrs_seq()[ii].block {
                        Some(b) => {
                            assert(self.chain_of(b.0 as int) == old(self).chain_of(b.0 as int));
                        },
                        None => {},
                    }
                }
            }
        }
        BlockRef(n as u32)
    }

    /// Makes a fresh, detached instruction holding `op`.
    pub fn new_instruction(&mut self, op: Op) -> (r: InstructionRef)
        requires
            old(self).wf(),
            old(self).num_instructions() < u32::MAX,
        ensures
            final(self).wf(),
            r.0 == old(self).num_instructions(),
            final(self).num_instructions() == old(self).num_instructions() + 1,
            forall|i: int|
                0 <= i < old(self).num_instructions() ==> final(self).instrs_seq()[i] == old(self).instrs_seq()[i],
            final(self).instrs_seq()[r.0 as int].op == op,
            final(self).detached(r),
            final(self).blocks_seq() == old(self).blocks_seq(),
            final(self).values_seq() == old(self).values_seq(),
            final(self).preds_view() == old(self).preds_view(),
    {
        let n = self.instructions.len();
        self.instructions.push(Instruction { op, prior: None, next: None, block: None });
        assert forall|b: int| 0 <= b < self.num_blocks() implies self.wf_chain_links(b) by {
            assert(old(self).wf_chain_links(b));
            assert(self.chain_of(b) == old(self).chain_of(b));
        }
        InstructionRef(n as u32)
    }

    /// Copies a value list for attachment to a branch target or call.
    pub fn new_value_list(&mut self, contents: &[ValueRef]) -> (r: Vec<ValueRef>)
        ensures
            r@ == contents@,
            *final(self) == *old(self),
    {
        let mut out: Vec<ValueRef> = Vec::new();
        let mut k: usize = 0;
        while k < contents.len()
            invariant
                k <= contents@.len(),
                out@ =~= contents@.subrange(0, k as int),
            decreases contents@.len() - k,
        {
            out.push(contents[k]);
            k += 1;
        }
        assert(out@ =~= contents@);
        out
    }

    /// Links a detached instruction at the block's tail, repairing the old
    /// tail's neighbor link; linking an already-linked instruction is a
    /// contract violation of the caller.
    pub fn insert_at_end(&mut self, instruction: InstructionRef, block: BlockRef)
        requires
            old(self).wf(),
            old(self).valid_instruction(instruction),
            old(self).valid_block(block),
            old(self).detached(instruction),
        ensures
            final(self).wf(),
            final(self).num_blocks() == old(self).num_blocks(),
            final(self).num_instructions() == old(self).num_instructions(),
            final(self).values_seq() == old(self).values_seq(),
            final(self).chain_of(block.0 as int) =~= old(self).chain_of(block.0 as int).push(
                instruction,
            ),
            forall|b: int|
                0 <= b < old(self).num_blocks() && b != block.0 as int ==> final(self).blocks_seq()[b] == old(self).blocks_seq()[b],
            forall|i: int|
                0 <= i < old(self).num_instructions() ==> (#[trigger] final(self).instrs_seq()[i]).op == old(self).instrs_seq()[i].op,
            forall|i: int|
                0 <= i < old(self).num_instructions() && i != instruction.0 as int ==> (
                #[trigger] final(self).instrs_seq()[i]).block == old(self).instrs_seq()[i].block,
            final(self).instrs_seq()[instruction.0 as int].block == Some(block),
            final(self).preds_view() == old(self).preds_view(),
    {
        let ii = instruction.0 as usize;
        let bi = block.0 as usize;
        let ghost old_chain = self.chain_of(bi as int);

        self.instructions[ii].block = Some(block);

        let tail = self.blocks[bi].tail;
        match tail {
            Some(t) => {
                proof {
                    assert(old(self).wf_chain_links(bi as int));
                    assert(t == old_chain[old_chain.len() - 1]);
                    assert(t.0 < self.instructions@.len());
                    // the old tail is a chain member, so it is not the
                    // detached instruction being linked
                    assert(old(self).instrs_seq()[t.0 as int].block == Some(BlockRef(bi as u32)));
                    assert(t.0 != instruction.0);
                }
                self.instructions[ii].prior = Some(t);
                self.instructions[t.0 as usize].next = Some(instruction);
            },
            None => {
                self.blocks[bi].head = Some(instruction);
            },
        }
        self.blocks[bi].tail = Some(instruction);
        self.blocks[bi].chain = Ghost(old_chain.push(instruction));

        proof {
            let c_new = self.chain_of(bi as int);
            assert(c_new == old_chain.push(instruction));
            // the linked instruction was in no chain before
            assert forall|b: int, k: int|
                0 <= b < self.num_blocks() && 0 <= k < old(self).chain_of(b).len() implies old(self).chain_of(b)[k] != instruction by {
                assert(old(self).wf_chain_links(b));
                assert(old(self).instrs_seq()[old(self).chain_of(b)[k].0 as int].block == Some(
                    BlockRef(b as u32),
                ));
            }
            assert forall|b: int|
                0 <= b < self.num_blocks() && b != bi as int implies self.wf_chain_links(b) by {
                assert(old(self).wf_chain_links(b));
                assert(self.blocks_seq()[b] == old(self).blocks_seq()[b]);
                let c = self.chain_of(b);
                assert forall|k: int| 0 <= k < c.len() implies c[k].0 != ii && c[k].0
                    != (match tail {
                    Some(t) => t.0 as int,
                    None => -1,
                }) by {
                    assert(old(self).instrs_seq()[c[k].0 as int].block == Some(BlockRef(b as u32)));
                }
            }
            assert(self.wf_chain_links(bi as int)) by {
                assert(old(self).wf_chain_links(bi as int));
                assert forall|k: int| 0 <= k < c_new.len() - 1 implies c_new[k].0 != ii by {
                    assert(old(self).instrs_seq()[old_chain[k].0 as int].block == Some(
                        BlockRef(bi as u32),
                    ));
                }
            }
            assert(self.wf_membership()) by {
                assert forall|jj: int| 0 <= jj < self.num_instructions() implies match (
                #[trigger] self.instrs_seq()[jj]).block {
                    Some(b) => b.0 < self.num_blocks() && self.chain_of(b.0 as int).contains(
                        InstructionRef(jj as u32),
                    ),
                    None => self.instrs_seq()[jj].prior is None && self.instrs_seq()[jj].next
                        is None,
                } by {
                    if jj == ii as int {
                        assert(c_new[c_new.len() - 1] == instruction);
                        assert(self.chain_of(bi as int).contains(instruction));
                    } else {
                        match old(self).instrs_seq()[jj].block {
                            Some(b) => {
                                let c_old = old(self).chain_of(b.0 as int);
                                let k = choose|k: int|
                                    0 <= k < c_old.len() && c_old[k] == InstructionRef(jj as u32);
                                assert(c_old.contains(InstructionRef(jj as u32)));
                                if b.0 as int == bi as int {
                                    assert(c_new[k] == InstructionRef(jj as u32));
                                } else {
                                    assert(self.chain_of(b.0 as int) == c_old);
                                }
                                assert(self.chain_of(b.0 as int).contains(
                                    InstructionRef(jj as u32),
                                ));
                            },
                            None => {},
                        }
                    }
                }
            }
        }
    }

    /// Makes a fresh instruction holding `op` and links it at the block's
    /// tail in one step.
    pub fn append_instruction(&mut self, block: BlockRef, op: Op) -> (r: InstructionRef)
        requires
            old(self).wf(),
            old(self).valid_block(block),
            old(self).num_instructions() < u32::MAX,
        ensures
            final(self).wf(),
            r.0 == old(self).num_instructions(),
            final(self).num_instructions() == old(self).num_instructions() + 1,
            final(self).num_blocks() == old(self).num_blocks(),
            final(self).values_seq() == old(self).values_seq(),
            final(self).instrs_seq()[r.0 as int].op == op,
            final(self).chain_of(block.0 as int) =~= old(self).chain_of(block.0 as int).push(r),
            forall|b: int|
                0 <= b < old(self).num_blocks() && b != block.0 as int ==> final(self).blocks_seq()[b] == old(self).blocks_seq()[b],
            forall|i: int|
                0 <= i < old(self).num_instructions() ==> (#[trigger] final(self).instrs_seq()[i]).op == old(self).instrs_seq()[i].op,
            forall|i: int|
                0 <= i < old(self).num_instructions() ==> (#[trigger] final(self).instrs_seq()[i]).block == old(self).instrs_seq()[i].block,
            final(self).preds_view() == old(self).preds_view(),
    {
        let instruction = self.new_instruction(op);
        self.insert_at_end(instruction, block);
        instruction
    }

    /// Unlinks an instruction from its block, repairing its neighbors' links
    /// and the block's head and tail, and empties the removed instruction's
    /// own links. Removing a detached instruction is a contract violation of
    /// the caller, rejected before any link is touched.
    #[verifier::rlimit(100)]
    pub fn remove_instruction(&mut self, instruction: InstructionRef)
        requires
            old(self).wf(),
            old(self).valid_instruction(instruction),
            old(self).linked(instruction),
        ensures
            final(self).wf(),
            removal_post(*old(self), *final(self), instruction),
    {
        let ii = instruction.0 as usize;
        let block = match self.instructions[ii].block {
            Some(b) => b,
            None => vstd::pervasive::unreached(),
        };
        let bi = block.0 as usize;
        let prior = self.instructions[ii].prior;
        let next = self.instructions[ii].next;

        let ghost c_old = self.chain_of(bi as int);
        let ghost k = c_old.index_of(instruction);
        proof {
            assert(old(self).wf_membership());
            assert(old(self).instrs_seq()[ii as int].block == Some(block));
            assert(block.0 < self.num_blocks());
            assert(c_old.contains(instruction));
            assert(0 <= k < c_old.len() && c_old[k] == instruction);
            assert(old(self).wf_chain_links(bi as int));
            assert(prior == if k == 0 {
                Option::<InstructionRef>::None
            } else {
                Some(c_old[k - 1])
            });
            assert(next == if k == c_old.len() - 1 {
                Option::<InstructionRef>::None
            } else {
                Some(c_old[k + 1])
            });
        }

        match prior {
            Some(p) => {
                proof {
                    assert(p == c_old[k - 1]);
                    assert(p.0 < self.instructions@.len());
                    assert(c_old[k - 1] != c_old[k]);
                }
                self.instructions[p.0 as usize].next = next;
            },
            None => {
                self.blocks[bi].head = next;
            },
        }
        match next {
            Some(nx) => {
                proof {
                    assert(nx == c_old[k + 1]);
                    assert(nx.0 < self.instructions@.len());
                    assert(c_old[k + 1] != c_old[k]);
                    if k > 0 {
                        assert(c_old[k - 1] != c_old[k + 1]);
                    }
                }
                self.instructions[nx.0 as usize].prior = prior;
            },
            None => {
                self.blocks[bi].tail = prior;
            },
        }
        self.instructions[ii].prior = None;
        self.instructions[ii].next = None;
        self.instructions[ii].block = None;
        self.blocks[bi].chain = Ghost(c_old.remove(k));

        proof {
            let c_new = self.chain_of(bi as int);
            assert(c_new == c_old.remove(k));
            // only the removed instruction and its two neighbors changed
            assert forall|b: int, j: int|
                0 <= b < self.num_blocks() && 0 <= j < old(self).chain_of(b).len() && b
                    != bi as int implies (#[trigger] old(self).chain_of(b)[j]).0 != ii as int by {
                assert(old(self).wf_chain_links(b));
                assert(old(self).instrs_seq()[old(self).chain_of(b)[j].0 as int].block == Some(
                    BlockRef(b as u32),
                ));
            }
            assert forall|b: int|
                0 <= b < self.num_blocks() && b != bi as int implies self.wf_chain_links(b) by {
                assert(old(self).wf_chain_links(b));
                assert(self.blocks_seq()[b] == old(self).blocks_seq()[b]);
                let c = self.chain_of(b);
                assert forall|j: int| 0 <= j < c.len() implies self.instrs_seq()[(
                #[trigger] c[j]).0 as int] == old(self).instrs_seq()[c[j].0 as int] by {
                    assert(old(self).instrs_seq()[c[j].0 as int].block == Some(BlockRef(b as u32)));
                    if k > 0 {
                        assert(old(self).instrs_seq()[c_old[k - 1].0 as int].block == Some(
                            BlockRef(bi as u32),
                        ));
                    }
                    if k < c_old.len() - 1 {
                        assert(old(self).instrs_seq()[c_old[k + 1].0 as int].block == Some(
                            BlockRef(bi as u32),
                        ));
                    }
                }
            }
            // distinctness of the old chain, for reuse below
            assert(old(self).wf_chain_links(bi as int));
            assert(self.wf_chain_links(bi as int)) by {
                assert forall|j: int| 0 <= j < c_new.len() implies ((#[trigger] c_new[j]) == (if j
                    < k {
                    c_old[j]
                } else {
                    c_old[j + 1]
                }) && c_new[j].0 != ii as int) by {
                    assert(old(self).instrs_seq()[c_new[j].0 as int].block == Some(
                        BlockRef(bi as u32),
                    ));
                }
            }
            assert(self.wf_membership()) by {
                assert forall|jj: int| 0 <= jj < self.num_instructions() implies match (
                #[trigger] self.instrs_seq()[jj]).block {
                    Some(b) => b.0 < self.num_blocks() && self.chain_of(b.0 as int).contains(
                        InstructionRef(jj as u32),
                    ),
                    None => self.instrs_seq()[jj].prior is None && self.instrs_seq()[jj].next
                        is None,
                } by {
                    if jj != ii as int {
                        match old(self).instrs_seq()[jj].block {
                            Some(b) => {
                                let c_b_old = old(self).chain_of(b.0 as int);
                                let j = choose|j: int|
                                    0 <= j < c_b_old.len() && c_b_old[j] == InstructionRef(
                                        jj as u32,
                                    );
                                assert(c_b_old.contains(InstructionRef(jj as u32)));
                                if b.0 as int == bi as int {
                                    assert(c_b_old[j] != c_old[k]);
                                    assert(j != k);
                                    if j < k {
                                        assert(c_new[j] == InstructionRef(jj as u32));
                                    } else {
                                        assert(c_new[j - 1] == InstructionRef(jj as u32));
                                    }
                                } else {
                                    assert(self.chain_of(b.0 as int) == c_b_old);
                                }
                                assert(self.chain_of(b.0 as int).contains(
                                    InstructionRef(jj as u32),
                                ));
                            },
                            None => {},
                        }
                    }
                }
            }
        }
    }

    /// Walks next-links from the block's head, yielding exactly the block's
    /// chain: every owned instruction once, in block order, ending at the
    /// tail.
    pub fn block_instructions(&self, block: BlockRef) -> (r: Vec<InstructionRef>)
        requires
            self.wf(),
            self.valid_block(block),
        ensures
            r@ == self.chain_of(block.0 as int),
    {
        let ghost c = self.chain_of(block.0 as int);
        let mut out: Vec<InstructionRef> = Vec::new();
        let mut cursor = self.blocks[block.0 as usize].head;
        proof {
            assert(self.wf_chain_links(block.0 as int));
        }
        while cursor.is_some()
            invariant
                self.wf(),
                self.valid_block(block),
                c == self.chain_of(block.0 as int),
                out@.len() <= c.len(),
                out@ =~= c.subrange(0, out@.len() as int),
                cursor == (if out@.len() == c.len() {
                    Option::<InstructionRef>::None
                } else {
                    Some(c[out@.len() as int])
                }),
            decreases c.len() - out@.len(),
        {
            let i = match cursor {
                Some(i) => i,
                None => vstd::pervasive::unreached(),
            };
            proof {
                assert(self.wf_chain_links(block.0 as int));
                assert(i == c[out@.len() as int]);
                assert(i.0 < self.num_instructions());
            }
            out.push(i);
            cursor = self.instructions[i.0 as usize].next;
        }
        proof {
            assert(out@.len() == c.len());
            assert(out@ =~= c);
        }
        out
    }

    /// Walks prior-links from the block's tail, yielding exactly the reverse
    /// of what walking next-links from the head yields.
    pub fn block_instructions_reversed(&self, block: BlockRef) -> (r: Vec<InstructionRef>)
        requires
            self.wf(),
            self.valid_block(block),
        ensures
            r@ == self.chain_of(block.0 as int).reverse(),
    {
        let ghost c = self.chain_of(block.0 as int);
        let mut out: Vec<InstructionRef> = Vec::new();
        let mut cursor = self.blocks[block.0 as usize].tail;
        proof {
            assert(self.wf_chain_links(block.0 as int));
        }
        while cursor.is_some()
            invariant
                self.wf(),
                self.valid_block(block),
                c == self.chain_of(block.0 as int),
                out@.len() <= c.len(),
                forall|j: int| 0 <= j < out@.len() ==> out@[j] == c[c.len() - 1 - j],
                cursor == (if out@.len() == c.len() {
                    Option::<InstructionRef>::None
                } else {
                    Some(c[c.len() - 1 - out@.len() as int])
                }),
            decreases c.len() - out@.len(),
        {
            let i = match cursor {
                Some(i) => i,
                None => vstd::pervasive::unreached(),
            };
            proof {
                assert(self.wf_chain_links(block.0 as int));
                assert(i == c[c.len() - 1 - out@.len() as int]);
                assert(i.0 < self.num_instructions());
            }
            out.push(i);
            cursor = self.instructions[i.0 as usize].prior;
        }
        proof {
            assert(out@.len() == c.len());
            assert(out@ =~= c.reverse());
        }
        out
    }

    /// Records `pred` as a predecessor of `block` for CFG queries; the set
    /// is deduplicated, and the result reports whether the edge was new.
    pub fn add_predecessor(&mut self, block: BlockRef, pred: BlockRef) -> (r: bool)
        requires
            old(self).wf(),
            old(self).valid_block(block),
            old(self).valid_block(pred),
        ensures
            final(self).wf(),
            final(self).preds_view() == old(self).preds_view().update(
                block.0 as int,
                old(self).preds_of(block.0 as int).insert(pred.0),
            ),
            r == !old(self).preds_of(block.0 as int).contains(pred.0),
            final(self).blocks_seq() == old(self).blocks_seq(),
            final(self).instrs_seq() == old(self).instrs_seq(),
            final(self).values_seq() == old(self).values_seq(),
    {
        let r = self.pred_sets.insert(block.0 as usize, pred.0);
        proof {
            assert forall|b: int| 0 <= b < self.num_blocks() implies self.wf_chain_links(b) by {
                assert(old(self).wf_chain_links(b));
                assert(self.blocks_seq()[b] == old(self).blocks_seq()[b]);
            }
        }
        r
    }

    /// The recorded predecessors of `block`, deduplicated and in ascending
    /// index order.
    pub fn predecessors(&self, block: BlockRef) -> (r: Vec<BlockRef>)
        requires
            self.wf(),
            self.valid_block(block),
        ensures
            forall|i: int| 0 <= i < r@.len() - 1 ==> (#[trigger] r@[i]).0 < r@[i + 1].0,
            forall|i: int|
                0 <= i < r@.len() ==> self.preds_of(block.0 as int).contains(
                    (#[trigger] r@[i]).0,
                ),
            forall|k: u32|
                self.preds_of(block.0 as int).contains(k) ==> exists|i: int|
                    0 <= i < r@.len() && (#[trigger] r@[i]).0 == k,
    {
        let raw = self.pred_sets.elems(block.0 as usize);
        let mut out: Vec<BlockRef> = Vec::new();
        let mut j: usize = 0;
        while j < raw.len()
            invariant
                j <= raw@.len(),
                out@.len() == j,
                forall|i: int| 0 <= i < j ==> (#[trigger] out@[i]).0 == raw@[i],
            decreases raw@.len() - j,
        {
            out.push(BlockRef(raw[j]));
            j += 1;
        }
        proof {
            assert forall|k: u32|
                self.preds_of(block.0 as int).contains(k) implies exists|i: int|
                0 <= i < out@.len() && (#[trigger] out@[i]).0 == k by {
                let i = choose|i: int| 0 <= i < raw@.len() && raw@[i] == k;
                assert(raw@.contains(k));
                assert(out@[i].0 == k);
            }
        }
        out
    }

    /// Forgets every block, instruction and value at once, returning the
    /// graph to its freshly-made state; entities are never freed one by one.
    pub fn clear(&mut self)
        ensures
            final(self).wf(),
            final(self).num_blocks() == 0,
            final(self).num_instructions() == 0,
            final(self).num_values() == 0,
            final(self).preds_view() =~= Seq::<Set<u32>>::empty(),
    {
        *self = Graph::new();
    }
}

/// Linkage integrity: in a well-formed graph a block's chain holds no
/// instruction twice (so walking next-links can never cycle), and its members
/// are exactly the instructions whose owner field names the block (so none is
/// dropped and none leaks in).
pub proof fn lemma_linkage_integrity(g: Graph, b: BlockRef)
    requires
        g.wf(),
        g.valid_block(b),
    ensures
        forall|k1: int, k2: int|
            0 <= k1 < k2 < g.chain_of(b.0 as int).len() ==> g.chain_of(b.0 as int)[k1]
                != g.chain_of(b.0 as int)[k2],
        forall|i: InstructionRef|
            g.valid_instruction(i) ==> (g.chain_of(b.0 as int).contains(i) <==> g.instrs_seq()[i.0
                as int].block == Some(b)),
{
    assert(g.wf_chain_links(b.0 as int));
    assert forall|i: InstructionRef|
        g.valid_instruction(i) implies (g.chain_of(b.0 as int).contains(i) <==> g.instrs_seq()[i.0
        as int].block == Some(b)) by {
        let c = g.chain_of(b.0 as int);
        if c.contains(i) {
            let k = choose|k: int| 0 <= k < c.len() && c[k] == i;
            assert(g.instrs_seq()[c[k].0 as int].block == Some(BlockRef(b.0)));
        }
        if g.instrs_seq()[i.0 as int].block == Some(b) {
            assert(g.wf_membership());
            assert(g.chain_of(b.0 as int).contains(InstructionRef(i.0)));
        }
    }
}

/// What boolean negation folds to at emission time: negating a constant that
/// is statically known truthy yields the `false` constant, negating a known
/// falsy constant yields `true`, and anything else becomes the pure derived
/// negation value.
pub open spec fn not_fold(operand: ValueRef, v: Value) -> Value {
    match v {
        Value::Bool(b) => Value::Bool(!b),
        Value::Int(_) => Value::Bool(false),
        Value::Float(_) => Value::Bool(false),
        Value::String(_) => Value::Bool(false),
        Value::Nil => Value::Bool(true),
        _ => Value::Not(operand),
    }
}

/// The incremental front end: a current-block cursor, a stack of expression
/// operand values, and a stack of pending short-circuit merge blocks.
///
/// The driving parser pushes operand values, and the two-phase
/// `build_partial_and` / `build_and` protocol (with its `or` dual) lowers
/// short-circuit operators into explicit branches joined through a
/// block-carried argument.
pub struct Builder {
    graph: Graph,
    current_block: Option<BlockRef>,
    expression_stack: VecCell<ValueRef>,
    merge_block_stack: VecCell<BlockRef>,
}

impl Builder {
    /// The graph under construction.
    pub closed spec fn spec_graph(self) -> Graph {
        self.graph
    }

    /// Where instructions are currently being appended.
    pub closed spec fn spec_current_block(self) -> Option<BlockRef> {
        self.current_block
    }

    /// The pending expression operand values, innermost last.
    pub closed spec fn spec_expressions(self) -> Seq<ValueRef> {
        self.expression_stack@
    }

    /// The pending short-circuit merge blocks, innermost last.
    pub closed spec fn spec_merge_blocks(self) -> Seq<BlockRef> {
        self.merge_block_stack@
    }

    /// The builder's invariant: the graph is well-formed and every held
    /// reference points into it.
    pub open spec fn wf(self) -> bool {
        &&& self.spec_graph().wf()
        &&& (self.spec_current_block() matches Some(b) ==> self.spec_graph().valid_block(b))
        &&& forall|k: int|
            0 <= k < self.spec_expressions().len() ==> self.spec_graph().valid_value(
                #[trigger] self.spec_expressions()[k],
            )
        &&& forall|k: int|
            0 <= k < self.spec_merge_blocks().len() ==> self.spec_graph().valid_block(
                #[trigger] self.spec_merge_blocks()[k],
            )
    }


    /// Re-checks the two stack quantifiers of `wf` against the entry state.
    proof fn lemma_stacks_still_valid(pre: Builder, post: Builder)
        requires
            forall|k: int|
                0 <= k < pre.spec_expressions().len() ==> pre.spec_graph().valid_value(
                    #[trigger] pre.spec_expressions()[k],
                ),
            forall|k: int|
                0 <= k < pre.spec_merge_blocks().len() ==> pre.spec_graph().valid_block(
                    #[trigger] pre.spec_merge_blocks()[k],
                ),
            post.spec_expressions() =~= pre.spec_expressions(),
            post.spec_merge_blocks() =~= pre.spec_merge_blocks(),
            post.spec_graph().num_values() >= pre.spec_graph().num_values(),
            post.spec_graph().num_blocks() >= pre.spec_graph().num_blocks(),
        ensures
            forall|k: int|
                0 <= k < post.spec_expressions().len() ==> post.spec_graph().valid_value(
                    #[trigger] post.spec_expressions()[k],
                ),
            forall|k: int|
                0 <= k < post.spec_merge_blocks().len() ==> post.spec_graph().valid_block(
                    #[trigger] post.spec_merge_blocks()[k],
                ),
    {
        assert forall|k: int|
            0 <= k < post.spec_expressions().len() implies post.spec_graph().valid_value(
            #[trigger] post.spec_expressions()[k],
        ) by {
            assert(post.spec_expressions()[k] == pre.spec_expressions()[k]);
        }
        assert forall|k: int|
            0 <= k < post.spec_merge_blocks().len() implies post.spec_graph().valid_block(
            #[trigger] post.spec_merge_blocks()[k],
        ) by {
            assert(post.spec_merge_blocks()[k] == pre.spec_merge_blocks()[k]);
        }
    }

    /// A fresh builder over `graph`, with no cursor and empty stacks.
    pub fn new(graph: Graph) -> (r: Self)
        requires
            graph.wf(),
        ensures
            r.wf(),
            r.spec_graph() == graph,
            r.spec_current_block() is None,
            r.spec_expressions() =~= Seq::<ValueRef>::empty(),
            r.spec_merge_blocks() =~= Seq::<BlockRef>::empty(),
    {
        Builder {
            graph,
            current_block: None,
            expression_stack: VecCell::new(),
            merge_block_stack: VecCell::new(),
        }
    }

    /// A borrow of the graph under construction.
    pub fn graph(&self) -> (r: &Graph)
        ensures
            *r == self.spec_graph(),
    {
        &self.graph
    }

    /// Gives up the builder, yielding the finished graph.
    pub fn into_graph(self) -> (r: Graph)
        ensures
            r == self.spec_graph(),
    {
        self.graph
    }

    /// The current cursor.
    pub fn current_block(&self) -> (r: Option<BlockRef>)
        ensures
            r == self.spec_current_block(),
    {
        self.current_block
    }

    /// Moves the cursor: later instructions are appended to `block`.
    pub fn set_current_block(&mut self, block: BlockRef)
        requires
            old(self).wf(),
            old(self).spec_graph().valid_block(block),
        ensures
            final(self).wf(),
            final(self).spec_graph() == old(self).spec_graph(),
            final(self).spec_current_block() == Some(block),
            final(self).spec_expressions() == old(self).spec_expressions(),
            final(self).spec_merge_blocks() == old(self).spec_merge_blocks(),
    {
        self.current_block = Some(block);
        proof {
            Builder::lemma_stacks_still_valid(*old(self), *self);
        }
    }

    /// Interns `value` and pushes its reference as a pending operand.
    pub fn push_value(&mut self, value: Value) -> (r: ValueRef)
        requires
            old(self).wf(),
            old(self).spec_graph().num_values() < u32::MAX,
        ensures
            final(self).wf(),
            final(self).spec_graph().values_seq()[r.0 as int] == value,
            r.0 < final(self).spec_graph().num_values(),
            old(self).spec_graph().values_seq().contains(value) ==> final(self).spec_graph().values_seq() == old(self).spec_graph().values_seq(),
            !old(self).spec_graph().values_seq().contains(value) ==> final(self).spec_graph().values_seq() =~= old(self).spec_graph().values_seq().push(value),
            final(self).spec_graph().blocks_seq() == old(self).spec_graph().blocks_seq(),
            final(self).spec_graph().instrs_seq() == old(self).spec_graph().instrs_seq(),
            final(self).spec_expressions() == old(self).spec_expressions().push(r),
            final(self).spec_merge_blocks() == old(self).spec_merge_blocks(),
            final(self).spec_current_block() == old(self).spec_current_block(),
    {
        let r = self.graph.add_value(value);
        self.expression_stack.push(r);
        proof {
            assert(self.spec_expressions().drop_last() =~= old(self).spec_expressions());
            assert(self.spec_graph().num_values() >= old(self).spec_graph().num_values());
            assert forall|k: int|
                0 <= k < self.spec_expressions().len() implies self.spec_graph().valid_value(
                #[trigger] self.spec_expressions()[k],
            ) by {
                if k < old(self).spec_expressions().len() {
                    assert(self.spec_expressions()[k] == old(self).spec_expressions()[k]);
                } else {
                    assert(self.spec_expressions()[k] == r);
                }
            }
            assert forall|k: int|
                0 <= k < self.spec_merge_blocks().len() implies self.spec_graph().valid_block(
                #[trigger] self.spec_merge_blocks()[k],
            ) by {
                assert(self.spec_merge_blocks()[k] == old(self).spec_merge_blocks()[k]);
            }
        }
        r
    }

    /// Pops the innermost pending operand; popping with nothing pending is a
    /// contract violation of the driving parser.
    pub fn pop_expression(&mut self) -> (r: ValueRef)
        requires
            old(self).wf(),
            old(self).spec_expressions().len() > 0,
        ensures
            final(self).wf(),
            r == old(self).spec_expressions().last(),
            final(self).spec_expressions() == old(self).spec_expressions().drop_last(),
            final(self).spec_graph() == old(self).spec_graph(),
            final(self).spec_merge_blocks() == old(self).spec_merge_blocks(),
            final(self).spec_current_block() == old(self).spec_current_block(),
    {
        let r = match self.expression_stack.pop() {
            Some(v) => v,
            None => vstd::pervasive::unreached(),
        };
        proof {
            assert forall|k: int|
                0 <= k < self.spec_expressions().len() implies self.spec_graph().valid_value(
                #[trigger] self.spec_expressions()[k],
            ) by {
                assert(self.spec_expressions()[k] == old(self).spec_expressions()[k]);
            }
            assert forall|k: int|
                0 <= k < self.spec_merge_blocks().len() implies self.spec_graph().valid_block(
                #[trigger] self.spec_merge_blocks()[k],
            ) by {
                assert(self.spec_merge_blocks()[k] == old(self).spec_merge_blocks()[k]);
            }
        }
        r
    }

    /// Pops the operand and pushes what its boolean negation folds to; no
    /// instruction is ever emitted, the fold yields a pure value.
    pub fn build_not(&mut self)
        requires
            old(self).wf(),
            old(self).spec_expressions().len() > 0,
            old(self).spec_graph().num_values() < u32::MAX,
        ensures
            final(self).wf(),
            build_not_post(*old(self), *final(self)),
    {
        let operand = self.pop_expression();
        let folded = match *self.graph.value(operand) {
            Value::Bool(b) => Value::Bool(!b),
            Value::Int(_) => Value::Bool(false),
            Value::Float(_) => Value::Bool(false),
            Value::String(_) => Value::Bool(false),
            Value::Nil => Value::Bool(true),
            _ => Value::Not(operand),
        };
        let r = self.graph.add_value(folded);
        self.expression_stack.push(r);
    }

    /// Begins lowering a short-circuit `and`: pops the left operand,
    /// allocates the right-hand-side and merge blocks, and appends the
    /// conditional branch whose false edge short-circuits to the merge block
    /// carrying the left operand.
    pub fn build_partial_and(&mut self)
        requires
            old(self).wf(),
            old(self).spec_expressions().len() > 0,
            old(self).spec_current_block() is Some,
            old(self).spec_graph().num_blocks() + 2 <= u32::MAX,
            old(self).spec_graph().num_instructions() < u32::MAX,
        ensures
            final(self).wf(),
            build_partial_and_post(*old(self), *final(self)),
    {
        let lhs = self.pop_expression();
        let rhs_block = self.graph.new_block();
        let merge_block = self.graph.new_block();
        let merge_args = vec![lhs];
        let current = match self.current_block {
            Some(b) => b,
            None => vstd::pervasive::unreached(),
        };
        self.graph.append_instruction(
            current,
            Op::BranchIf(
                lhs,
                BranchTarget::new(rhs_block, Vec::new()),
                BranchTarget::new(merge_block, merge_args),
            ),
        );
        self.current_block = Some(rhs_block);
        self.merge_block_stack.push(merge_block);
    }

    /// Ends lowering a short-circuit `and`: pops the right operand and the
    /// pending merge block, appends the unconditional branch carrying the
    /// right operand, moves the cursor to the merge block, and pushes the
    /// merge block's single argument as the expression's result.
    pub fn build_and(&mut self)
        requires
            old(self).wf(),
            old(self).spec_expressions().len() > 0,
            old(self).spec_merge_blocks().len() > 0,
            old(self).spec_current_block() is Some,
            old(self).spec_graph().num_instructions() < u32::MAX,
            old(self).spec_graph().num_values() < u32::MAX,
        ensures
            final(self).wf(),
            build_and_post(*old(self), *final(self)),
    {
        let rhs = self.pop_expression();
        let merge_block = match self.merge_block_stack.pop() {
            Some(b) => b,
            None => vstd::pervasive::unreached(),
        };
        let merge_args = vec![rhs];
        let current = match self.current_block {
            Some(b) => b,
            None => vstd::pervasive::unreached(),
        };
        self.graph.append_instruction(
            current,
            Op::Branch(BranchTarget::new(merge_block, merge_args)),
        );
        self.current_block = Some(merge_block);
        let merged_value = self.graph.add_value(Value::BlockArgument(merge_block, 0));
        self.expression_stack.push(merged_value);
    }

    /// Begins lowering a short-circuit `or`: the structural dual of
    /// `build_partial_and` — the true edge short-circuits to the merge block
    /// carrying the left operand, the false edge continues to the
    /// right-hand-side block.
    pub fn build_or_incomplete(&mut self)
        requires
            old(self).wf(),
            old(self).spec_expressions().len() > 0,
            old(self).spec_current_block() is Some,
            old(self).spec_graph().num_blocks() + 2 <= u32::MAX,
            old(self).spec_graph().num_instructions() < u32::MAX,
        ensures
            final(self).wf(),
            build_partial_or_post(*old(self), *final(self)),
    {
        let lhs = self.pop_expression();
        let rhs_block = self.graph.new_block();
        let merge_block = self.graph.new_block();
        let merge_args = vec![lhs];
        let current = match self.current_block {
            Some(b) => b,
            None => vstd::pervasive::unreached(),
        };
        self.graph.append_instruction(
            current,
            Op::BranchIf(
                lhs,
                BranchTarget::new(merge_block, merge_args),
                BranchTarget::new(rhs_block, Vec::new()),
            ),
        );
        self.current_block = Some(rhs_block);
        self.merge_block_stack.push(merge_block);
    }

    /// Ends lowering a short-circuit `or`; the join step is shared with
    /// `and`: branch to the pending merge block carrying the right operand
    /// and take the merge block's single argument as the result.
    pub fn build_or(&mut self)
        requires
            old(self).wf(),
            old(self).spec_expressions().len() > 0,
            old(self).spec_merge_blocks().len() > 0,
            old(self).spec_current_block() is Some,
            old(self).spec_graph().num_instructions() < u32::MAX,
            old(self).spec_graph().num_values() < u32::MAX,
        ensures
            final(self).wf(),
            build_and_post(*old(self), *final(self)),
    {
        self.build_and();
    }
}

/// How `build_not` relates its pre- and post-states: the operand is popped
/// and the folded value is interned and pushed, with blocks and instructions
/// untouched.
pub open spec fn build_not_post(pre: Builder, post: Builder) -> bool {
    let operand = pre.spec_expressions().last();
    let folded = not_fold(operand, pre.spec_graph().values_seq()[operand.0 as int]);
    let r = post.spec_expressions().last();
    &&& post.spec_graph().blocks_seq() == pre.spec_graph().blocks_seq()
    &&& post.spec_graph().instrs_seq() == pre.spec_graph().instrs_seq()
    &&& post.spec_graph().preds_view() == pre.spec_graph().preds_view()
    &&& r.0 < post.spec_graph().num_values()
    &&& post.spec_graph().values_seq()[r.0 as int] == folded
    &&& (pre.spec_graph().values_seq().contains(folded) ==> post.spec_graph().values_seq()
        == pre.spec_graph().values_seq())
    &&& (!pre.spec_graph().values_seq().contains(folded) ==> post.spec_graph().values_seq()
        =~= pre.spec_graph().values_seq().push(folded))
    &&& post.spec_expressions() == pre.spec_expressions().drop_last().push(r)
    &&& post.spec_merge_blocks() == pre.spec_merge_blocks()
    &&& post.spec_current_block() == pre.spec_current_block()
}

/// How `build_partial_and` relates its pre- and post-states: two fresh empty
/// blocks, one conditional branch in the old current block whose true edge
/// enters the right-hand-side block bare and whose false edge short-circuits
/// to the merge block carrying the left operand, the cursor on the
/// right-hand-side block, and the merge block pending.
pub open spec fn build_partial_and_post(pre: Builder, post: Builder) -> bool {
    let g0 = pre.spec_graph();
    let g1 = post.spec_graph();
    let lhs = pre.spec_expressions().last();
    let current = pre.spec_current_block()->0;
    let rhs_block = BlockRef(g0.num_blocks() as u32);
    let merge_block = BlockRef((g0.num_blocks() + 1) as u32);
    let instr = InstructionRef(g0.num_instructions() as u32);
    &&& g1.num_blocks() == g0.num_blocks() + 2
    &&& g1.num_instructions() == g0.num_instructions() + 1
    &&& g1.values_seq() == g0.values_seq()
    &&& g1.chain_of(current.0 as int) =~= g0.chain_of(current.0 as int).push(instr)
    &&& (forall|b: int|
        0 <= b < g0.num_blocks() && b != current.0 as int ==> g1.blocks_seq()[b]
            == g0.blocks_seq()[b])
    &&& g1.chain_of(rhs_block.0 as int) =~= Seq::<InstructionRef>::empty()
    &&& g1.chain_of(merge_block.0 as int) =~= Seq::<InstructionRef>::empty()
    &&& g1.preds_view() =~= g0.preds_view().push(Set::<u32>::empty()).push(Set::<u32>::empty())
    &&& (forall|i: int|
        0 <= i < g0.num_instructions() ==> (#[trigger] g1.instrs_seq()[i]).op
            == g0.instrs_seq()[i].op)
    &&& (g1.instrs_seq()[instr.0 as int].op matches Op::BranchIf(c, t, e) && c == lhs && t.block
        == rhs_block && t.args@ =~= Seq::<ValueRef>::empty() && e.block == merge_block && e.args@
        =~= seq![lhs])
    &&& post.spec_current_block() == Some(rhs_block)
    &&& post.spec_merge_blocks() == pre.spec_merge_blocks().push(merge_block)
    &&& post.spec_expressions() == pre.spec_expressions().drop_last()
}

/// How `build_or_incomplete` relates its pre- and post-states: the dual of
/// `build_partial_and_post` — the true edge short-circuits to the merge block
/// carrying the left operand, the false edge enters the right-hand-side block
/// bare.
pub open spec fn build_partial_or_post(pre: Builder, post: Builder) -> bool {
    let g0 = pre.spec_graph();
    let g1 = post.spec_graph();
    let lhs = pre.spec_expressions().last();
    let current = pre.spec_current_block()->0;
    let rhs_block = BlockRef(g0.num_blocks() as u32);
    let merge_block = BlockRef((g0.num_blocks() + 1) as u32);
    let instr = InstructionRef(g0.num_instructions() as u32);
    &&& g1.num_blocks() == g0.num_blocks() + 2
    &&& g1.num_instructions() == g0.num_instructions() + 1
    &&& g1.values_seq() == g0.values_seq()
    &&& g1.chain_of(current.0 as int) =~= g0.chain_of(current.0 as int).push(instr)
    &&& (forall|b: int|
        0 <= b < g0.num_blocks() && b != current.0 as int ==> g1.blocks_seq()[b]
            == g0.blocks_seq()[b])
    &&& g1.chain_of(rhs_block.0 as int) =~= Seq::<InstructionRef>::empty()
    &&& g1.chain_of(merge_block.0 as int) =~= Seq::<InstructionRef>::empty()
    &&& g1.preds_view() =~= g0.preds_view().push(Set::<u32>::empty()).push(Set::<u32>::empty())
    &&& (forall|i: int|
        0 <= i < g0.num_instructions() ==> (#[trigger] g1.instrs_seq()[i]).op
            == g0.instrs_seq()[i].op)
    &&& (g1.instrs_seq()[instr.0 as int].op matches Op::BranchIf(c, t, e) && c == lhs && t.block
        == merge_block && t.args@ =~= seq![lhs] && e.block == rhs_block && e.args@ =~= Seq::<
    ValueRef>::empty())
    &&& post.spec_current_block() == Some(rhs_block)
    &&& post.spec_merge_blocks() == pre.spec_merge_blocks().push(merge_block)
    &&& post.spec_expressions() == pre.spec_expressions().drop_last()
}

/// How `build_and` (and `build_or`, whose join step is identical) relates its
/// pre- and post-states: one unconditional branch carrying the right operand
/// to the pending merge block, the cursor on the merge block, and the merge
/// block's argument 0 pushed as the result.
pub open spec fn build_and_post(pre: Builder, post: Builder) -> bool {
    let g0 = pre.spec_graph();
    let g1 = post.spec_graph();
    let rhs = pre.spec_expressions().last();
    let merge_block = pre.spec_merge_blocks().last();
    let current = pre.spec_current_block()->0;
    let instr = InstructionRef(g0.num_instructions() as u32);
    let argval = Value::BlockArgument(merge_block, 0);
    let r = post.spec_expressions().last();
    &&& g1.num_blocks() == g0.num_blocks()
    &&& g1.num_instructions() == g0.num_instructions() + 1
    &&& g1.chain_of(current.0 as int) =~= g0.chain_of(current.0 as int).push(instr)
    &&& (forall|b: int|
        0 <= b < g0.num_blocks() && b != current.0 as int ==> g1.blocks_seq()[b]
            == g0.blocks_seq()[b])
    &&& (forall|i: int|
        0 <= i < g0.num_instructions() ==> (#[trigger] g1.instrs_seq()[i]).op
            == g0.instrs_seq()[i].op)
    &&& (g1.instrs_seq()[instr.0 as int].op matches Op::Branch(t) && t.block == merge_block
        && t.args@ =~= seq![rhs])
    &&& g1.preds_view() == g0.preds_view()
    &&& r.0 < g1.num_values()
    &&& g1.values_seq()[r.0 as int] == argval
    &&& (g0.values_seq().contains(argval) ==> g1.values_seq() == g0.values_seq())
    &&& (!g0.values_seq().contains(argval) ==> g1.values_seq() =~= g0.values_seq().push(argval))
    &&& post.spec_current_block() == Some(merge_block)
    &&& post.spec_merge_blocks() == pre.spec_merge_blocks().drop_last()
    &&& post.spec_expressions() == pre.spec_expressions().drop_last().push(r)
}

/// Constant folding of boolean negation: negating the `true` constant (or
/// any truthy constant) yields the `false` constant with zero instructions
/// emitted, negating the `false` constant or `nil` yields `true`, and
/// negating anything non-constant yields the pure derived negation value —
/// again with the instruction store untouched.
pub proof fn lemma_not_constant_folding(pre: Builder, post: Builder)
    requires
        pre.wf(),
        pre.spec_expressions().len() > 0,
        build_not_post(pre, post),
    ensures
        post.spec_graph().instrs_seq() == pre.spec_graph().instrs_seq(),
        ({
            let operand = pre.spec_expressions().last();
            let v = pre.spec_graph().values_seq()[operand.0 as int];
            let result = post.spec_graph().values_seq()[post.spec_expressions().last().0 as int];
            &&& (v == Value::Bool(true) ==> result == Value::Bool(false))
            &&& (v matches Value::Int(_) ==> result == Value::Bool(false))
            &&& (v matches Value::Float(_) ==> result == Value::Bool(false))
            &&& (v matches Value::String(_) ==> result == Value::Bool(false))
            &&& (v == Value::Bool(false) ==> result == Value::Bool(true))
            &&& (v == Value::Nil ==> result == Value::Bool(true))
            &&& (v matches Value::InstructionResult(_) ==> result == Value::Not(operand))
        }),
{
}

/// Short-circuit `and` shape: beginning the lowering, pushing a right
/// operand that is already an interned value (so nothing else changes), and
/// ending the lowering makes exactly two new blocks and exactly two new
/// branch instructions — one conditional, one unconditional — and the
/// expression's result is the merge block's single argument.
pub proof fn lemma_short_circuit_and_shape(b0: Builder, b1: Builder, b2: Builder, b3: Builder)
    requires
        b0.wf(),
        b0.spec_expressions().len() > 0,
        b0.spec_current_block() is Some,
        build_partial_and_post(b0, b1),
        // the caller lowers the right operand without emitting: one operand
        // value is pushed, the graph's blocks and instructions are untouched
        b2.spec_graph().blocks_seq() == b1.spec_graph().blocks_seq(),
        b2.spec_graph().instrs_seq() == b1.spec_graph().instrs_seq(),
        b2.spec_expressions().len() == b1.spec_expressions().len() + 1,
        b2.spec_expressions().drop_last() == b1.spec_expressions(),
        b2.spec_merge_blocks() == b1.spec_merge_blocks(),
        b2.spec_current_block() == b1.spec_current_block(),
        b2.spec_expressions().len() > 0,
        b2.spec_merge_blocks().len() > 0,
        b2.spec_current_block() is Some,
        build_and_post(b2, b3),
    ensures
        b3.spec_graph().num_blocks() == b0.spec_graph().num_blocks() + 2,
        b3.spec_graph().num_instructions() == b0.spec_graph().num_instructions() + 2,
        ({
            let g0 = b0.spec_graph();
            let g3 = b3.spec_graph();
            let lhs = b0.spec_expressions().last();
            let rhs = b2.spec_expressions().last();
            let rhs_block = BlockRef(g0.num_blocks() as u32);
            let merge_block = BlockRef((g0.num_blocks() + 1) as u32);
            let cond = InstructionRef(g0.num_instructions() as u32);
            let jump = InstructionRef((g0.num_instructions() + 1) as u32);
            &&& (g3.instrs_seq()[cond.0 as int].op matches Op::BranchIf(c, t, e) && c == lhs
                && t.block == rhs_block && t.args@.len() == 0 && e.block == merge_block && e.args@
                =~= seq![lhs])
            &&& (g3.instrs_seq()[jump.0 as int].op matches Op::Branch(t) && t.block == merge_block
                && t.args@ =~= seq![rhs])
            &&& g3.values_seq()[b3.spec_expressions().last().0 as int] == Value::BlockArgument(
                merge_block,
                0,
            )
            &&& b3.spec_current_block() == Some(merge_block)
        }),
{
    let g0 = b0.spec_graph();
    let g1 = b1.spec_graph();
    let cond = InstructionRef(g0.num_instructions() as u32);
    assert(b1.spec_merge_blocks().last() == BlockRef((g0.num_blocks() + 1) as u32));
    assert(b3.spec_graph().instrs_seq()[cond.0 as int].op == g1.instrs_seq()[cond.0 as int].op);
}

/// How removing a linked instruction relates the graph before and after:
/// the instruction leaves its owner's chain and becomes detached, and
/// nothing else moves.
pub open spec fn removal_post(pre: Graph, post: Graph, instruction: InstructionRef) -> bool {
    let b = pre.instrs_seq()[instruction.0 as int].block->0;
    let c_old = pre.chain_of(b.0 as int);
    let k = c_old.index_of(instruction);
    &&& post.num_blocks() == pre.num_blocks()
    &&& post.num_instructions() == pre.num_instructions()
    &&& post.values_seq() == pre.values_seq()
    &&& post.detached(instruction)
    &&& post.chain_of(b.0 as int) =~= c_old.remove(k)
    &&& (forall|bb: int|
        0 <= bb < pre.num_blocks() && bb != b.0 as int ==> post.blocks_seq()[bb]
            == pre.blocks_seq()[bb])
    &&& (forall|i: int|
        0 <= i < pre.num_instructions() ==> (#[trigger] post.instrs_seq()[i]).op
            == pre.instrs_seq()[i].op)
    &&& (forall|i: int|
        0 <= i < pre.num_instructions() && i != instruction.0 as int ==> (
        #[trigger] post.instrs_seq()[i]).block == pre.instrs_seq()[i].block)
    &&& post.preds_view() == pre.preds_view()
}

impl Graph {
    /// Removes the instruction only if it is linked: attempting to remove an
    /// already-unlinked instruction is rejected before any block link is
    /// touched, and the graph stands exactly as it was.
    pub fn try_remove_instruction(&mut self, instruction: InstructionRef) -> (r: bool)
        requires
            old(self).wf(),
            old(self).valid_instruction(instruction),
        ensures
            final(self).wf(),
            r == old(self).linked(instruction),
            old(self).linked(instruction) ==> removal_post(*old(self), *final(self), instruction),
            !old(self).linked(instruction) ==> *final(self) == *old(self),
    {
        let linked = self.instructions[instruction.0 as usize].block.is_some();
        if linked {
            self.remove_instruction(instruction);
            true
        } else {
            false
        }
    }
}

impl Builder {
    /// Pops the key and then the table operand, appends an index instruction
    /// in the current block, and pushes the instruction's result value.
    pub fn build_index(&mut self)
        requires
            old(self).wf(),
            old(self).spec_expressions().len() >= 2,
            old(self).spec_current_block() is Some,
            old(self).spec_graph().num_instructions() < u32::MAX,
            old(self).spec_graph().num_values() < u32::MAX,
        ensures
            final(self).wf(),
            ({
                let g0 = old(self).spec_graph();
                let g1 = final(self).spec_graph();
                let key = old(self).spec_expressions().last();
                let table = old(self).spec_expressions().drop_last().last();
                let current = old(self).spec_current_block()->0;
                let instr = InstructionRef(g0.num_instructions() as u32);
                let result = Value::InstructionResult(instr);
                let r = final(self).spec_expressions().last();
                &&& g1.num_blocks() == g0.num_blocks()
                &&& g1.num_instructions() == g0.num_instructions() + 1
                &&& g1.chain_of(current.0 as int) =~= g0.chain_of(current.0 as int).push(instr)
                &&& (forall|b: int|
                    0 <= b < g0.num_blocks() && b != current.0 as int ==> g1.blocks_seq()[b]
                        == g0.blocks_seq()[b])
                &&& (forall|i: int|
                    0 <= i < g0.num_instructions() ==> (#[trigger] g1.instrs_seq()[i]).op
                        == g0.instrs_seq()[i].op)
                &&& (g1.instrs_seq()[instr.0 as int].op matches Op::Index(t, k) && t == table && k
                    == key)
                &&& r.0 < g1.num_values()
                &&& g1.values_seq()[r.0 as int] == result
                &&& (g0.values_seq().contains(result) ==> g1.values_seq() == g0.values_seq())
                &&& (!g0.values_seq().contains(result) ==> g1.values_seq() =~= g0.values_seq().push(
                    result,
                ))
                &&& final(self).spec_expressions() == old(self).spec_expressions().drop_last().drop_last().push(r)
                &&& final(self).spec_merge_blocks() == old(self).spec_merge_blocks()
                &&& final(self).spec_current_block() == old(self).spec_current_block()
            }),
    {
        let key = self.pop_expression();
        let table = self.pop_expression();
        let current = match self.current_block {
            Some(b) => b,
            None => vstd::pervasive::unreached(),
        };
        let instr = self.graph.append_instruction(current, Op::Index(table, key));
        let result = self.graph.add_value(Value::InstructionResult(instr));
        self.expression_stack.push(result);
    }
}

impl From<bool> for Value {
    fn from(value: bool) -> (r: Self) {
        Value::Bool(value)
    }
}

impl vstd::std_specs::convert::FromSpecImpl<bool> for Value {
    open spec fn obeys_from_spec() -> bool {
        true
    }

    open spec fn from_spec(value: bool) -> Self {
        Value::Bool(value)
    }
}

impl From<i64> for Value {
    fn from(value: i64) -> (r: Self) {
        Value::Int(value)
    }
}

impl vstd::std_specs::convert::FromSpecImpl<i64> for Value {
    open spec fn obeys_from_spec() -> bool {
        true
    }

    open spec fn from_spec(value: i64) -> Self {
        Value::Int(value)
    }
}

impl From<StringRef> for Value {
    fn from(value: StringRef) -> (r: Self) {
        Value::String(value)
    }
}

impl vstd::std_specs::convert::FromSpecImpl<StringRef> for Value {
    open spec fn obeys_from_spec() -> bool {
        true
    }

    open spec fn from_spec(value: StringRef) -> Self {
        Value::String(value)
    }
}

impl From<InstructionRef> for Value {
    fn from(value: InstructionRef) -> (r: Self) {
        Value::InstructionResult(value)
    }
}

impl vstd::std_specs::convert::FromSpecImpl<InstructionRef> for Value {
    open spec fn obeys_from_spec() -> bool {
        true
    }

    open spec fn from_spec(value: InstructionRef) -> Self {
        Value::InstructionResult(value)
    }
}

impl From<Numeral> for Value {
    fn from(value: Numeral) -> (r: Self) {
        match value {
            Numeral::Int(v) => Value::Int(v),
            Numeral::Float(v) => Value::Float(v),
        }
    }
}

impl vstd::std_specs::convert::FromSpecImpl<Numeral> for Value {
    open spec fn obeys_from_spec() -> bool {
        true
    }

    open spec fn from_spec(value: Numeral) -> Self {
        match value {
            Numeral::Int(v) => Value::Int(v),
            Numeral::Float(v) => Value::Float(v),
        }
    }
}

/// Interning idempotence for values: a well-formed graph's value store holds
/// each value in at most one slot, so interning equal values always yields
/// one reference, and looking a reference up yields the value it was made
/// from.
pub proof fn lemma_value_store_canonical(g: Graph, i: int, j: int)
    requires
        g.wf(),
        0 <= i < g.num_values(),
        0 <= j < g.num_values(),
        i != j,
    ensures
        g.values_seq()[i] != g.values_seq()[j],
{
}

/// Short-circuit `or` shape: the structural dual of the `and` lowering —
/// the same two blocks and two branches arise, with the short-circuiting
/// edge and the carried operand swapped, and the result is again the merge
/// block's single argument.
pub proof fn lemma_short_circuit_or_shape(b0: Builder, b1: Builder, b2: Builder, b3: Builder)
    requires
        b0.wf(),
        b0.spec_expressions().len() > 0,
        b0.spec_current_block() is Some,
        build_partial_or_post(b0, b1),
        b2.spec_graph().blocks_seq() == b1.spec_graph().blocks_seq(),
        b2.spec_graph().instrs_seq() == b1.spec_graph().instrs_seq(),
        b2.spec_expressions().len() == b1.spec_expressions().len() + 1,
        b2.spec_expressions().drop_last() == b1.spec_expressions(),
        b2.spec_merge_blocks() == b1.spec_merge_blocks(),
        b2.spec_current_block() == b1.spec_current_block(),
        b2.spec_expressions().len() > 0,
        b2.spec_merge_blocks().len() > 0,
        b2.spec_current_block() is Some,
        build_and_post(b2, b3),
    ensures
        b3.spec_graph().num_blocks() == b0.spec_graph().num_blocks() + 2,
        b3.spec_graph().num_instructions() == b0.spec_graph().num_instructions() + 2,
        ({
            let g0 = b0.spec_graph();
            let g3 = b3.spec_graph();
            let lhs = b0.spec_expressions().last();
            let rhs = b2.spec_expressions().last();
            let rhs_block = BlockRef(g0.num_blocks() as u32);
            let merge_block = BlockRef((g0.num_blocks() + 1) as u32);
            let cond = InstructionRef(g0.num_instructions() as u32);
            let jump = InstructionRef((g0.num_instructions() + 1) as u32);
            &&& (g3.instrs_seq()[cond.0 as int].op matches Op::BranchIf(c, t, e) && c == lhs
                && t.block == merge_block && t.args@ =~= seq![lhs] && e.block == rhs_block
                && e.args@.len() == 0)
            &&& (g3.instrs_seq()[jump.0 as int].op matches Op::Branch(t) && t.block == merge_block
                && t.args@ =~= seq![rhs])
            &&& g3.values_seq()[b3.spec_expressions().last().0 as int] == Value::BlockArgument(
                merge_block,
                0,
            )
            &&& b3.spec_current_block() == Some(merge_block)
        }),
{
    let g0 = b0.spec_graph();
    let g1 = b1.spec_graph();
    let cond = InstructionRef(g0.num_instructions() as u32);
    assert(b1.spec_merge_blocks().last() == BlockRef((g0.num_blocks() + 1) as u32));
    assert(b3.spec_graph().instrs_seq()[cond.0 as int].op == g1.instrs_seq()[cond.0 as int].op);
}

} // verus!
