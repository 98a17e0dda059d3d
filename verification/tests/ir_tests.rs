use luafront::ir::{Builder, Graph, Op, Value};
use luafront::string_pool::StringRef;

#[test]
fn value_interning_is_idempotent() {
    let mut g = Graph::new();
    let a = g.add_value(Value::Int(42));
    let b = g.add_value(Value::Int(42));
    assert_eq!(a, b);
    assert_eq!(*g.value(a), Value::Int(42));
    assert_eq!(g.value_count(), 1);
}

#[test]
fn distinct_values_get_distinct_refs() {
    let mut g = Graph::new();
    let a = g.add_value(Value::Int(1));
    let b = g.add_value(Value::Int(2));
    let c = g.add_value(Value::Bool(true));
    let d = g.add_value(Value::String(StringRef(0)));
    assert_ne!(a, b);
    assert_ne!(b, c);
    assert_ne!(c, d);
    assert_eq!(g.value_count(), 4);
    // interning an already-present value grows nothing
    let e = g.add_value(Value::Bool(true));
    assert_eq!(e, c);
    assert_eq!(g.value_count(), 4);
}

#[test]
fn append_links_in_order() {
    let mut g = Graph::new();
    let block = g.new_block();
    let i1 = g.append_instruction(block, Op::Local);
    let i2 = g.append_instruction(block, Op::Table);
    let i3 = g.append_instruction(block, Op::Local);
    let forward = g.block_instructions(block);
    assert_eq!(forward, vec![i1, i2, i3]);
    let backward = g.block_instructions_reversed(block);
    assert_eq!(backward, vec![i3, i2, i1]);
    assert_eq!(g.block(block).head, Some(i1));
    assert_eq!(g.block(block).tail, Some(i3));
}

#[test]
fn remove_repairs_neighbor_links() {
    let mut g = Graph::new();
    let block = g.new_block();
    let i1 = g.append_instruction(block, Op::Local);
    let i2 = g.append_instruction(block, Op::Table);
    let i3 = g.append_instruction(block, Op::Local);
    g.remove_instruction(i2);
    assert_eq!(g.block_instructions(block), vec![i1, i3]);
    assert_eq!(g.block_instructions_reversed(block), vec![i3, i1]);
    assert!(g.instruction(i2).block.is_none());
    assert!(g.instruction(i2).prior.is_none());
    assert!(g.instruction(i2).next.is_none());
    // removing head and tail too
    g.remove_instruction(i1);
    assert_eq!(g.block_instructions(block), vec![i3]);
    g.remove_instruction(i3);
    assert_eq!(g.block_instructions(block), vec![]);
    assert!(g.block(block).head.is_none());
    assert!(g.block(block).tail.is_none());
}

#[test]
fn removed_instruction_can_be_relinked() {
    let mut g = Graph::new();
    let b1 = g.new_block();
    let b2 = g.new_block();
    let i = g.append_instruction(b1, Op::Table);
    g.remove_instruction(i);
    g.insert_at_end(i, b2);
    assert_eq!(g.block_instructions(b1), vec![]);
    assert_eq!(g.block_instructions(b2), vec![i]);
}

#[test]
fn removing_unlinked_instruction_is_rejected() {
    let mut g = Graph::new();
    let block = g.new_block();
    let detached = g.new_instruction(Op::Local);
    let linked = g.append_instruction(block, Op::Table);
    // a never-linked instruction is rejected outright
    assert!(!g.try_remove_instruction(detached));
    assert_eq!(g.block_instructions(block), vec![linked]);
    // a linked one is removed, and a second attempt is rejected
    assert!(g.try_remove_instruction(linked));
    assert!(!g.try_remove_instruction(linked));
    assert_eq!(g.block_instructions(block), vec![]);
    assert_eq!(g.instruction_count(), 2);
}

#[test]
fn predecessors_come_deduplicated_and_ordered() {
    let mut g = Graph::new();
    let b0 = g.new_block();
    let b1 = g.new_block();
    let b2 = g.new_block();
    let b3 = g.new_block();
    assert!(g.add_predecessor(b0, b2));
    assert!(g.add_predecessor(b0, b1));
    assert!(g.add_predecessor(b0, b3));
    // the same edge again is reported as already present
    assert!(!g.add_predecessor(b0, b2));
    assert_eq!(g.predecessors(b0), vec![b1, b2, b3]);
    assert_eq!(g.predecessors(b1), vec![]);
}

#[test]
fn graph_clear_resets_everything() {
    let mut g = Graph::new();
    let block = g.new_block();
    g.append_instruction(block, Op::Local);
    g.add_value(Value::Nil);
    g.clear();
    assert_eq!(g.block_count(), 0);
    assert_eq!(g.instruction_count(), 0);
    assert_eq!(g.value_count(), 0);
}

/// Lowers one `A and B` with non-constant operands and checks the exact
/// shape: two new blocks, one conditional and one unconditional branch, and
/// the merge block's single argument as the result.
#[test]
fn short_circuit_and_shape() {
    let mut g = Graph::new();
    let entry = g.new_block();
    let mut b = Builder::new(g);
    b.set_current_block(entry);
    // a non-constant left operand: the result of an index instruction
    b.push_value(Value::Nil);
    b.push_value(Value::Bool(true));
    b.build_index();
    let blocks_before = b.graph().block_count();
    let instrs_before = b.graph().instruction_count();
    b.build_partial_and();
    // the right operand: another instruction result, emitted into the
    // right-hand-side block
    b.push_value(Value::Nil);
    b.push_value(Value::Bool(false));
    b.build_index();
    let branch_instructions_emitted_by_rhs = 1; // the index instruction
    b.build_and();
    let result = b.pop_expression();
    let g = b.into_graph();

    assert_eq!(g.block_count(), blocks_before + 2);
    assert_eq!(
        g.instruction_count(),
        instrs_before + 2 + branch_instructions_emitted_by_rhs
    );

    let rhs_block = luafront::ir::BlockRef(blocks_before as u32);
    let merge_block = luafront::ir::BlockRef(blocks_before as u32 + 1);

    // the conditional branch stands last in the entry block
    let entry_chain = g.block_instructions(entry);
    let cond = *entry_chain.last().unwrap();
    match &g.instruction(cond).op {
        Op::BranchIf(_, true_edge, false_edge) => {
            assert_eq!(true_edge.block, rhs_block);
            assert!(true_edge.args.is_empty());
            assert_eq!(false_edge.block, merge_block);
            assert_eq!(false_edge.args.len(), 1);
        }
        other => panic!("expected a conditional branch, got {:?}", other),
    }

    // the unconditional branch stands last in the right-hand-side block
    let rhs_chain = g.block_instructions(rhs_block);
    let jump = *rhs_chain.last().unwrap();
    match &g.instruction(jump).op {
        Op::Branch(target) => {
            assert_eq!(target.block, merge_block);
            assert_eq!(target.args.len(), 1);
        }
        other => panic!("expected an unconditional branch, got {:?}", other),
    }

    // the expression's result is the merge block's single argument
    assert_eq!(*g.value(result), Value::BlockArgument(merge_block, 0));
}

/// The `or` lowering is the structural dual: the short-circuiting edge and
/// the carried operand swap.
#[test]
fn short_circuit_or_swaps_edges() {
    let mut g = Graph::new();
    let entry = g.new_block();
    let mut b = Builder::new(g);
    b.set_current_block(entry);
    b.push_value(Value::Nil);
    b.push_value(Value::Bool(true));
    b.build_index();
    let blocks_before = b.graph().block_count();
    b.build_or_incomplete();
    b.push_value(Value::Int(7));
    b.build_or();
    let result = b.pop_expression();
    let g = b.into_graph();

    let rhs_block = luafront::ir::BlockRef(blocks_before as u32);
    let merge_block = luafront::ir::BlockRef(blocks_before as u32 + 1);
    let entry_chain = g.block_instructions(entry);
    let cond = *entry_chain.last().unwrap();
    match &g.instruction(cond).op {
        Op::BranchIf(_, true_edge, false_edge) => {
            // truthy short-circuits to the merge block carrying the operand
            assert_eq!(true_edge.block, merge_block);
            assert_eq!(true_edge.args.len(), 1);
            assert_eq!(false_edge.block, rhs_block);
            assert!(false_edge.args.is_empty());
        }
        other => panic!("expected a conditional branch, got {:?}", other),
    }
    assert_eq!(*g.value(result), Value::BlockArgument(merge_block, 0));
}

#[test]
fn not_folds_truthy_constants_to_false() {
    for constant in [
        Value::Bool(true),
        Value::Int(0),
        Value::Float(0),
        Value::String(StringRef(3)),
    ] {
        let mut b = Builder::new(Graph::new());
        b.push_value(constant);
        let instrs_before = b.graph().instruction_count();
        b.build_not();
        assert_eq!(b.graph().instruction_count(), instrs_before);
        let r = b.pop_expression();
        assert_eq!(*b.graph().value(r), Value::Bool(false));
    }
}

#[test]
fn not_folds_falsy_constants_to_true() {
    for constant in [Value::Bool(false), Value::Nil] {
        let mut b = Builder::new(Graph::new());
        b.push_value(constant);
        let instrs_before = b.graph().instruction_count();
        b.build_not();
        assert_eq!(b.graph().instruction_count(), instrs_before);
        let r = b.pop_expression();
        assert_eq!(*b.graph().value(r), Value::Bool(true));
    }
}

#[test]
fn not_of_instruction_result_is_pure_negation_value() {
    let mut g = Graph::new();
    let entry = g.new_block();
    let mut b = Builder::new(g);
    b.set_current_block(entry);
    b.push_value(Value::Nil);
    b.push_value(Value::Int(1));
    b.build_index();
    let operand_count = b.graph().value_count();
    let instrs_before = b.graph().instruction_count();
    b.build_not();
    // boolean negation of a non-constant folds to a pure derived value:
    // exactly one new value, and no instruction is emitted
    assert_eq!(b.graph().instruction_count(), instrs_before);
    assert_eq!(b.graph().value_count(), operand_count + 1);
    let r = b.pop_expression();
    match *b.graph().value(r) {
        Value::Not(_) => {}
        other => panic!("expected a derived negation value, got {:?}", other),
    }
}

#[test]
fn value_from_conversions() {
    assert_eq!(Value::from(true), Value::Bool(true));
    assert_eq!(Value::from(-3i64), Value::Int(-3));
    assert_eq!(Value::from(StringRef(5)), Value::String(StringRef(5)));
    assert_eq!(
        Value::from(luafront::ir::InstructionRef(2)),
        Value::InstructionResult(luafront::ir::InstructionRef(2))
    );
    assert_eq!(
        Value::from(luafront::lex::Numeral::Int(9)),
        Value::Int(9)
    );
    assert_eq!(
        Value::from(luafront::lex::Numeral::Float(0x3FF0000000000000)),
        Value::Float(0x3FF0000000000000)
    );
}

#[test]
fn new_value_list_copies_contents() {
    let mut g = Graph::new();
    let a = g.add_value(Value::Int(1));
    let b = g.add_value(Value::Int(2));
    let list = g.new_value_list(&[a, b]);
    assert_eq!(list, vec![a, b]);
}

#[test]
fn linkage_survives_interleaved_appends_and_removals() {
    let mut g = Graph::new();
    let block = g.new_block();
    let mut model: Vec<luafront::ir::InstructionRef> = Vec::new();
    for round in 0..6u32 {
        let i = g.append_instruction(block, Op::Local);
        model.push(i);
        let j = g.append_instruction(block, Op::Table);
        model.push(j);
        if round % 2 == 0 {
            // drop the older of the two just appended
            let victim = model.remove(model.len() - 2);
            g.remove_instruction(victim);
        }
        assert_eq!(g.block_instructions(block), model);
        let mut reversed = model.clone();
        reversed.reverse();
        assert_eq!(g.block_instructions_reversed(block), reversed);
    }
    // drain from the front
    while !model.is_empty() {
        let victim = model.remove(0);
        g.remove_instruction(victim);
        assert_eq!(g.block_instructions(block), model);
    }
    assert!(g.block(block).head.is_none());
    assert!(g.block(block).tail.is_none());
}
