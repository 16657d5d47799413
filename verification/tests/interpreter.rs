use logic_machine::interpreter::{BitValue, Chunk, OpCode, Value, VmError, STACK_CAPACITY};

/// Builds a machine whose pool holds the two operands and whose program loads
/// both and applies the given gate.
fn gate_machine(a: BitValue, b: BitValue, gate: OpCode) -> Chunk {
    let mut c = Chunk::new();
    let a0 = c.push_const(Value::Bit(a));
    let a1 = c.push_const(Value::Bit(b));
    c.push_op(OpCode::Const(a0));
    c.push_op(OpCode::Const(a1));
    c.push_op(gate);
    c
}

fn eval_gate(a: BitValue, b: BitValue, gate: OpCode) -> Result<Option<Value>, VmError> {
    let mut c = gate_machine(a, b, gate);
    c.execute()
}

#[test]
fn is_true_is_false_are_complements() {
    assert!(BitValue::On.is_true());
    assert!(!BitValue::On.is_false());
    assert!(BitValue::Off.is_false());
    assert!(!BitValue::Off.is_true());
}

#[test]
fn and_truth_table() {
    let on = BitValue::On;
    let off = BitValue::Off;
    assert_eq!(eval_gate(on, on, OpCode::And), Ok(Some(Value::Bit(on))));
    assert_eq!(eval_gate(on, off, OpCode::And), Ok(Some(Value::Bit(off))));
    assert_eq!(eval_gate(off, on, OpCode::And), Ok(Some(Value::Bit(off))));
    assert_eq!(eval_gate(off, off, OpCode::And), Ok(Some(Value::Bit(off))));
}

#[test]
fn or_truth_table() {
    let on = BitValue::On;
    let off = BitValue::Off;
    assert_eq!(eval_gate(on, on, OpCode::Or), Ok(Some(Value::Bit(on))));
    assert_eq!(eval_gate(on, off, OpCode::Or), Ok(Some(Value::Bit(on))));
    assert_eq!(eval_gate(off, on, OpCode::Or), Ok(Some(Value::Bit(on))));
    assert_eq!(eval_gate(off, off, OpCode::Or), Ok(Some(Value::Bit(off))));
}

#[test]
fn nand_truth_table() {
    let on = BitValue::On;
    let off = BitValue::Off;
    assert_eq!(eval_gate(on, on, OpCode::Nand), Ok(Some(Value::Bit(off))));
    assert_eq!(eval_gate(on, off, OpCode::Nand), Ok(Some(Value::Bit(on))));
    assert_eq!(eval_gate(off, on, OpCode::Nand), Ok(Some(Value::Bit(on))));
    assert_eq!(eval_gate(off, off, OpCode::Nand), Ok(Some(Value::Bit(on))));
}

#[test]
fn scenario_const_on_const_on_and() {
    assert_eq!(
        eval_gate(BitValue::On, BitValue::On, OpCode::And),
        Ok(Some(Value::Bit(BitValue::On)))
    );
}

#[test]
fn scenario_const_on_const_off_and() {
    assert_eq!(
        eval_gate(BitValue::On, BitValue::Off, OpCode::And),
        Ok(Some(Value::Bit(BitValue::Off)))
    );
}

#[test]
fn scenario_const_off_const_off_or() {
    assert_eq!(
        eval_gate(BitValue::Off, BitValue::Off, OpCode::Or),
        Ok(Some(Value::Bit(BitValue::Off)))
    );
}

#[test]
fn scenario_const_on_const_on_nand() {
    assert_eq!(
        eval_gate(BitValue::On, BitValue::On, OpCode::Nand),
        Ok(Some(Value::Bit(BitValue::Off)))
    );
}

#[test]
fn scenario_two_voids_and_is_type_mismatch() {
    let mut c = Chunk::new();
    c.push_op(OpCode::And);
    c.push_stack_value(Value::Void).unwrap();
    c.push_stack_value(Value::Void).unwrap();
    assert_eq!(c.execute(), Err(VmError::TypeMismatch));
}

#[test]
fn scenario_pop_on_cleared_stack_underflows() {
    let mut c = Chunk::new();
    c.push_stack_value(Value::Void).unwrap();
    c.clear_stack();
    assert_eq!(c.pop_stack_value(), Err(VmError::StackUnderflow));
}

#[test]
fn push_past_capacity_overflows_and_keeps_prior_pushes() {
    let mut c = Chunk::new();
    for i in 0..STACK_CAPACITY {
        let v = if i % 2 == 0 {
            Value::Bit(BitValue::On)
        } else {
            Value::Bit(BitValue::Off)
        };
        assert_eq!(c.push_stack_value(v), Ok(()));
    }
    // The (capacity + 1)-th push fails; nothing already pushed is undone.
    assert_eq!(
        c.push_stack_value(Value::Void),
        Err(VmError::StackOverflow)
    );
    let expected_top = if (STACK_CAPACITY - 1) % 2 == 0 {
        Value::Bit(BitValue::On)
    } else {
        Value::Bit(BitValue::Off)
    };
    assert_eq!(c.pop_stack_value(), Ok(expected_top));
}

#[test]
fn pop_on_empty_stack_underflows_and_leaves_top_at_zero() {
    let mut c = Chunk::new();
    assert_eq!(c.pop_stack_value(), Err(VmError::StackUnderflow));
    // The stack is still empty: a second pop fails the same way, and a push
    // followed by a pop hands the pushed value straight back.
    assert_eq!(c.pop_stack_value(), Err(VmError::StackUnderflow));
    c.push_stack_value(Value::Bit(BitValue::On)).unwrap();
    assert_eq!(c.pop_stack_value(), Ok(Value::Bit(BitValue::On)));
}

#[test]
fn rerun_with_same_operands_gives_same_result() {
    let mut c = Chunk::new();
    c.push_op(OpCode::Nand);
    let mut results = Vec::new();
    for _ in 0..2 {
        c.clear_stack();
        c.push_stack_value(Value::Bit(BitValue::On)).unwrap();
        c.push_stack_value(Value::Bit(BitValue::Off)).unwrap();
        c.reset_ip();
        results.push(c.execute());
    }
    assert_eq!(results[0], results[1]);
    assert_eq!(results[0], Ok(Some(Value::Bit(BitValue::On))));
}

#[test]
fn const_out_of_range_fails_and_leaves_stack() {
    let mut c = Chunk::new();
    c.push_const(Value::Bit(BitValue::On));
    c.push_op(OpCode::Const(5));
    c.push_stack_value(Value::Bit(BitValue::Off)).unwrap();
    assert_eq!(c.execute(), Err(VmError::InvalidConstantIndex));
    // The sentinel pushed before the run is still the top of the stack.
    assert_eq!(c.pop_stack_value(), Ok(Value::Bit(BitValue::Off)));
    assert_eq!(c.pop_stack_value(), Err(VmError::StackUnderflow));
}

#[test]
fn const_in_range_pushes_pool_entry() {
    let mut c = Chunk::new();
    c.push_const(Value::Bit(BitValue::Off));
    let addr = c.push_const(Value::Bit(BitValue::On));
    assert_eq!(addr, 1);
    c.push_op(OpCode::Const(addr));
    assert_eq!(c.execute(), Ok(Some(Value::Bit(BitValue::On))));
}

#[test]
fn empty_program_reports_no_value() {
    let mut c = Chunk::new();
    assert_eq!(c.execute(), Ok(None));
}

#[test]
fn result_is_read_from_the_top_of_the_stack() {
    let mut c = Chunk::new();
    let a0 = c.push_const(Value::Bit(BitValue::Off));
    let a1 = c.push_const(Value::Bit(BitValue::On));
    c.push_op(OpCode::Const(a0));
    c.push_op(OpCode::Const(a1));
    // Two values remain; the reported result is the one pushed last.
    assert_eq!(c.execute(), Ok(Some(Value::Bit(BitValue::On))));
}

#[test]
fn push_opcode_pushes_void_and_pop_opcode_discards_it() {
    let mut c = Chunk::new();
    c.push_op_multiples(&[OpCode::Push, OpCode::Push, OpCode::Pop]);
    assert_eq!(c.execute(), Ok(Some(Value::Void)));
}

#[test]
fn pop_opcode_propagates_underflow() {
    let mut c = Chunk::new();
    c.push_op_multiples(&[OpCode::Push, OpCode::Pop, OpCode::Pop]);
    assert_eq!(c.execute(), Err(VmError::StackUnderflow));
}

#[test]
fn push_opcode_overflows_a_full_stack() {
    let mut c = Chunk::new();
    for _ in 0..(STACK_CAPACITY + 1) {
        c.push_op(OpCode::Push);
    }
    assert_eq!(c.execute(), Err(VmError::StackOverflow));
}

#[test]
fn gate_with_one_operand_underflows() {
    let mut c = Chunk::new();
    c.push_op(OpCode::Or);
    c.push_stack_value(Value::Bit(BitValue::On)).unwrap();
    assert_eq!(c.execute(), Err(VmError::StackUnderflow));
    // The lone operand is untouched by the failed gate.
    assert_eq!(c.pop_stack_value(), Ok(Value::Bit(BitValue::On)));
}

#[test]
fn gate_with_one_void_operand_is_type_mismatch() {
    let mut c = Chunk::new();
    c.push_op(OpCode::And);
    c.push_stack_value(Value::Bit(BitValue::On)).unwrap();
    c.push_stack_value(Value::Void).unwrap();
    assert_eq!(c.execute(), Err(VmError::TypeMismatch));
}

#[test]
fn push_op_multiples_matches_repeated_push_op() {
    let ops = [OpCode::Const(0), OpCode::Const(1), OpCode::Nand];
    let mut many = Chunk::new();
    many.push_const(Value::Bit(BitValue::On));
    many.push_const(Value::Bit(BitValue::On));
    many.push_op_multiples(&ops);
    let mut single = Chunk::new();
    single.push_const(Value::Bit(BitValue::On));
    single.push_const(Value::Bit(BitValue::On));
    for op in ops {
        single.push_op(op);
    }
    assert_eq!(many.execute(), single.execute());
}

#[test]
fn reset_ip_rewinds_without_clearing_the_stack() {
    let mut c = Chunk::new();
    c.push_op(OpCode::Push);
    assert_eq!(c.execute(), Ok(Some(Value::Void)));
    // Without a reset the pointer sits at the end: nothing more runs.
    assert_eq!(c.execute(), Ok(Some(Value::Void)));
    // After a reset the program runs again on the leftover stack.
    c.reset_ip();
    assert_eq!(c.execute(), Ok(Some(Value::Void)));
    assert_eq!(c.pop_stack_value(), Ok(Value::Void));
    assert_eq!(c.pop_stack_value(), Ok(Value::Void));
    assert_eq!(c.pop_stack_value(), Err(VmError::StackUnderflow));
}
