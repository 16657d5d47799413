use vstd::prelude::*;

verus! {

/// A two-state logic signal: the value the machine ultimately computes over.
#[derive(Clone, Copy, PartialEq, Eq, Structural, Debug)]
pub enum BitValue {
    Off,
    On,
}

/// A runtime value: either the absence of a meaningful value, or a logic signal.
#[derive(Clone, Copy, PartialEq, Eq, Structural, Debug)]
pub enum Value {
    Void,
    Bit(BitValue),
}

/// One atomic operation the execution engine can dispatch. `Const` carries the
/// constant-pool index of the value it pushes.
#[derive(Clone, Copy, PartialEq, Eq, Structural, Debug)]
pub enum OpCode {
    Push,
    Pop,
    Const(usize),
    And,
    Or,
    Nand,
}

/// A failure detected at the point of occurrence; `execute` stops at the first one.
#[derive(Clone, Copy, PartialEq, Eq, Structural, Debug)]
pub enum VmError {
    StackOverflow,
    StackUnderflow,
    InvalidConstantIndex,
    TypeMismatch,
}

/// Fixed capacity of the operand stack.
pub const STACK_CAPACITY: usize = 255;

impl BitValue {
    /// Holds exactly when the signal is `On`.
    pub fn is_true(self) -> (r: bool)
        ensures
            r == (self == BitValue::On),
    {
        self == BitValue::On
    }

    /// Holds exactly when the signal is `Off`: the exact complement of `is_true`.
    pub fn is_false(self) -> (r: bool)
        ensures
            r == (self == BitValue::Off),
            r == !(self == BitValue::On),
    {
        self == BitValue::Off
    }
}

/// `On` exactly when both inputs are `On`.
pub open spec fn bit_and(a: BitValue, b: BitValue) -> BitValue {
    if a == BitValue::On && b == BitValue::On {
        BitValue::On
    } else {
        BitValue::Off
    }
}

/// `On` exactly when at least one input is `On`.
pub open spec fn bit_or(a: BitValue, b: BitValue) -> BitValue {
    if a == BitValue::On || b == BitValue::On {
        BitValue::On
    } else {
        BitValue::Off
    }
}

/// `On` exactly when not both inputs are `On`.
pub open spec fn bit_nand(a: BitValue, b: BitValue) -> BitValue {
    if a == BitValue::On && b == BitValue::On {
        BitValue::Off
    } else {
        BitValue::On
    }
}

/// The signal a binary gate opcode produces from its two operands.
/// Meaningful only for `And`, `Or` and `Nand`.
pub open spec fn gate_output(op: OpCode, l: BitValue, r: BitValue) -> BitValue {
    match op {
        OpCode::And => bit_and(l, r),
        OpCode::Or => bit_or(l, r),
        OpCode::Nand => bit_nand(l, r),
        _ => arbitrary(),
    }
}

/// What one instruction does to the operand stack: either the stack after the
/// instruction, or the failure that stops the run.
pub ghost enum StepOutcome {
    Next { stack: Seq<Value> },
    Halt { err: VmError },
}

/// Effect of a binary gate opcode: the two topmost values are the left and
/// right operands (left below right); both must be `Bit`, and the pair is
/// replaced by the signal that gate yields.
pub open spec fn step_gate(op: OpCode, stack: Seq<Value>) -> StepOutcome {
    if stack.len() < 2 {
        StepOutcome::Halt { err: VmError::StackUnderflow }
    } else {
        match (stack[stack.len() - 2], stack[stack.len() - 1]) {
            (Value::Bit(l), Value::Bit(r)) => StepOutcome::Next {
                stack: stack.drop_last().drop_last().push(Value::Bit(gate_output(op, l, r))),
            },
            _ => StepOutcome::Halt { err: VmError::TypeMismatch },
        }
    }
}

/// Effect of one instruction on the operand stack, given the constant pool.
pub open spec fn step_op(op: OpCode, stack: Seq<Value>, consts: Seq<Value>) -> StepOutcome {
    match op {
        OpCode::Push => {
            if stack.len() >= STACK_CAPACITY {
                StepOutcome::Halt { err: VmError::StackOverflow }
            } else {
                StepOutcome::Next { stack: stack.push(Value::Void) }
            }
        },
        OpCode::Pop => {
            if stack.len() == 0 {
                StepOutcome::Halt { err: VmError::StackUnderflow }
            } else {
                StepOutcome::Next { stack: stack.drop_last() }
            }
        },
        OpCode::Const(addr) => {
            if addr >= consts.len() {
                StepOutcome::Halt { err: VmError::InvalidConstantIndex }
            } else if stack.len() >= STACK_CAPACITY {
                StepOutcome::Halt { err: VmError::StackOverflow }
            } else {
                StepOutcome::Next { stack: stack.push(consts[addr as int]) }
            }
        },
        _ => step_gate(op, stack),
    }
}

/// Outcome of running a program to completion from a given state: the final
/// stack on success, or the failure together with the stack as it stood before
/// the failing instruction and the instruction pointer just past it.
pub ghost enum RunOutcome {
    Done { stack: Seq<Value> },
    Fail { err: VmError, stack: Seq<Value>, ip: nat },
}

/// The whole run: fetch the instruction at `ip`, advance by one, dispatch, and
/// repeat until the pointer reaches the end of the code or an instruction fails.
pub open spec fn run_from(code: Seq<OpCode>, ip: nat, stack: Seq<Value>, consts: Seq<Value>) -> RunOutcome
    decreases code.len() - ip,
{
    if ip >= code.len() {
        RunOutcome::Done { stack }
    } else {
        match step_op(code[ip as int], stack, consts) {
            StepOutcome::Next { stack: next_stack } => run_from(code, ip + 1, next_stack, consts),
            StepOutcome::Halt { err } => RunOutcome::Fail { err, stack, ip: ip + 1 },
        }
    }
}

/// The engine's state, seen abstractly: the instruction sequence, the
/// instruction pointer, the operand stack (bottom first) and the constant pool.
pub ghost struct ChunkView {
    pub code: Seq<OpCode>,
    pub ip: nat,
    pub stack: Seq<Value>,
    pub consts: Seq<Value>,
}

/// A program together with the engine that executes it: an instruction
/// sequence, a constant pool, a bounded operand stack and an instruction pointer.
pub struct Chunk {
    bytecode: Vec<OpCode>,
    ip: usize,
    stack: Vec<Value>,
    const_pool: Vec<Value>,
}

impl View for Chunk {
    type V = ChunkView;

    closed spec fn view(&self) -> ChunkView {
        ChunkView {
            code: self.bytecode@,
            ip: self.ip as nat,
            stack: self.stack@,
            consts: self.const_pool@,
        }
    }
}

impl Chunk {
    /// The structural invariant: the instruction pointer never passes the end
    /// of the code, and the operand stack never exceeds its fixed capacity.
    pub open spec fn wf(self) -> bool {
        self@.ip <= self@.code.len() && self@.stack.len() <= STACK_CAPACITY
    }

    /// A fresh machine: no instructions, no constants, empty stack, pointer at 0.
    pub fn new() -> (c: Chunk)
        ensures
            c.wf(),
            c@.code == Seq::<OpCode>::empty(),
            c@.ip == 0,
            c@.stack == Seq::<Value>::empty(),
            c@.consts == Seq::<Value>::empty(),
    {
        Chunk {
            bytecode: Vec::new(),
            ip: 0,
            stack: Vec::new(),
            const_pool: Vec::new(),
        }
    }

    /// Appends one instruction at the end of the sequence.
    pub fn push_op(&mut self, op: OpCode)
        ensures
            old(self).wf() ==> final(self).wf(),
            final(self)@.code == old(self)@.code.push(op),
            final(self)@.ip == old(self)@.ip,
            final(self)@.stack == old(self)@.stack,
            final(self)@.consts == old(self)@.consts,
    {
        self.bytecode.push(op);
    }

    /// Appends the given instructions in order: the same as repeated `push_op`.
    pub fn push_op_multiples(&mut self, ops: &[OpCode])
        ensures
            old(self).wf() ==> final(self).wf(),
            final(self)@.code == old(self)@.code + ops@,
            final(self)@.ip == old(self)@.ip,
            final(self)@.stack == old(self)@.stack,
            final(self)@.consts == old(self)@.consts,
    {
        let mut i: usize = 0;
        while i < ops.len()
            invariant
                i <= ops@.len(),
                self@.code == old(self)@.code + ops@.subrange(0, i as int),
                self@.ip == old(self)@.ip,
                self@.stack == old(self)@.stack,
                self@.consts == old(self)@.consts,
            decreases ops@.len() - i,
        {
            let op = ops[i];
            self.push_op(op);
            proof {
                assert(ops@.subrange(0, i + 1) =~= ops@.subrange(0, i as int).push(op));
                assert(old(self)@.code + ops@.subrange(0, i + 1)
                    =~= (old(self)@.code + ops@.subrange(0, i as int)).push(op));
            }
            i = i + 1;
        }
        proof {
            assert(ops@.subrange(0, ops@.len() as int) =~= ops@);
        }
    }

    /// Adds a value at the end of the constant pool and returns the index that
    /// addresses it: its insertion position.
    pub fn push_const(&mut self, v: Value) -> (addr: usize)
        ensures
            old(self).wf() ==> final(self).wf(),
            final(self)@.consts == old(self)@.consts.push(v),
            addr == old(self)@.consts.len(),
            final(self)@.code == old(self)@.code,
            final(self)@.ip == old(self)@.ip,
            final(self)@.stack == old(self)@.stack,
    {
        let addr = self.const_pool.len();
        self.const_pool.push(v);
        addr
    }

    /// Sets the instruction pointer back to the start. Does not touch the stack.
    pub fn reset_ip(&mut self)
        ensures
            old(self).wf() ==> final(self).wf(),
            final(self)@.ip == 0,
            final(self)@.code == old(self)@.code,
            final(self)@.stack == old(self)@.stack,
            final(self)@.consts == old(self)@.consts,
    {
        self.ip = 0;
    }

    /// Empties the operand stack. Does not touch the instruction pointer.
    pub fn clear_stack(&mut self)
        ensures
            old(self).wf() ==> final(self).wf(),
            final(self)@.stack == Seq::<Value>::empty(),
            final(self)@.code == old(self)@.code,
            final(self)@.ip == old(self)@.ip,
            final(self)@.consts == old(self)@.consts,
    {
        self.stack.clear();
    }

    /// Pushes a value on the operand stack. Fails with `StackOverflow` exactly
    /// when the stack is at capacity, and then leaves the stack as it was.
    pub fn push_stack_value(&mut self, value: Value) -> (r: Result<(), VmError>)
        ensures
            old(self).wf() ==> final(self).wf(),
            old(self)@.stack.len() < STACK_CAPACITY ==> r == Ok::<(), VmError>(())
                && final(self)@.stack == old(self)@.stack.push(value),
            old(self)@.stack.len() >= STACK_CAPACITY ==> r == Err::<(), VmError>(VmError::StackOverflow)
                && final(self)@.stack == old(self)@.stack,
            final(self)@.code == old(self)@.code,
            final(self)@.ip == old(self)@.ip,
            final(self)@.consts == old(self)@.consts,
    {
        if self.stack.len() >= STACK_CAPACITY {
            Err(VmError::StackOverflow)
        } else {
            self.stack.push(value);
            Ok(())
        }
    }

    /// Pops and returns the top of the operand stack. Fails with
    /// `StackUnderflow` exactly when the stack is empty, and then leaves the
    /// stack as it was (its height stays 0).
    pub fn pop_stack_value(&mut self) -> (r: Result<Value, VmError>)
        ensures
            old(self).wf() ==> final(self).wf(),
            old(self)@.stack.len() == 0 ==> r == Err::<Value, VmError>(VmError::StackUnderflow)
                && final(self)@.stack == old(self)@.stack,
            old(self)@.stack.len() > 0 ==> r == Ok::<Value, VmError>(old(self)@.stack.last())
                && final(self)@.stack == old(self)@.stack.drop_last(),
            final(self)@.code == old(self)@.code,
            final(self)@.ip == old(self)@.ip,
            final(self)@.consts == old(self)@.consts,
    {
        match self.stack.pop() {
            Some(v) => Ok(v),
            None => Err(VmError::StackUnderflow),
        }
    }

    /// Applies a binary gate to the two topmost stack values, which must both
    /// be `Bit`; the pair is replaced by the signal that gate yields. On any failure the
    /// stack stays exactly as it was.
    fn exec_gate(&mut self, op: OpCode) -> (r: Result<(), VmError>)
        requires
            op is And || op is Or || op is Nand,
        ensures
            final(self)@.code == old(self)@.code,
            final(self)@.ip == old(self)@.ip,
            final(self)@.consts == old(self)@.consts,
            (match step_gate(op, old(self)@.stack) {
                StepOutcome::Next { stack } => r == Ok::<(), VmError>(()) && final(self)@.stack == stack,
                StepOutcome::Halt { err } => r == Err::<(), VmError>(err)
                    && final(self)@.stack == old(self)@.stack,
            }),
    {
        if self.stack.len() < 2 {
            return Err(VmError::StackUnderflow);
        }
        let right = self.stack[self.stack.len() - 1];
        let left = self.stack[self.stack.len() - 2];
        match (left, right) {
            (Value::Bit(l), Value::Bit(r)) => {
                let on = match op {
                    OpCode::And => l.is_true() && r.is_true(),
                    OpCode::Or => l.is_true() || r.is_true(),
                    _ => !(l.is_true() && r.is_true()),
                };
                let bit = if on {
                    BitValue::On
                } else {
                    BitValue::Off
                };
                let _ = self.stack.pop();
                let _ = self.stack.pop();
                self.stack.push(Value::Bit(bit));
                proof {
                    assert(bit == gate_output(op, l, r));
                    assert(final(self)@.stack
                        =~= old(self)@.stack.drop_last().drop_last().push(Value::Bit(bit)));
                }
                Ok(())
            },
            _ => Err(VmError::TypeMismatch),
        }
    }

    /// Runs the program to completion from the current state. On success the
    /// result is the top-of-stack value, or absent when the stack is empty; on
    /// failure it is the first error met, the stack stands as it did before the
    /// failing instruction, and the pointer just past it.
    pub fn execute(&mut self) -> (r: Result<Option<Value>, VmError>)
        requires
            old(self).wf(),
        ensures
            final(self).wf(),
            final(self)@.code == old(self)@.code,
            final(self)@.consts == old(self)@.consts,
            (match run_from(old(self)@.code, old(self)@.ip, old(self)@.stack, old(self)@.consts) {
                RunOutcome::Done { stack } => {
                    &&& final(self)@.stack == stack
                    &&& final(self)@.ip == old(self)@.code.len()
                    &&& r == Ok::<Option<Value>, VmError>(
                        if stack.len() > 0 {
                            Some(stack.last())
                        } else {
                            None
                        },
                    )
                },
                RunOutcome::Fail { err, stack, ip } => {
                    &&& r == Err::<Option<Value>, VmError>(err)
                    &&& final(self)@.stack == stack
                    &&& final(self)@.ip == ip
                },
            }),
    {
        while self.ip < self.bytecode.len()
            invariant
                self.wf(),
                self@.code == old(self)@.code,
                self@.consts == old(self)@.consts,
                run_from(old(self)@.code, old(self)@.ip, old(self)@.stack, old(self)@.consts)
                    == run_from(self@.code, self@.ip, self@.stack, self@.consts),
            decreases self@.code.len() - self@.ip,
        {
            let ghost pre = self@;
            let op = self.bytecode[self.ip];
            self.ip = self.ip + 1;
            match op {
                OpCode::Push => {
                    if self.stack.len() >= STACK_CAPACITY {
                        return Err(VmError::StackOverflow);
                    }
                    self.stack.push(Value::Void);
                },
                OpCode::Pop => {
                    if self.stack.len() == 0 {
                        return Err(VmError::StackUnderflow);
                    }
                    let _ = self.stack.pop();
                },
                OpCode::Const(addr) => {
                    if addr >= self.const_pool.len() {
                        return Err(VmError::InvalidConstantIndex);
                    }
                    if self.stack.len() >= STACK_CAPACITY {
                        return Err(VmError::StackOverflow);
                    }
                    let v = self.const_pool[addr];
                    self.stack.push(v);
                },
                _ => {
                    let step = self.exec_gate(op);
                    if let Err(e) = step {
                        return Err(e);
                    }
                },
            }
            proof {
                assert(step_op(pre.code[pre.ip as int], pre.stack, pre.consts)
                    == (StepOutcome::Next { stack: self@.stack }));
                assert(run_from(pre.code, pre.ip, pre.stack, pre.consts)
                    == run_from(self@.code, self@.ip, self@.stack, self@.consts));
            }
        }
        if self.stack.len() > 0 {
            let v = self.stack[self.stack.len() - 1];
            Ok(Some(v))
        } else {
            Ok(None)
        }
    }
}

/// The two signal states are exact complements: a signal that is not `On` is
/// `Off`, and the other way round; there is no third state.
pub proof fn lemma_bit_two_state(b: BitValue)
    ensures
        (b == BitValue::On) <==> !(b == BitValue::Off),
{
}

/// Truth tables of the three gates: `And` yields `On` iff both inputs are
/// `On`; `Or` iff at least one is; `Nand` iff not both are.
pub proof fn lemma_gate_truth_tables(a: BitValue, b: BitValue)
    ensures
        (bit_and(a, b) == BitValue::On) <==> (a == BitValue::On && b == BitValue::On),
        (bit_or(a, b) == BitValue::On) <==> (a == BitValue::On || b == BitValue::On),
        (bit_nand(a, b) == BitValue::On) <==> !(a == BitValue::On && b == BitValue::On),
{
}

/// An evaluation cycle is repeatable: clearing the stack, pushing the same
/// operands and resetting the pointer erases whatever a previous run left
/// behind, so two cycles over the same program and constant pool end the same
/// way — whatever the two engines' stacks and pointers held before.
pub proof fn lemma_evaluation_cycle_repeatable(
    first: ChunkView,
    second: ChunkView,
    operands: Seq<Value>,
)
    requires
        first.code == second.code,
        first.consts == second.consts,
    ensures
        run_from(first.code, 0, operands, first.consts)
            == run_from(second.code, 0, operands, second.consts),
{
}

/// How a run of `Push` instructions unfolds from position `ip`: every push
/// succeeds while the stack is below capacity, appending one `Void` each, and
/// the push attempted at capacity fails with `StackOverflow`, undoing none of
/// the earlier ones.
proof fn lemma_push_run(code: Seq<OpCode>, ip: nat, stack: Seq<Value>, consts: Seq<Value>)
    requires
        ip <= code.len(),
        forall|i: int| ip <= i < code.len() ==> code[i] == OpCode::Push,
    ensures
        stack.len() + (code.len() - ip) <= STACK_CAPACITY ==> run_from(code, ip, stack, consts)
            == (RunOutcome::Done {
            stack: stack + Seq::new((code.len() - ip) as nat, |i: int| Value::Void),
        }),
        stack.len() <= STACK_CAPACITY && stack.len() + (code.len() - ip) > STACK_CAPACITY
            ==> run_from(code, ip, stack, consts) == (RunOutcome::Fail {
            err: VmError::StackOverflow,
            stack: stack + Seq::new((STACK_CAPACITY - stack.len()) as nat, |i: int| Value::Void),
            ip: (ip + (STACK_CAPACITY - stack.len()) + 1) as nat,
        }),
    decreases code.len() - ip,
{
    if ip < code.len() && stack.len() < STACK_CAPACITY {
        let bigger = stack.push(Value::Void);
        lemma_push_run(code, ip + 1, bigger, consts);
        assert(bigger + Seq::new((code.len() - (ip + 1)) as nat, |i: int| Value::Void)
            =~= stack + Seq::new((code.len() - ip) as nat, |i: int| Value::Void));
        if bigger.len() <= STACK_CAPACITY && bigger.len() + (code.len() - (ip + 1)) > STACK_CAPACITY {
            assert(bigger + Seq::new((STACK_CAPACITY - bigger.len()) as nat, |i: int| Value::Void)
                =~= stack + Seq::new((STACK_CAPACITY - stack.len()) as nat, |i: int| Value::Void));
        }
    }
    if ip < code.len() && stack.len() == STACK_CAPACITY {
        assert(stack + Seq::new((STACK_CAPACITY - stack.len()) as nat, |i: int| Value::Void)
            =~= stack);
    }
    if ip >= code.len() {
        assert(stack + Seq::new((code.len() - ip) as nat, |i: int| Value::Void) =~= stack);
    }
}

/// Pushing one value more than the stack's capacity, starting from an empty
/// stack, fails with `StackOverflow` on the last push, and no earlier push is
/// undone: the stack still holds the `STACK_CAPACITY` values pushed before.
pub proof fn lemma_push_past_capacity_overflows(code: Seq<OpCode>, consts: Seq<Value>)
    requires
        code.len() == STACK_CAPACITY + 1,
        forall|i: int| 0 <= i < code.len() ==> code[i] == OpCode::Push,
    ensures
        run_from(code, 0, Seq::<Value>::empty(), consts) == (RunOutcome::Fail {
            err: VmError::StackOverflow,
            stack: Seq::new(STACK_CAPACITY as nat, |i: int| Value::Void),
            ip: (STACK_CAPACITY + 1) as nat,
        }),
{
    lemma_push_run(code, 0, Seq::<Value>::empty(), consts);
    assert(Seq::<Value>::empty() + Seq::new(STACK_CAPACITY as nat, |i: int| Value::Void)
        =~= Seq::new(STACK_CAPACITY as nat, |i: int| Value::Void));
}

/// A `Const` whose address lies outside the constant pool stops the run with
/// `InvalidConstantIndex` and does not alter the operand stack.
pub proof fn lemma_const_out_of_range(
    code: Seq<OpCode>,
    ip: nat,
    stack: Seq<Value>,
    consts: Seq<Value>,
    addr: usize,
)
    requires
        ip < code.len(),
        code[ip as int] == OpCode::Const(addr),
        addr >= consts.len(),
    ensures
        run_from(code, ip, stack, consts) == (RunOutcome::Fail {
            err: VmError::InvalidConstantIndex,
            stack,
            ip: ip + 1,
        }),
{
}

} // verus!
