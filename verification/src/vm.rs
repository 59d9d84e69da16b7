use crate::error::{RuntimeError, RuntimeErrorType};
use crate::pcode::{PCodeManager, Pcode, PcodeType};
use vstd::prelude::*;

verus! {

/// The fixed capacity of the operand stack.
pub const STACK_SIZE: usize = 4096;

/// The mathematical image of the machine: every field the step relation
/// reads or writes, with the stack and the I/O channels as sequences.
#[verifier::ext_equal]
pub ghost struct VmV {
    pub code: Seq<Pcode>,
    pub data: Seq<i64>,
    pub pc: usize,
    pub base: usize,
    pub top: usize,
    pub inputs: Seq<i64>,
    pub in_ptr: usize,
    pub outputs: Seq<i64>,
}

impl VmV {
    /// The shape every reachable state keeps: a full-size stack, the input
    /// cursor inside the input list, and `top` and `base` inside the stack.
    pub open spec fn wf(self) -> bool {
        &&& self.data.len() == STACK_SIZE
        &&& self.in_ptr <= self.inputs.len()
        &&& self.top <= STACK_SIZE
        &&& self.base < STACK_SIZE
    }
}

/// What one step of the machine did, beside changing the state.
pub ghost enum EffectV {
    Running,
    Output(i64),
    Newline,
    NeedInput,
    Failed(RuntimeErrorType),
}

/// What one step of the machine reports back to its driver.
#[derive(Debug)]
pub enum StepResult {
    Running,
    Output(i64),
    Newline,
    NeedInput,
    Failed(RuntimeError),
}

/// What a bounded run of the machine ended with.
#[derive(Debug)]
pub enum InterpretResult {
    Halted,
    NeedInput,
    OutOfSteps,
    Failed(RuntimeError),
}

/// The diagnostic text for each runtime-error kind.
pub open spec fn runtime_msg(k: RuntimeErrorType) -> Seq<char> {
    match k {
        RuntimeErrorType::StackOverflow => "the operand stack is exhausted"@,
        RuntimeErrorType::InvalidInstruction => "an uninitialised instruction was reached"@,
        RuntimeErrorType::InvalidOperator => "an undefined operator number was reached"@,
        RuntimeErrorType::InvalidAddress => "a storage access fell outside the stack"@,
        RuntimeErrorType::DivisionByZero => "division by zero"@,
    }
}

/// The frame base reached by following the static link `l` times from `b`,
/// or nothing when a link leads outside the stack.  The static link of a
/// frame sits one slot above its base.
pub open spec fn spec_base(data: Seq<i64>, b: int, l: nat) -> Option<int>
    decreases l,
{
    if l == 0 {
        Some(b)
    } else if 0 <= b && b + 1 < STACK_SIZE && 0 <= data[b + 1] && data[b + 1] < STACK_SIZE {
        spec_base(data, data[b + 1] as int, (l - 1) as nat)
    } else {
        None
    }
}

/// Every base that `spec_base` returns lies inside the stack.
pub proof fn lemma_spec_base_range(data: Seq<i64>, b: int, l: nat)
    requires
        0 <= b < STACK_SIZE,
        spec_base(data, b, l) is Some,
    ensures
        0 <= spec_base(data, b, l)->0 < STACK_SIZE,
    decreases l,
{
    if l > 0 {
        lemma_spec_base_range(data, data[b + 1] as int, (l - 1) as nat);
    }
}

/// Wrapping negation of an `i64`.
pub open spec fn wneg(v: i64) -> i64 {
    if v == i64::MIN {
        i64::MIN
    } else {
        (-v) as i64
    }
}

/// Wrapping division of an `i64` by a nonzero `i64`.
pub open spec fn wdiv(x: i64, y: i64) -> i64 {
    match x.checked_div(y) {
        Some(q) => q,
        None => i64::MIN,
    }
}

/// Truncated remainder by two: 0, 1 or -1, with the sign of the argument.
pub open spec fn rem2(v: i64) -> i64 {
    match v.checked_rem(2) {
        Some(q) => q,
        None => 0,
    }
}

/// The state unchanged, paired with a failure.
pub open spec fn step_fail(s: VmV, k: RuntimeErrorType) -> (VmV, EffectV) {
    (s, EffectV::Failed(k))
}

/// One step of the machine: fetch the instruction at `pc`, advance `pc`,
/// dispatch.  Every stack access is bounds-checked; a violation leaves the
/// state unchanged and reports the failure.
pub open spec fn spec_step(s: VmV) -> (VmV, EffectV) {
    if s.pc >= s.code.len() {
        step_fail(s, RuntimeErrorType::InvalidAddress)
    } else {
        let inst = s.code[s.pc as int];
        let pc1 = (s.pc + 1) as usize;
        match inst.f {
            PcodeType::NIL => step_fail(s, RuntimeErrorType::InvalidInstruction),
            PcodeType::LIT => if s.top >= STACK_SIZE {
                step_fail(s, RuntimeErrorType::StackOverflow)
            } else {
                (
                    VmV {
                        data: s.data.update(s.top as int, inst.a),
                        top: (s.top + 1) as usize,
                        pc: pc1,
                        ..s
                    },
                    EffectV::Running,
                )
            },
            PcodeType::OPR => spec_step_opr(s, inst, pc1),
            PcodeType::LOD => {
                let rb = spec_base(s.data, s.base as int, inst.l as nat);
                if rb is None {
                    step_fail(s, RuntimeErrorType::InvalidAddress)
                } else if inst.a < 0 || rb->0 + inst.a >= STACK_SIZE {
                    step_fail(s, RuntimeErrorType::InvalidAddress)
                } else if s.top >= STACK_SIZE {
                    step_fail(s, RuntimeErrorType::StackOverflow)
                } else {
                    (
                        VmV {
                            data: s.data.update(s.top as int, s.data[rb->0 + inst.a]),
                            top: (s.top + 1) as usize,
                            pc: pc1,
                            ..s
                        },
                        EffectV::Running,
                    )
                }
            },
            PcodeType::STO => {
                let rb = spec_base(s.data, s.base as int, inst.l as nat);
                if s.top < 1 {
                    step_fail(s, RuntimeErrorType::InvalidAddress)
                } else if rb is None {
                    step_fail(s, RuntimeErrorType::InvalidAddress)
                } else if inst.a < 0 || rb->0 + inst.a >= STACK_SIZE {
                    step_fail(s, RuntimeErrorType::InvalidAddress)
                } else {
                    (
                        VmV {
                            data: s.data.update(rb->0 + inst.a, s.data[s.top - 1]),
                            top: (s.top - 1) as usize,
                            pc: pc1,
                            ..s
                        },
                        EffectV::Running,
                    )
                }
            },
            PcodeType::STA => if inst.l > s.base {
                step_fail(s, RuntimeErrorType::InvalidAddress)
            } else if inst.a < 0 || s.base + inst.a >= STACK_SIZE {
                step_fail(s, RuntimeErrorType::InvalidAddress)
            } else {
                (
                    VmV {
                        data: s.data.update(s.base + inst.a, s.data[s.base - inst.l]),
                        pc: pc1,
                        ..s
                    },
                    EffectV::Running,
                )
            },
            PcodeType::CAL => {
                let rb = spec_base(s.data, s.base as int, inst.l as nat);
                if s.top + 2 >= STACK_SIZE {
                    step_fail(s, RuntimeErrorType::StackOverflow)
                } else if rb is None {
                    step_fail(s, RuntimeErrorType::InvalidAddress)
                } else if inst.a < 0 || inst.a > s.code.len() {
                    step_fail(s, RuntimeErrorType::InvalidAddress)
                } else {
                    (
                        VmV {
                            data: s.data.update(s.top as int, s.base as i64).update(
                                s.top + 1,
                                rb->0 as i64,
                            ).update(s.top + 2, pc1 as i64),
                            base: s.top,
                            pc: inst.a as usize,
                            ..s
                        },
                        EffectV::Running,
                    )
                }
            },
            PcodeType::INT => if inst.a < 0 || s.top + inst.a > STACK_SIZE {
                step_fail(s, RuntimeErrorType::StackOverflow)
            } else {
                ((VmV { top: (s.top + inst.a) as usize, pc: pc1, ..s }), EffectV::Running)
            },
            PcodeType::JMP => if inst.a < 0 || inst.a > s.code.len() {
                step_fail(s, RuntimeErrorType::InvalidAddress)
            } else {
                ((VmV { pc: inst.a as usize, ..s }), EffectV::Running)
            },
            PcodeType::JPC => if s.top < 1 {
                step_fail(s, RuntimeErrorType::InvalidAddress)
            } else if inst.a < 0 || inst.a > s.code.len() {
                step_fail(s, RuntimeErrorType::InvalidAddress)
            } else if s.data[s.top - 1] == 0 {
                ((VmV { top: (s.top - 1) as usize, pc: inst.a as usize, ..s }), EffectV::Running)
            } else {
                ((VmV { top: (s.top - 1) as usize, pc: pc1, ..s }), EffectV::Running)
            },
            PcodeType::RED => {
                let rb = spec_base(s.data, s.base as int, inst.l as nat);
                if rb is None {
                    step_fail(s, RuntimeErrorType::InvalidAddress)
                } else if inst.a < 0 || rb->0 + inst.a >= STACK_SIZE {
                    step_fail(s, RuntimeErrorType::InvalidAddress)
                } else if s.in_ptr >= s.inputs.len() {
                    (s, EffectV::NeedInput)
                } else {
                    (
                        VmV {
                            data: s.data.update(rb->0 + inst.a, s.inputs[s.in_ptr as int]),
                            in_ptr: (s.in_ptr + 1) as usize,
                            pc: pc1,
                            ..s
                        },
                        EffectV::Running,
                    )
                }
            },
            PcodeType::WRT => if s.top < 1 {
                step_fail(s, RuntimeErrorType::InvalidAddress)
            } else {
                (
                    VmV {
                        outputs: s.outputs.push(s.data[s.top - 1]),
                        top: (s.top - 1) as usize,
                        pc: pc1,
                        ..s
                    },
                    EffectV::Output(s.data[s.top - 1]),
                )
            },
        }
    }
}

/// The `OPR` sub-operations: return, arithmetic, comparisons, and console
/// I/O on the operand stack.
pub open spec fn spec_step_opr(s: VmV, inst: Pcode, pc1: usize) -> (VmV, EffectV) {
    if inst.a == 0 {
        // return: reset top to the frame base, restore pc and base from the
        // frame header
        if s.base + 2 >= STACK_SIZE {
            step_fail(s, RuntimeErrorType::InvalidAddress)
        } else {
            let dl = s.data[s.base as int];
            let ra = s.data[s.base + 2];
            if dl < 0 || dl >= STACK_SIZE || ra < 0 || ra > s.code.len() {
                step_fail(s, RuntimeErrorType::InvalidAddress)
            } else {
                ((VmV { top: s.base, pc: ra as usize, base: dl as usize, ..s }), EffectV::Running)
            }
        }
    } else if inst.a == 1 {
        if s.top < 1 {
            step_fail(s, RuntimeErrorType::InvalidAddress)
        } else {
            (
                VmV { data: s.data.update(s.top - 1, wneg(s.data[s.top - 1])), pc: pc1, ..s },
                EffectV::Running,
            )
        }
    } else if 2 <= inst.a && inst.a <= 5 {
        if s.top < 2 {
            step_fail(s, RuntimeErrorType::InvalidAddress)
        } else {
            let x = s.data[s.top - 2];
            let y = s.data[s.top - 1];
            if inst.a == 5 && y == 0 {
                step_fail(s, RuntimeErrorType::DivisionByZero)
            } else {
                let v = if inst.a == 2 {
                    x.wrapping_add(y)
                } else if inst.a == 3 {
                    x.wrapping_sub(y)
                } else if inst.a == 4 {
                    x.wrapping_mul(y)
                } else {
                    wdiv(x, y)
                };
                (
                    VmV {
                        data: s.data.update(s.top - 2, v),
                        top: (s.top - 1) as usize,
                        pc: pc1,
                        ..s
                    },
                    EffectV::Running,
                )
            }
        }
    } else if inst.a == 6 {
        if s.top < 1 {
            step_fail(s, RuntimeErrorType::InvalidAddress)
        } else {
            (
                VmV { data: s.data.update(s.top - 1, rem2(s.data[s.top - 1])), pc: pc1, ..s },
                EffectV::Running,
            )
        }
    } else if inst.a == 7 {
        ((VmV { pc: pc1, ..s }), EffectV::Running)
    } else if 8 <= inst.a && inst.a <= 13 {
        if s.top < 2 {
            step_fail(s, RuntimeErrorType::InvalidAddress)
        } else {
            let x = s.data[s.top - 2];
            let y = s.data[s.top - 1];
            let b = if inst.a == 8 {
                x == y
            } else if inst.a == 9 {
                x != y
            } else if inst.a == 10 {
                x < y
            } else if inst.a == 11 {
                x >= y
            } else if inst.a == 12 {
                x > y
            } else {
                x <= y
            };
            (
                VmV {
                    data: s.data.update(s.top - 2, if b { 1i64 } else { 0i64 }),
                    top: (s.top - 1) as usize,
                    pc: pc1,
                    ..s
                },
                EffectV::Running,
            )
        }
    } else if inst.a == 14 {
        if s.top < 1 {
            step_fail(s, RuntimeErrorType::InvalidAddress)
        } else {
            (
                VmV {
                    outputs: s.outputs.push(s.data[s.top - 1]),
                    top: (s.top - 1) as usize,
                    pc: pc1,
                    ..s
                },
                EffectV::Output(s.data[s.top - 1]),
            )
        }
    } else if inst.a == 15 {
        ((VmV { pc: pc1, ..s }), EffectV::Newline)
    } else if inst.a == 16 {
        if s.top >= STACK_SIZE {
            step_fail(s, RuntimeErrorType::StackOverflow)
        } else if s.in_ptr >= s.inputs.len() {
            (s, EffectV::NeedInput)
        } else {
            (
                VmV {
                    data: s.data.update(s.top as int, s.inputs[s.in_ptr as int]),
                    top: (s.top + 1) as usize,
                    in_ptr: (s.in_ptr + 1) as usize,
                    pc: pc1,
                    ..s
                },
                EffectV::Running,
            )
        }
    } else {
        step_fail(s, RuntimeErrorType::InvalidOperator)
    }
}

/// Whether the step result reported to the driver matches the effect of the
/// step relation; a failure carries the faulting instruction index and the
/// fixed message of its kind.
pub open spec fn step_matches(r: StepResult, e: EffectV, line: usize) -> bool {
    match (r, e) {
        (StepResult::Running, EffectV::Running) => true,
        (StepResult::Output(v), EffectV::Output(w)) => v == w,
        (StepResult::Newline, EffectV::Newline) => true,
        (StepResult::NeedInput, EffectV::NeedInput) => true,
        (StepResult::Failed(err), EffectV::Failed(k)) => err.error_type == k && err.line == line
            && err.info@ == runtime_msg(k),
        _ => false,
    }
}

/// A bounded run of the step relation: step until the program counter
/// returns to the sentinel index 0, a failure or missing input stops the
/// machine, or the budget runs out.
pub open spec fn spec_run(s: VmV, fuel: nat) -> (VmV, RunOutcomeV)
    decreases fuel,
{
    if fuel == 0 {
        (s, RunOutcomeV::OutOfSteps)
    } else {
        let (s1, e) = spec_step(s);
        match e {
            EffectV::Failed(k) => (s1, RunOutcomeV::Failed(k)),
            EffectV::NeedInput => (s1, RunOutcomeV::NeedInput),
            _ => if s1.pc == 0 {
                (s1, RunOutcomeV::Halted)
            } else {
                spec_run(s1, (fuel - 1) as nat)
            },
        }
    }
}

/// What a bounded run ended with, at the spec level.
pub ghost enum RunOutcomeV {
    Halted,
    NeedInput,
    OutOfSteps,
    Failed(RuntimeErrorType),
}

/// Whether the run result reported to the caller matches the outcome of the
/// run relation; a failure carries the faulting instruction index of the
/// final state.
pub open spec fn run_matches(r: InterpretResult, o: RunOutcomeV, line: usize) -> bool {
    match (r, o) {
        (InterpretResult::Halted, RunOutcomeV::Halted) => true,
        (InterpretResult::NeedInput, RunOutcomeV::NeedInput) => true,
        (InterpretResult::OutOfSteps, RunOutcomeV::OutOfSteps) => true,
        (InterpretResult::Failed(err), RunOutcomeV::Failed(k)) => err.error_type == k && err.line
            == line && err.info@ == runtime_msg(k),
        _ => false,
    }
}

/// The stack machine.  It executes a finished p-code list against a
/// fixed-capacity integer stack; `read` takes values from `inputs`, `write`
/// appends values to `outputs`.
#[derive(Debug)]
pub struct VM {
    pub code: Vec<Pcode>,
    pub data: Vec<i64>,
    pub pc: usize,
    pub base: usize,
    pub top: usize,
    pub inputs: Vec<i64>,
    pub in_ptr: usize,
    pub outputs: Vec<i64>,
}

impl View for VM {
    type V = VmV;

    open spec fn view(&self) -> VmV {
        VmV {
            code: self.code@,
            data: self.data@,
            pc: self.pc,
            base: self.base,
            top: self.top,
            inputs: self.inputs@,
            in_ptr: self.in_ptr,
            outputs: self.outputs@,
        }
    }
}

impl VM {
    pub open spec fn wf(&self) -> bool {
        self@.wf()
    }

    /// A fresh machine over a finished instruction list: empty stack,
    /// program counter at 0, no input yet.
    pub fn new(code: PCodeManager) -> (r: Self)
        ensures
            r@.code == code.pcode_list@,
            r@.data == Seq::new(STACK_SIZE as nat, |i: int| 0i64),
            r@.pc == 0,
            r@.base == 0,
            r@.top == 0,
            r@.inputs == Seq::<i64>::empty(),
            r@.in_ptr == 0,
            r@.outputs == Seq::<i64>::empty(),
            r.wf(),
    {
        let r = VM {
            code: code.pcode_list,
            data: vec![0i64; STACK_SIZE],
            pc: 0,
            base: 0,
            top: 0,
            inputs: Vec::new(),
            in_ptr: 0,
            outputs: Vec::new(),
        };
        proof {
            assert(r@.data =~= Seq::new(STACK_SIZE as nat, |i: int| 0i64));
        }
        r
    }

    /// Queue one more value for the program to read.
    pub fn push_input(&mut self, v: i64)
        requires
            old(self).wf(),
        ensures
            final(self)@ == (VmV { inputs: old(self)@.inputs.push(v), ..old(self)@ }),
            final(self).wf(),
    {
        self.inputs.push(v);
    }

    /// The values the program has written so far.
    pub fn get_outputs(&self) -> (r: &Vec<i64>)
        ensures
            r@ == self@.outputs,
    {
        &self.outputs
    }

    /// Builds the diagnostic for a runtime failure at instruction `line`.
    fn rt_error(k: RuntimeErrorType, line: usize) -> (r: RuntimeError)
        ensures
            r.error_type == k,
            r.line == line,
            r.info@ == runtime_msg(k),
    {
        let info = match k {
            RuntimeErrorType::StackOverflow => "the operand stack is exhausted".to_owned(),
            RuntimeErrorType::InvalidInstruction => "an uninitialised instruction was reached".to_owned(),
            RuntimeErrorType::InvalidOperator => "an undefined operator number was reached".to_owned(),
            RuntimeErrorType::InvalidAddress => "a storage access fell outside the stack".to_owned(),
            RuntimeErrorType::DivisionByZero => "division by zero".to_owned(),
        };
        RuntimeError { line, info, error_type: k }
    }

    /// The frame base `level` static-link hops above `base`, or `None` when
    /// a link leads outside the stack.
    fn get_base(&self, base: usize, level: usize) -> (r: Option<usize>)
        requires
            self.wf(),
            base < STACK_SIZE,
        ensures
            ({
                let sb = spec_base(self@.data, base as int, level as nat);
                match r {
                    Some(b) => sb == Some(b as int) && b < STACK_SIZE,
                    None => sb is None,
                }
            }),
    {
        let mut b = base;
        let mut l = level;
        while l > 0
            invariant
                b < STACK_SIZE,
                spec_base(self@.data, base as int, level as nat) == spec_base(
                    self@.data,
                    b as int,
                    l as nat,
                ),
            decreases l,
        {
            if b + 1 >= STACK_SIZE {
                return None;
            }
            let next = self.data[b + 1];
            if next < 0 || next >= STACK_SIZE as i64 {
                return None;
            }
            b = next as usize;
            l = l - 1;
        }
        Some(b)
    }

    /// Execute the instruction at `pc`.  The state afterwards, and the
    /// reported result, are exactly what the step relation gives.
    #[verifier::rlimit(100)]
    pub fn step(&mut self) -> (r: StepResult)
        requires
            old(self).wf(),
        ensures
            final(self).wf(),
            final(self)@ == spec_step(old(self)@).0,
            step_matches(r, spec_step(old(self)@).1, old(self).pc),
    {
        let line = self.pc;
        if self.pc >= self.code.len() {
            return StepResult::Failed(Self::rt_error(RuntimeErrorType::InvalidAddress, line));
        }
        let inst = self.code[self.pc];
        let pc1 = self.pc + 1;
        match inst.f {
            PcodeType::NIL => StepResult::Failed(
                Self::rt_error(RuntimeErrorType::InvalidInstruction, line),
            ),
            PcodeType::LIT => {
                if self.top >= STACK_SIZE {
                    return StepResult::Failed(
                        Self::rt_error(RuntimeErrorType::StackOverflow, line),
                    );
                }
                self.data.set(self.top, inst.a);
                self.top = self.top + 1;
                self.pc = pc1;
                StepResult::Running
            },
            PcodeType::OPR => self.step_opr(inst, pc1),
            PcodeType::LOD => {
                let rb = self.get_base(self.base, inst.l);
                match rb {
                    None => StepResult::Failed(
                        Self::rt_error(RuntimeErrorType::InvalidAddress, line),
                    ),
                    Some(b) => {
                        if inst.a < 0 || inst.a >= STACK_SIZE as i64 || b + (inst.a as usize)
                            >= STACK_SIZE {
                            return StepResult::Failed(
                                Self::rt_error(RuntimeErrorType::InvalidAddress, line),
                            );
                        }
                        if self.top >= STACK_SIZE {
                            return StepResult::Failed(
                                Self::rt_error(RuntimeErrorType::StackOverflow, line),
                            );
                        }
                        let v = self.data[b + (inst.a as usize)];
                        self.data.set(self.top, v);
                        self.top = self.top + 1;
                        self.pc = pc1;
                        StepResult::Running
                    },
                }
            },
            PcodeType::STO => {
                let rb = self.get_base(self.base, inst.l);
                if self.top < 1 {
                    return StepResult::Failed(
                        Self::rt_error(RuntimeErrorType::InvalidAddress, line),
                    );
                }
                match rb {
                    None => StepResult::Failed(
                        Self::rt_error(RuntimeErrorType::InvalidAddress, line),
                    ),
                    Some(b) => {
                        if inst.a < 0 || inst.a >= STACK_SIZE as i64 || b + (inst.a as usize)
                            >= STACK_SIZE {
                            return StepResult::Failed(
                                Self::rt_error(RuntimeErrorType::InvalidAddress, line),
                            );
                        }
                        let v = self.data[self.top - 1];
                        self.data.set(b + (inst.a as usize), v);
                        self.top = self.top - 1;
                        self.pc = pc1;
                        StepResult::Running
                    },
                }
            },
            PcodeType::STA => {
                if inst.l > self.base {
                    return StepResult::Failed(
                        Self::rt_error(RuntimeErrorType::InvalidAddress, line),
                    );
                }
                if inst.a < 0 || inst.a >= STACK_SIZE as i64 || self.base + (inst.a as usize)
                    >= STACK_SIZE {
                    return StepResult::Failed(
                        Self::rt_error(RuntimeErrorType::InvalidAddress, line),
                    );
                }
                let v = self.data[self.base - inst.l];
                self.data.set(self.base + (inst.a as usize), v);
                self.pc = pc1;
                StepResult::Running
            },
            PcodeType::CAL => {
                let rb = self.get_base(self.base, inst.l);
                if self.top + 2 >= STACK_SIZE {
                    return StepResult::Failed(
                        Self::rt_error(RuntimeErrorType::StackOverflow, line),
                    );
                }
                match rb {
                    None => StepResult::Failed(
                        Self::rt_error(RuntimeErrorType::InvalidAddress, line),
                    ),
                    Some(b) => {
                        if inst.a < 0 || !le_code_len(inst.a, self.code.len()) {
                            return StepResult::Failed(
                                Self::rt_error(RuntimeErrorType::InvalidAddress, line),
                            );
                        }
                        proof {
                            lemma_spec_base_range(self@.data, self.base as int, inst.l as nat);
                        }
                        self.data.set(self.top, self.base as i64);
                        self.data.set(self.top + 1, b as i64);
                        self.data.set(self.top + 2, #[verifier::truncate] (pc1 as i64));
                        self.base = self.top;
                        self.pc = inst.a as usize;
                        StepResult::Running
                    },
                }
            },
            PcodeType::INT => {
                if inst.a < 0 || inst.a > STACK_SIZE as i64 || self.top + (inst.a as usize)
                    > STACK_SIZE {
                    return StepResult::Failed(
                        Self::rt_error(RuntimeErrorType::StackOverflow, line),
                    );
                }
                self.top = self.top + (inst.a as usize);
                self.pc = pc1;
                StepResult::Running
            },
            PcodeType::JMP => {
                if inst.a < 0 || !le_code_len(inst.a, self.code.len()) {
                    return StepResult::Failed(
                        Self::rt_error(RuntimeErrorType::InvalidAddress, line),
                    );
                }
                self.pc = inst.a as usize;
                StepResult::Running
            },
            PcodeType::JPC => {
                if self.top < 1 {
                    return StepResult::Failed(
                        Self::rt_error(RuntimeErrorType::InvalidAddress, line),
                    );
                }
                if inst.a < 0 || !le_code_len(inst.a, self.code.len()) {
                    return StepResult::Failed(
                        Self::rt_error(RuntimeErrorType::InvalidAddress, line),
                    );
                }
                let v = self.data[self.top - 1];
                self.top = self.top - 1;
                if v == 0 {
                    self.pc = inst.a as usize;
                } else {
                    self.pc = pc1;
                }
                StepResult::Running
            },
            PcodeType::RED => {
                let rb = self.get_base(self.base, inst.l);
                match rb {
                    None => StepResult::Failed(
                        Self::rt_error(RuntimeErrorType::InvalidAddress, line),
                    ),
                    Some(b) => {
                        if inst.a < 0 || inst.a >= STACK_SIZE as i64 || b + (inst.a as usize)
                            >= STACK_SIZE {
                            return StepResult::Failed(
                                Self::rt_error(RuntimeErrorType::InvalidAddress, line),
                            );
                        }
                        if self.in_ptr >= self.inputs.len() {
                            return StepResult::NeedInput;
                        }
                        let v = self.inputs[self.in_ptr];
                        self.data.set(b + (inst.a as usize), v);
                        self.in_ptr = self.in_ptr + 1;
                        self.pc = pc1;
                        StepResult::Running
                    },
                }
            },
            PcodeType::WRT => {
                if self.top < 1 {
                    return StepResult::Failed(
                        Self::rt_error(RuntimeErrorType::InvalidAddress, line),
                    );
                }
                let v = self.data[self.top - 1];
                self.outputs.push(v);
                self.top = self.top - 1;
                self.pc = pc1;
                StepResult::Output(v)
            },
        }
    }

    /// The `OPR` dispatch of `step`.
    #[verifier::rlimit(100)]
    fn step_opr(&mut self, inst: Pcode, pc1: usize) -> (r: StepResult)
        requires
            old(self).wf(),
            old(self).pc < old(self)@.code.len(),
            inst == old(self)@.code[old(self).pc as int],
            inst.f == PcodeType::OPR,
            pc1 == old(self).pc + 1,
        ensures
            final(self).wf(),
            final(self)@ == spec_step_opr(old(self)@, inst, pc1).0,
            step_matches(r, spec_step_opr(old(self)@, inst, pc1).1, old(self).pc),
    {
        let line = self.pc;
        if inst.a == 0 {
            if self.base + 2 >= STACK_SIZE {
                return StepResult::Failed(Self::rt_error(RuntimeErrorType::InvalidAddress, line));
            }
            let dl = self.data[self.base];
            let ra = self.data[self.base + 2];
            if dl < 0 || dl >= STACK_SIZE as i64 || ra < 0 || !le_code_len(ra, self.code.len()) {
                return StepResult::Failed(Self::rt_error(RuntimeErrorType::InvalidAddress, line));
            }
            self.top = self.base;
            self.pc = ra as usize;
            self.base = dl as usize;
            StepResult::Running
        } else if inst.a == 1 {
            if self.top < 1 {
                return StepResult::Failed(Self::rt_error(RuntimeErrorType::InvalidAddress, line));
            }
            let v = self.data[self.top - 1];
            let nv = if v == i64::MIN {
                i64::MIN
            } else {
                -v
            };
            self.data.set(self.top - 1, nv);
            self.pc = pc1;
            StepResult::Running
        } else if 2 <= inst.a && inst.a <= 5 {
            if self.top < 2 {
                return StepResult::Failed(Self::rt_error(RuntimeErrorType::InvalidAddress, line));
            }
            let x = self.data[self.top - 2];
            let y = self.data[self.top - 1];
            if inst.a == 5 && y == 0 {
                return StepResult::Failed(Self::rt_error(RuntimeErrorType::DivisionByZero, line));
            }
            let v = if inst.a == 2 {
                x.wrapping_add(y)
            } else if inst.a == 3 {
                x.wrapping_sub(y)
            } else if inst.a == 4 {
                x.wrapping_mul(y)
            } else {
                match x.checked_div(y) {
                    Some(q) => q,
                    None => i64::MIN,
                }
            };
            self.data.set(self.top - 2, v);
            self.top = self.top - 1;
            self.pc = pc1;
            StepResult::Running
        } else if inst.a == 6 {
            if self.top < 1 {
                return StepResult::Failed(Self::rt_error(RuntimeErrorType::InvalidAddress, line));
            }
            let v = self.data[self.top - 1];
            let rv = match v.checked_rem(2) {
                Some(q) => q,
                None => 0,
            };
            self.data.set(self.top - 1, rv);
            self.pc = pc1;
            StepResult::Running
        } else if inst.a == 7 {
            self.pc = pc1;
            StepResult::Running
        } else if 8 <= inst.a && inst.a <= 13 {
            if self.top < 2 {
                return StepResult::Failed(Self::rt_error(RuntimeErrorType::InvalidAddress, line));
            }
            let x = self.data[self.top - 2];
            let y = self.data[self.top - 1];
            let b = if inst.a == 8 {
                x == y
            } else if inst.a == 9 {
                x != y
            } else if inst.a == 10 {
                x < y
            } else if inst.a == 11 {
                x >= y
            } else if inst.a == 12 {
                x > y
            } else {
                x <= y
            };
            self.data.set(self.top - 2, if b { 1 } else { 0 });
            self.top = self.top - 1;
            self.pc = pc1;
            StepResult::Running
        } else if inst.a == 14 {
            if self.top < 1 {
                return StepResult::Failed(Self::rt_error(RuntimeErrorType::InvalidAddress, line));
            }
            let v = self.data[self.top - 1];
            self.outputs.push(v);
            self.top = self.top - 1;
            self.pc = pc1;
            StepResult::Output(v)
        } else if inst.a == 15 {
            self.pc = pc1;
            StepResult::Newline
        } else if inst.a == 16 {
            if self.top >= STACK_SIZE {
                return StepResult::Failed(Self::rt_error(RuntimeErrorType::StackOverflow, line));
            }
            if self.in_ptr >= self.inputs.len() {
                return StepResult::NeedInput;
            }
            let v = self.inputs[self.in_ptr];
            self.data.set(self.top, v);
            self.top = self.top + 1;
            self.in_ptr = self.in_ptr + 1;
            self.pc = pc1;
            StepResult::Running
        } else {
            StepResult::Failed(Self::rt_error(RuntimeErrorType::InvalidOperator, line))
        }
    }

    /// Run at most `max_steps` instructions.  The final state and the
    /// outcome are exactly what the bounded run relation gives; the values
    /// written are collected in `outputs`.
    pub fn interpret(&mut self, max_steps: usize) -> (r: InterpretResult)
        requires
            old(self).wf(),
        ensures
            final(self).wf(),
            final(self)@ == spec_run(old(self)@, max_steps as nat).0,
            run_matches(r, spec_run(old(self)@, max_steps as nat).1, final(self).pc),
    {
        let mut fuel = max_steps;
        loop
            invariant
                self.wf(),
                spec_run(old(self)@, max_steps as nat) == spec_run(self@, fuel as nat),
                fuel <= max_steps,
            decreases fuel,
        {
            if fuel == 0 {
                return InterpretResult::OutOfSteps;
            }
            let ghost pre = self@;
            let sr = self.step();
            match sr {
                StepResult::Failed(e) => {
                    return InterpretResult::Failed(e);
                },
                StepResult::NeedInput => {
                    return InterpretResult::NeedInput;
                },
                _ => {},
            }
            if self.pc == 0 {
                return InterpretResult::Halted;
            }
            fuel = fuel - 1;
        }
    }
}

/// Whether a nonnegative operand stays inside the instruction list.
pub fn le_code_len(a: i64, len: usize) -> (r: bool)
    requires
        a >= 0,
    ensures
        r == (a <= len),
{
    (a as u64) <= (len as u64)
}

} // verus!
