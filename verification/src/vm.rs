//! The virtual machine: a stack of values, a flat table of global slots, and
//! a stack of call frames over the compiled functions. One call of `step`
//! executes one opcode; the host loops it to completion, and when a native
//! function is called the machine pauses, hands the host the arguments, and
//! resumes once the host provides the result.

use vstd::prelude::*;

use crate::compiler::CompilerOutput;
use crate::numerics::num_add;
use crate::numerics::num_div;
use crate::numerics::num_gt;
use crate::numerics::num_lt;
use crate::numerics::num_mul;
use crate::numerics::num_neg;
use crate::numerics::num_sub;
use crate::numerics::double_add;
use crate::numerics::double_div;
use crate::numerics::double_gt;
use crate::numerics::double_lt;
use crate::numerics::double_mul;
use crate::numerics::double_neg;
use crate::numerics::double_sub;
use crate::opcode::OpCode;
use crate::opcode::spec_opcode_of_byte;
use crate::value::Function;
use crate::value::NativeFunction;
use crate::value::Value;
use crate::value::ValueV;
use crate::value::is_falsey;
use crate::value::spec_is_falsey;
use crate::value::spec_values_equal;
use crate::value::values_equal;

verus! {

/// A fatal error met while executing; the value stack is cleared.
#[derive(Clone, Copy, PartialEq, Eq, Debug)]
pub struct RuntimeError {
    pub message: &'static str,
}

/// One function invocation: which function runs, where its locals begin on
/// the shared value stack, and its program counter. Slot 0 of every frame
/// holds the callee value itself.
#[derive(Clone, Copy, PartialEq, Eq, Structural, Debug)]
pub struct CallFrame {
    pub function: u32,
    pub stack_offset: usize,
    pub pc: usize,
}

/// What one `step` of the machine reports: more work to come, a pause for a
/// native call (the native's index and its arguments; the machine waits for
/// `resume_native`), or clean termination.
#[derive(Debug, PartialEq)]
pub enum VmStep {
    Continue,
    NativeCall(u32, Vec<Value>),
    Done,
}

#[derive(Debug)]
pub struct VM {
    pub stack: Vec<Value>,
    pub globals: Vec<Option<Value>>,
    pub call_frames: Vec<CallFrame>,
    /// The program's functions; a `Value::Func` names one by index.
    pub functions: Vec<Function>,
    /// The installed natives; a `Value::NativeFunc` names one by index.
    pub natives: Vec<NativeFunction>,
    /// True between a `NativeCall` pause and the host's `resume_native`.
    pub waiting_native: bool,
}


// ---------------------------------------------------------------------------
// The machine's small-step semantics, as spec functions over its state
// ---------------------------------------------------------------------------

/// The innermost (executing) frame.
pub open spec fn top_frame(vm: VM) -> CallFrame {
    vm.call_frames@.last()
}

/// The bytecode of the executing function.
pub open spec fn code_of(vm: VM) -> Seq<u8> {
    vm.functions@[top_frame(vm).function as int]@.chunk.bytes
}

/// The constant pool of the executing function.
pub open spec fn consts_of(vm: VM) -> Seq<ValueV> {
    vm.functions@[top_frame(vm).function as int]@.chunk.constants
}

/// The opcode at the program counter, if one decodes there.
pub open spec fn decoded(vm: VM) -> Option<OpCode> {
    if top_frame(vm).pc < code_of(vm).len() {
        spec_opcode_of_byte(code_of(vm)[top_frame(vm).pc as int])
    } else {
        None
    }
}

/// The one-byte operand after the opcode.
pub open spec fn operand(vm: VM) -> int {
    code_of(vm)[top_frame(vm).pc + 1] as int
}

/// The two-byte big-endian operand after the opcode.
pub open spec fn operand16(vm: VM) -> int {
    code_of(vm)[top_frame(vm).pc + 1] * 256 + code_of(vm)[top_frame(vm).pc + 2]
}

/// The frame stack with the executing frame's program counter moved to
/// `newpc` — what every opcode that stays in its frame does to the frames.
pub open spec fn frames_at(vm: VM, newpc: int) -> Seq<CallFrame> {
    vm.call_frames@.update(
        vm.call_frames@.len() - 1,
        CallFrame {
            function: top_frame(vm).function,
            stack_offset: top_frame(vm).stack_offset,
            pc: newpc as usize,
        },
    )
}

/// When one step succeeds: the machine is not waiting on a native, and — if
/// any frame remains — the opcode decodes, its operands lie inside the
/// chunk, the stack is deep enough (never dipping under the frame's base),
/// the operand types fit, global slots are in range (and set, for reads and
/// plain stores), jump targets stay representable, and a callee is a
/// function of matching arity or a native. With no frames left the step
/// reports termination.
pub open spec fn step_ok(pre: VM) -> bool {
    let fr = top_frame(pre);
    let code = code_of(pre);
    let pc0 = fr.pc as int;
    let n = pre.stack@.len() as int;
    let off = fr.stack_offset as int;
    if pre.waiting_native {
        false
    } else if pre.call_frames@.len() == 0 {
        true
    } else if fr.pc >= code.len() {
        false
    } else {
        match spec_opcode_of_byte(code[pc0]) {
            None => false,
            Some(op) => match op {
                OpCode::Constant => pc0 + 1 < code.len() && operand(pre) < consts_of(pre).len(),
                OpCode::Pop => n >= 1 && n - 1 >= off,
                OpCode::Equal => n >= 2 && n - 2 >= off,
                OpCode::Not => n >= 1 && n - 1 >= off,
                OpCode::Greater => n >= 2 && n - 2 >= off && two_numbers(pre),
                OpCode::Less => n >= 2 && n - 2 >= off && two_numbers(pre),
                OpCode::Subtract => n >= 2 && n - 2 >= off && two_numbers(pre),
                OpCode::Multiply => n >= 2 && n - 2 >= off && two_numbers(pre),
                OpCode::Divide => n >= 2 && n - 2 >= off && two_numbers(pre),
                OpCode::Add => n >= 2 && n - 2 >= off && (if two_strings(pre) {
                    strings_fit(pre)
                } else {
                    two_numbers(pre)
                }),
                OpCode::Negate => n >= 1 && n - 1 >= off && (pre.stack@[n - 1]@ is Number),
                OpCode::Null => true,
                OpCode::True => true,
                OpCode::False => true,
                OpCode::DefineGlobal => pc0 + 1 < code.len() && n >= 1 && n - 1 >= off && operand(
                    pre,
                ) < pre.globals@.len(),
                OpCode::SetGlobal => pc0 + 1 < code.len() && n >= 1 && operand(pre)
                    < pre.globals@.len() && pre.globals@[operand(pre)] is Some,
                OpCode::GetGlobal => pc0 + 1 < code.len() && operand(pre) < pre.globals@.len()
                    && pre.globals@[operand(pre)] is Some,
                OpCode::GetLocal => pc0 + 1 < code.len() && off + operand(pre) < n,
                OpCode::SetLocal => pc0 + 1 < code.len() && n >= 1 && off + operand(pre) < n,
                OpCode::JumpIfFalse => pc0 + 2 < code.len() && n >= 1 && (spec_is_falsey(
                    pre.stack@[n - 1]@,
                ) ==> pc0 + 3 + operand16(pre) <= usize::MAX),
                OpCode::Jump => pc0 + 2 < code.len() && pc0 + 3 + operand16(pre) <= usize::MAX,
                OpCode::JumpBack => pc0 + 2 < code.len() && operand16(pre) <= pc0 + 3,
                OpCode::Call => pc0 + 1 < code.len() && n >= 1 && n - 1 >= operand(pre) && (n - 1
                    - operand(pre)) >= off && (match pre.stack@[n - 1 - operand(pre)]@ {
                    ValueV::Func(f) => 0 <= f < pre.functions@.len() && operand(pre)
                        == pre.functions@[f]@.arity,
                    ValueV::Native(ni) => 0 <= ni < pre.natives@.len(),
                    _ => false,
                }),
                OpCode::Return => n >= 1 && n - 1 >= off,
            },
        }
    }
}

pub open spec fn two_numbers(pre: VM) -> bool {
    let n = pre.stack@.len() as int;
    (pre.stack@[n - 2]@ is Number) && (pre.stack@[n - 1]@ is Number)
}

pub open spec fn two_strings(pre: VM) -> bool {
    let n = pre.stack@.len() as int;
    (pre.stack@[n - 2]@ is Str) && (pre.stack@[n - 1]@ is Str)
}

pub open spec fn strings_fit(pre: VM) -> bool {
    let n = pre.stack@.len() as int;
    (pre.stack@[n - 2]@)->Str_0.len() + (pre.stack@[n - 1]@)->Str_0.len() <= usize::MAX
}

/// The IEEE-754 result of one arithmetic opcode on two numbers' bits.
pub open spec fn arith_result(op: OpCode, x: u64, y: u64) -> ValueV {
    match op {
        OpCode::Greater => ValueV::Bool(double_gt(x, y)),
        OpCode::Less => ValueV::Bool(double_lt(x, y)),
        OpCode::Add => ValueV::Number(double_add(x, y)),
        OpCode::Subtract => ValueV::Number(double_sub(x, y)),
        OpCode::Multiply => ValueV::Number(double_mul(x, y)),
        OpCode::Divide => ValueV::Number(double_div(x, y)),
        _ => ValueV::Null,
    }
}

/// The stack shrank by the two operands and grew by the one result.
pub open spec fn folds_top_two(pre: VM, post: VM, result: ValueV) -> bool {
    let n = pre.stack@.len() as int;
    &&& post.stack@.len() == n - 1
    &&& post.stack@.subrange(0, n - 2) == pre.stack@.subrange(0, n - 2)
    &&& post.stack@.last()@ == result
}

/// What one successful step does, opcode by opcode, given `step_ok(pre)`.
/// Values that are copied (a constant, a global, a local, a stored top) are
/// pinned by their mathematical view; everything the step does not name is
/// unchanged.
pub open spec fn step_post(pre: VM, post: VM, o: VmStep) -> bool {
    let fr = top_frame(pre);
    let pc0 = fr.pc as int;
    let n = pre.stack@.len() as int;
    let off = fr.stack_offset as int;
    &&& post.functions == pre.functions
    &&& post.natives == pre.natives
    &&& post.globals@.len() == pre.globals@.len()
    &&& (pre.call_frames@.len() == 0 ==> o is Done && post == pre)
    &&& (pre.call_frames@.len() > 0 ==> {
        &&& (o is Done <==> decoded(pre) == Some(OpCode::Return) && pre.call_frames@.len() == 1)
        &&& (o is NativeCall <==> decoded(pre) == Some(OpCode::Call) && pre.stack@[n - 1 - operand(
            pre,
        )]@ is Native)
        &&& (decoded(pre) == Some(OpCode::Constant) ==> post.call_frames@ == frames_at(pre, pc0 + 2)
            && post.globals == pre.globals && (exists|v: Value|
            post.stack@ == #[trigger] pre.stack@.push(v) && v@ == consts_of(pre)[operand(pre)]))
        &&& (decoded(pre) == Some(OpCode::Pop) ==> post.call_frames@ == frames_at(pre, pc0 + 1)
            && post.globals == pre.globals && post.stack@ == pre.stack@.drop_last())
        &&& (decoded(pre) == Some(OpCode::Equal) ==> post.call_frames@ == frames_at(pre, pc0 + 1)
            && post.globals == pre.globals && folds_top_two(
            pre,
            post,
            ValueV::Bool(spec_values_equal(pre.stack@[n - 2]@, pre.stack@[n - 1]@)),
        ))
        &&& (decoded(pre) == Some(OpCode::Not) ==> post.call_frames@ == frames_at(pre, pc0 + 1)
            && post.globals == pre.globals && post.stack@.len() == n && post.stack@.subrange(
            0,
            n - 1,
        ) == pre.stack@.subrange(0, n - 1) && post.stack@.last()@ == ValueV::Bool(
            spec_is_falsey(pre.stack@[n - 1]@),
        ))
        &&& (arith_opcode(decoded(pre)) && two_numbers(pre) ==> post.call_frames@ == frames_at(
            pre,
            pc0 + 1,
        ) && post.globals == pre.globals && folds_top_two(
            pre,
            post,
            arith_result(
                decoded(pre)->0,
                (pre.stack@[n - 2]@)->Number_0,
                (pre.stack@[n - 1]@)->Number_0,
            ),
        ))
        &&& (decoded(pre) == Some(OpCode::Add) && two_strings(pre) ==> post.call_frames@
            == frames_at(pre, pc0 + 1) && post.globals == pre.globals && folds_top_two(
            pre,
            post,
            ValueV::Str((pre.stack@[n - 2]@)->Str_0 + (pre.stack@[n - 1]@)->Str_0),
        ))
        &&& (decoded(pre) == Some(OpCode::Negate) ==> post.call_frames@ == frames_at(pre, pc0 + 1)
            && post.globals == pre.globals && post.stack@.len() == n && post.stack@.subrange(
            0,
            n - 1,
        ) == pre.stack@.subrange(0, n - 1) && post.stack@.last()@ == ValueV::Number(
            double_neg((pre.stack@[n - 1]@)->Number_0),
        ))
        &&& (decoded(pre) == Some(OpCode::Null) ==> post.call_frames@ == frames_at(pre, pc0 + 1)
            && post.globals == pre.globals && post.stack@ == pre.stack@.push(Value::Null))
        &&& (decoded(pre) == Some(OpCode::True) ==> post.call_frames@ == frames_at(pre, pc0 + 1)
            && post.globals == pre.globals && post.stack@ == pre.stack@.push(Value::Bool(true)))
        &&& (decoded(pre) == Some(OpCode::False) ==> post.call_frames@ == frames_at(pre, pc0 + 1)
            && post.globals == pre.globals && post.stack@ == pre.stack@.push(Value::Bool(false)))
        &&& (decoded(pre) == Some(OpCode::DefineGlobal) ==> post.call_frames@ == frames_at(
            pre,
            pc0 + 2,
        ) && post.stack@ == pre.stack@.drop_last() && (exists|v: Value|
            post.globals@ == #[trigger] pre.globals@.update(operand(pre), Some(v)) && v@
                == pre.stack@[n - 1]@))
        &&& (decoded(pre) == Some(OpCode::SetGlobal) ==> post.call_frames@ == frames_at(
            pre,
            pc0 + 2,
        ) && post.stack == pre.stack && (exists|v: Value|
            post.globals@ == #[trigger] pre.globals@.update(operand(pre), Some(v)) && v@
                == pre.stack@[n - 1]@))
        &&& (decoded(pre) == Some(OpCode::GetGlobal) ==> post.call_frames@ == frames_at(
            pre,
            pc0 + 2,
        ) && post.globals == pre.globals && (exists|v: Value|
            post.stack@ == #[trigger] pre.stack@.push(v) && Some(v@) == view_of_global(
                pre.globals@[operand(pre)],
            )))
        &&& (decoded(pre) == Some(OpCode::GetLocal) ==> post.call_frames@ == frames_at(pre, pc0 + 2)
            && post.globals == pre.globals && (exists|v: Value|
            post.stack@ == #[trigger] pre.stack@.push(v) && v@ == pre.stack@[off + operand(
                pre,
            )]@))
        &&& (decoded(pre) == Some(OpCode::SetLocal) ==> post.call_frames@ == frames_at(pre, pc0 + 2)
            && post.globals == pre.globals && (exists|v: Value|
            post.stack@ == pre.stack@.update(off + operand(pre), v) && #[trigger] v@
                == pre.stack@[n - 1]@))
        &&& (decoded(pre) == Some(OpCode::JumpIfFalse) ==> post.globals == pre.globals
            && post.stack == pre.stack && post.call_frames@ == frames_at(
            pre,
            if spec_is_falsey(pre.stack@[n - 1]@) {
                pc0 + 3 + operand16(pre)
            } else {
                pc0 + 3
            },
        ))
        &&& (decoded(pre) == Some(OpCode::Jump) ==> post.globals == pre.globals && post.stack
            == pre.stack && post.call_frames@ == frames_at(pre, pc0 + 3 + operand16(pre)))
        &&& (decoded(pre) == Some(OpCode::JumpBack) ==> post.globals == pre.globals && post.stack
            == pre.stack && post.call_frames@ == frames_at(pre, pc0 + 3 - operand16(pre)))
        &&& (decoded(pre) == Some(OpCode::Call) && pre.stack@[n - 1 - operand(pre)]@ is Func
            ==> post.globals == pre.globals && post.stack == pre.stack && (exists|nf: CallFrame|
            post.call_frames@ == #[trigger] frames_at(pre, pc0 + 2).push(nf) && nf.function as int
                == (
            pre.stack@[n - 1 - operand(pre)]@)->Func_0 && nf.stack_offset as int == n - 1 - operand(
                pre,
            ) && nf.pc == 0))
        &&& (decoded(pre) == Some(OpCode::Call) && pre.stack@[n - 1 - operand(pre)]@ is Native
            ==> post.globals == pre.globals && post.call_frames@ == frames_at(pre, pc0 + 2)
            && post.stack@ == pre.stack@.subrange(0, n - 1 - operand(pre)) && (o matches
        VmStep::NativeCall(ni, args) ==> ni as int == (pre.stack@[n - 1 - operand(pre)]@)->Native_0
            && args@.len() == operand(pre) && (forall|k: int|
            0 <= k < args@.len() ==> (#[trigger] args@[k])@ == pre.stack@[n - operand(pre) + k]@)))
        &&& (decoded(pre) == Some(OpCode::Return) ==> post.globals == pre.globals
            && post.call_frames@ == pre.call_frames@.drop_last() && (pre.call_frames@.len() == 1
            ==> post.stack@ == pre.stack@.subrange(0, off)) && (pre.call_frames@.len() > 1 ==> (
        exists|v: Value|
            post.stack@ == #[trigger] pre.stack@.subrange(0, off).push(v) && v@ == pre.stack@[n
                - 1]@)))
    })
}

/// Whether an option holds an arithmetic or comparison opcode.
pub open spec fn arith_opcode(op: Option<OpCode>) -> bool {
    op == Some(OpCode::Greater) || op == Some(OpCode::Less) || op == Some(OpCode::Subtract) || op
        == Some(OpCode::Multiply) || op == Some(OpCode::Divide) || (op == Some(OpCode::Add)
        && true)
}

/// The view inside an optional global slot.
pub open spec fn view_of_global(g: Option<Value>) -> Option<ValueV> {
    match g {
        Some(v) => Some(v@),
        None => None,
    }
}

/// Moving the program counter twice is moving it once to the farther place.
pub proof fn lemma_frames_at_compose(pre: VM, mid: VM, a: int, b: int)
    requires
        pre.call_frames@.len() >= 1,
        0 <= a <= usize::MAX,
        mid.call_frames@ == frames_at(pre, a),
    ensures
        frames_at(mid, b) == frames_at(pre, b),
{
    assert(top_frame(mid) == (CallFrame {
        function: top_frame(pre).function,
        stack_offset: top_frame(pre).stack_offset,
        pc: a as usize,
    }));
    assert(frames_at(mid, b) =~= frames_at(pre, b));
}

impl VM {
    /// Every frame points at a real function and at a base inside the value
    /// stack, and the bases grow inward: a callee's locals never lie below
    /// its caller's.
    pub open spec fn wf(self) -> bool {
        &&& (forall|i: int|
            0 <= i < self.call_frames@.len() ==> (#[trigger] self.call_frames@[i]).function
                < self.functions@.len() && self.call_frames@[i].stack_offset <= self.stack@.len())
        &&& (forall|i: int, j: int|
            0 <= i < j < self.call_frames@.len() ==> (#[trigger] self.call_frames@[i]).stack_offset
                <= (#[trigger] self.call_frames@[j]).stack_offset)
    }

    pub fn new() -> (vm: VM)
        ensures
            vm.wf(),
            vm.stack@.len() == 0,
            vm.globals@.len() == 0,
            vm.call_frames@.len() == 0,
            vm.functions@.len() == 0,
            vm.natives@.len() == 0,
            !vm.waiting_native,
    {
        VM {
            stack: Vec::new(),
            globals: Vec::new(),
            call_frames: Vec::new(),
            functions: Vec::new(),
            natives: Vec::new(),
            waiting_native: false,
        }
    }

    /// Clears the stack, as every runtime error does, and names the fault.
    fn runtime_error(&mut self, message: &'static str) -> (e: RuntimeError)
        ensures
            final(self).stack@.len() == 0,
            final(self).call_frames == old(self).call_frames,
            final(self).functions == old(self).functions,
            final(self).natives == old(self).natives,
            final(self).globals == old(self).globals,
            final(self).waiting_native == old(self).waiting_native,
            e.message == message,
    {
        self.stack.clear();
        proof {
            assert(self.stack@.len() == 0);
        }
        RuntimeError { message }
    }

    /// Loads a compiled program, and succeeds exactly when it is loadable:
    /// the function table indexable, and the natives no more numerous than a
    /// byte-sized slot space or the declared globals. On success the
    /// function table is the program's functions with the script appended,
    /// the natives occupy global slots `0..natives.len()` in installation
    /// order, every other slot is unset, and the machine stands at the
    /// script function's first instruction with the script value — every
    /// frame's slot 0 holds its callee — as the whole stack.
    pub fn interpret(&mut self, compiler_output: CompilerOutput) -> (r: Result<(), RuntimeError>)
        ensures
            (r is Ok <==> compiler_output.functions@.len() < 0xffff_ffff
                && compiler_output.natives@.len() <= compiler_output.globals_count
                && compiler_output.natives@.len() <= 256),
            (r is Ok ==> {
                let script = compiler_output.functions@.len();
                &&& final(self).wf()
                &&& final(self).functions@ == compiler_output.functions@.push(
                    compiler_output.script_function,
                )
                &&& final(self).natives@ == compiler_output.natives@
                &&& final(self).globals@.len() == compiler_output.globals_count
                &&& (forall|k: int|
                    0 <= k < compiler_output.natives@.len() ==> final(self).globals@[k] == Some(
                        Value::NativeFunc(k as u32),
                    ))
                &&& (forall|k: int|
                    compiler_output.natives@.len() <= k < compiler_output.globals_count ==> final(self).globals@[k] is None)
                &&& final(self).stack@ =~= seq![Value::Func(script as u32)]
                &&& final(self).call_frames@ =~= seq![
                    CallFrame { function: script as u32, stack_offset: 0, pc: 0 },
                ]
                &&& !final(self).waiting_native
            }),
            (r is Err ==> final(self).stack@.len() == 0),
    {
        if compiler_output.functions.len() >= 0xffff_ffff {
            let e = self.runtime_error("Too many functions.");
            return Err(e);
        }
        if compiler_output.natives.len() > compiler_output.globals_count {
            let e = self.runtime_error("More natives than global slots.");
            return Err(e);
        }
        if compiler_output.natives.len() > 256 {
            let e = self.runtime_error("Too many natives.");
            return Err(e);
        }
        let CompilerOutput { script_function, globals_count, natives, functions } =
            compiler_output;

        let mut globals: Vec<Option<Value>> = Vec::new();
        let mut i: usize = 0;
        while i < globals_count
            invariant
                globals@.len() == i,
                i <= globals_count,
                forall|k: int| 0 <= k < i ==> globals@[k] is None,
            decreases globals_count - i,
        {
            globals.push(None);
            i = i + 1;
        }
        let native_count = natives.len();
        let mut n: usize = 0;
        while n < native_count
            invariant
                native_count <= 256,
                native_count <= globals_count,
                globals@.len() == globals_count,
                n <= native_count,
                forall|k: int|
                    0 <= k < n ==> globals@[k] == Some(Value::NativeFunc(k as u32)),
                forall|k: int| n <= k < globals_count ==> globals@[k] is None,
            decreases native_count - n,
        {
            globals[n] = Some(Value::NativeFunc(n as u32));
            n = n + 1;
        }
        self.globals = globals;

        let script_index = functions.len() as u32;
        self.functions = functions;
        self.functions.push(script_function);
        self.natives = natives;

        self.stack = Vec::new();
        self.stack.push(Value::Func(script_index));
        self.call_frames = Vec::new();
        self.call_frames.push(CallFrame { function: script_index, stack_offset: 0, pc: 0 });
        self.waiting_native = false;
        Ok(())
    }

    /// Pushes the value a native call produced and lets execution go on; the
    /// caller's stack has gained exactly that one value in place of the
    /// callee and the arguments.
    pub fn resume_native(&mut self, return_val: Value) -> (r: Result<(), RuntimeError>)
        requires
            old(self).wf(),
        ensures
            final(self).functions == old(self).functions,
            final(self).natives == old(self).natives,
            (r is Ok ==> final(self).wf() && old(self).waiting_native && !final(self).waiting_native && final(self).stack@ == old(self).stack@.push(return_val) && final(self).call_frames == old(self).call_frames && final(self).globals == old(self).globals),
            (r is Err ==> !old(self).waiting_native),
    {
        if !self.waiting_native {
            let e = self.runtime_error("No native call is awaiting a result.");
            return Err(e);
        }
        self.stack.push(return_val);
        self.waiting_native = false;
        Ok(())
    }
}

impl VM {
    /// Reads the operand byte at the current program counter and advances it.
    fn read_byte(&mut self) -> (r: Result<u8, RuntimeError>)
        requires
            old(self).wf(),
            old(self).call_frames@.len() >= 1,
        ensures
            final(self).functions == old(self).functions,
            final(self).natives == old(self).natives,
            final(self).globals == old(self).globals,
            final(self).waiting_native == old(self).waiting_native,
            (r is Ok <==> top_frame(*old(self)).pc < code_of(*old(self)).len()),
            (r is Ok ==> top_frame(*old(self)).pc + 1 <= usize::MAX && code_of(*old(self)).len()
                <= usize::MAX),
            (r matches Ok(b) ==> final(self).wf() && final(self).stack == old(self).stack && final(self).call_frames@ == frames_at(*old(self), top_frame(*old(self)).pc + 1) && b as int
                == code_of(*old(self))[top_frame(*old(self)).pc as int]),
            (r is Err ==> final(self).stack@.len() == 0),
    {
        let nframes = self.call_frames.len();
        let frame = self.call_frames[nframes - 1];
        let fidx = frame.function as usize;
        if frame.pc >= self.functions[fidx].chunk.bytes.len() {
            let e = self.runtime_error("Failed to convert byte to opcode");
            return Err(e);
        }
        let byte = self.functions[fidx].chunk.bytes[frame.pc];
        self.call_frames[nframes - 1].pc = frame.pc + 1;
        proof {
            assert(self.call_frames@ =~= frames_at(*old(self), top_frame(*old(self)).pc + 1));
        }
        Ok(byte)
    }

    /// Reads a two-byte big-endian operand.
    fn read_short(&mut self) -> (r: Result<u16, RuntimeError>)
        requires
            old(self).wf(),
            old(self).call_frames@.len() >= 1,
        ensures
            final(self).functions == old(self).functions,
            final(self).natives == old(self).natives,
            final(self).globals == old(self).globals,
            final(self).waiting_native == old(self).waiting_native,
            (r is Ok <==> top_frame(*old(self)).pc + 1 < code_of(*old(self)).len()),
            (r is Ok ==> top_frame(*old(self)).pc + 2 <= usize::MAX && code_of(*old(self)).len()
                <= usize::MAX),
            (r matches Ok(j) ==> final(self).wf() && final(self).stack == old(self).stack && final(self).call_frames@ == frames_at(*old(self), top_frame(*old(self)).pc + 2) && j as int
                == code_of(*old(self))[top_frame(*old(self)).pc as int] * 256 + code_of(
                *old(self),
            )[top_frame(*old(self)).pc + 1]),
            (r is Err ==> final(self).stack@.len() == 0),
    {
        let ghost pre = *self;
        let high = match self.read_byte() {
            Ok(b) => b,
            Err(e) => {
                return Err(e);
            },
        };
        let ghost mid = *self;
        proof {
            assert(mid.call_frames@.last() == (CallFrame {
                function: top_frame(pre).function,
                stack_offset: top_frame(pre).stack_offset,
                pc: (top_frame(pre).pc + 1) as usize,
            }));
            assert(code_of(mid) == code_of(pre));
        }
        let low = match self.read_byte() {
            Ok(b) => b,
            Err(e) => {
                return Err(e);
            },
        };
        proof {
            assert(self.call_frames@ == frames_at(mid, top_frame(mid).pc + 1));
            assert(self.call_frames@ =~= frames_at(pre, top_frame(pre).pc + 2));
        }
        Ok((high as u16) * 256 + (low as u16))
    }

    /// Pops two numbers and pushes the operator's IEEE-754 result; anything
    /// but two numbers is a type error.
    fn binary_number_op(&mut self, op: OpCode) -> (r: Result<(), RuntimeError>)
        requires
            old(self).wf(),
            old(self).call_frames@.len() >= 1,
            op == OpCode::Greater || op == OpCode::Less || op == OpCode::Add || op
                == OpCode::Subtract || op == OpCode::Multiply || op == OpCode::Divide,
        ensures
            final(self).functions == old(self).functions,
            final(self).natives == old(self).natives,
            final(self).globals == old(self).globals,
            final(self).waiting_native == old(self).waiting_native,
            (r is Ok <==> old(self).stack@.len() >= 2 && old(self).stack@.len() - 2 >= top_frame(
                *old(self),
            ).stack_offset && two_numbers(*old(self))),
            (r is Ok ==> final(self).wf() && final(self).call_frames == old(self).call_frames
                && folds_top_two(
                *old(self),
                *final(self),
                arith_result(
                    op,
                    (old(self).stack@[old(self).stack@.len() - 2]@)->Number_0,
                    (old(self).stack@[old(self).stack@.len() - 1]@)->Number_0,
                ),
            )),
            (r is Err ==> final(self).stack@.len() == 0),
            (r matches Err(e) ==> (old(self).stack@.len() >= 2 && old(self).stack@.len() - 2
                >= top_frame(*old(self)).stack_offset ==> e.message@
                == "Add operands must both be strings or numbers"@)),
    {
        let n = self.stack.len();
        let off = self.call_frames[self.call_frames.len() - 1].stack_offset;
        if n < 2 || n - 2 < off {
            let e = self.runtime_error("Stack underflow.");
            return Err(e);
        }
        let b = self.stack[n - 1].clone();
        let a = self.stack[n - 2].clone();
        let result: Value = match (a, b) {
            (Value::Number(num_a), Value::Number(num_b)) => {
                match op {
                    OpCode::Greater => Value::Bool(num_gt(num_a, num_b)),
                    OpCode::Less => Value::Bool(num_lt(num_a, num_b)),
                    OpCode::Add => Value::Number(num_add(num_a, num_b)),
                    OpCode::Subtract => Value::Number(num_sub(num_a, num_b)),
                    OpCode::Multiply => Value::Number(num_mul(num_a, num_b)),
                    OpCode::Divide => Value::Number(num_div(num_a, num_b)),
                    _ => {
                        let e = self.runtime_error("Add operands must both be strings or numbers");
                        return Err(e);
                    },
                }
            },
            _ => {
                let e = self.runtime_error("Add operands must both be strings or numbers");
                return Err(e);
            },
        };
        self.stack.truncate(n - 2);
        self.stack.push(result);
        proof {
            assert(self.stack@.subrange(0, n - 2) =~= old(self).stack@.subrange(0, n - 2));
        }
        Ok(())
    }

    /// Pops two strings and pushes their concatenation.
    fn concatenate(&mut self) -> (r: Result<(), RuntimeError>)
        requires
            old(self).wf(),
            old(self).call_frames@.len() >= 1,
        ensures
            final(self).functions == old(self).functions,
            final(self).natives == old(self).natives,
            final(self).globals == old(self).globals,
            final(self).waiting_native == old(self).waiting_native,
            (r is Ok <==> old(self).stack@.len() >= 2 && old(self).stack@.len() - 2 >= top_frame(
                *old(self),
            ).stack_offset && two_strings(*old(self)) && strings_fit(*old(self))),
            (r is Ok ==> final(self).wf() && final(self).call_frames == old(self).call_frames
                && folds_top_two(
                *old(self),
                *final(self),
                ValueV::Str(
                    (old(self).stack@[old(self).stack@.len() - 2]@)->Str_0 + (old(self).stack@[old(self).stack@.len() - 1]@)->Str_0,
                ),
            )),
            (r is Err ==> final(self).stack@.len() == 0),
    {
        let n = self.stack.len();
        let off = self.call_frames[self.call_frames.len() - 1].stack_offset;
        if n < 2 || n - 2 < off {
            let e = self.runtime_error("Stack underflow.");
            return Err(e);
        }
        let b = self.stack[n - 1].clone();
        let a = self.stack[n - 2].clone();
        match (a, b) {
            (Value::String(str_a), Value::String(str_b)) => {
                if str_a.len() > usize::MAX - str_b.len() {
                    let e = self.runtime_error("String too long.");
                    return Err(e);
                }
                let mut joined = str_a;
                let rest = str_b;
                let ghost a0 = joined@;
                let ghost b0 = rest@;
                let mut k: usize = 0;
                while k < rest.len()
                    invariant
                        rest@ == b0,
                        a0.len() + b0.len() <= usize::MAX,
                        k <= b0.len(),
                        joined@ == a0 + b0.subrange(0, k as int),
                    decreases b0.len() - k,
                {
                    joined.push(rest[k]);
                    proof {
                        assert(joined@ =~= a0 + b0.subrange(0, k + 1));
                    }
                    k = k + 1;
                }
                proof {
                    assert(joined@ =~= a0 + b0);
                }
                self.stack.truncate(n - 2);
                self.stack.push(Value::String(joined));
                proof {
                    assert(self.stack@.subrange(0, n - 2) =~= old(self).stack@.subrange(
                        0,
                        n - 2,
                    ));
                }
                Ok(())
            },
            _ => {
                let e = self.runtime_error("Add operands must both be strings or numbers");
                Err(e)
            },
        }
    }
}

impl VM {
    /// Executes exactly one opcode: the machine's small step. Success holds
    /// exactly when `step_ok` admits the state — the opcode decodes, its
    /// operands are in range and the stack is deep enough — and the new
    /// state is then pinned opcode by opcode by `step_post`. Any failure is
    /// a runtime error that clears the value stack. While frames remain, at
    /// least one frame is live; termination is the only step that leaves
    /// none, and a `NativeCall` pause leaves the machine waiting for
    /// `resume_native`.
    #[verifier::rlimit(100)]
    pub fn step(&mut self) -> (r: Result<VmStep, RuntimeError>)
        requires
            old(self).wf(),
        ensures
            final(self).functions == old(self).functions,
            final(self).natives == old(self).natives,
            final(self).globals@.len() == old(self).globals@.len(),
            (r is Ok <==> step_ok(*old(self))),
            (r matches Ok(o) ==> {
                &&& final(self).wf()
                &&& (o is Done <==> final(self).call_frames@.len() == 0)
                &&& (!(o is Done) ==> final(self).call_frames@.len() >= 1)
                &&& ((o is NativeCall) <==> final(self).waiting_native)
                &&& (o matches VmStep::NativeCall(ni, args) ==> (ni as int) < final(self).natives@.len())
                &&& step_post(*old(self), *final(self), o)
            }),
            (r is Err ==> final(self).stack@.len() == 0 && final(self).globals == old(self).globals),
            // The two type errors carry the messages the language fixes.
            (r matches Err(e) ==> (!old(self).waiting_native && old(self).call_frames@.len() >= 1
                && arith_opcode(decoded(*old(self))) && old(self).stack@.len() >= 2 && old(self).stack@.len() - 2 >= top_frame(*old(self)).stack_offset && !(decoded(*old(self))
                == Some(OpCode::Add) && two_strings(*old(self))) ==> e.message@
                == "Add operands must both be strings or numbers"@)),
            (r matches Err(e) ==> (!old(self).waiting_native && old(self).call_frames@.len() >= 1
                && decoded(*old(self)) == Some(OpCode::Negate) && old(self).stack@.len() >= 1
                && old(self).stack@.len() - 1 >= top_frame(*old(self)).stack_offset ==> e.message@
                == "Negate operand must be number."@)),
    {
        if self.waiting_native {
            let e = self.runtime_error("A native call is awaiting its result.");
            return Err(e);
        }
        let nframes = self.call_frames.len();
        if nframes == 0 {
            return Ok(VmStep::Done);
        }
        let ghost pre = *self;
        let frame = self.call_frames[nframes - 1];
        let ghost pc0 = frame.pc as int;
        let ghost n = pre.stack@.len() as int;
        let opbyte = match self.read_byte() {
            Ok(b) => b,
            Err(e) => {
                return Err(e);
            },
        };
        let ghost mid0 = *self;
        let operation = match OpCode::from_byte(opbyte) {
            Some(op) => op,
            None => {
                let e = self.runtime_error("Failed to convert byte to opcode");
                return Err(e);
            },
        };
        match operation {
            OpCode::Constant => {
                let index = match self.read_byte() {
                    Ok(b) => b,
                    Err(e) => {
                        return Err(e);
                    },
                };
                proof {
                    lemma_frames_at_compose(pre, mid0, pc0 + 1, pc0 + 2);
                }
                let fidx2 = self.call_frames[self.call_frames.len() - 1].function as usize;
                if index as usize >= self.functions[fidx2].chunk.constants.len() {
                    let e = self.runtime_error("Failed to read constant");
                    return Err(e);
                }
                let val = self.functions[fidx2].chunk.constants[index as usize].clone();
                proof {
                    assert(val@ == consts_of(pre)[operand(pre)]);
                }
                self.stack.push(val);
                return Ok(VmStep::Continue);
            },
            OpCode::Pop => {
                if self.stack.len() == 0 || self.stack.len() - 1 < frame.stack_offset {
                    let e = self.runtime_error("Stack underflow.");
                    return Err(e);
                }
                self.stack.pop();
                proof {
                    assert(self.stack@ =~= pre.stack@.drop_last());
                }
                return Ok(VmStep::Continue);
            },
            OpCode::Equal => {
                let sn = self.stack.len();
                if sn < 2 || sn - 2 < frame.stack_offset {
                    let e = self.runtime_error("Stack underflow.");
                    return Err(e);
                }
                let b = self.stack[sn - 1].clone();
                let a = self.stack[sn - 2].clone();
                let eq = values_equal(&a, &b);
                self.stack.truncate(sn - 2);
                self.stack.push(Value::Bool(eq));
                proof {
                    assert(self.stack@.subrange(0, n - 2) =~= pre.stack@.subrange(0, n - 2));
                }
                return Ok(VmStep::Continue);
            },
            OpCode::Not => {
                let sn = self.stack.len();
                if sn == 0 || sn - 1 < frame.stack_offset {
                    let e = self.runtime_error("Stack underflow.");
                    return Err(e);
                }
                let val = self.stack[sn - 1].clone();
                let not_val = is_falsey(&val);
                self.stack.truncate(sn - 1);
                self.stack.push(Value::Bool(not_val));
                proof {
                    assert(self.stack@.subrange(0, n - 1) =~= pre.stack@.subrange(0, n - 1));
                }
                return Ok(VmStep::Continue);
            },
            OpCode::Greater => {
                match self.binary_number_op(OpCode::Greater) {
                    Ok(()) => {
                        return Ok(VmStep::Continue);
                    },
                    Err(e) => {
                        return Err(e);
                    },
                }
            },
            OpCode::Less => {
                match self.binary_number_op(OpCode::Less) {
                    Ok(()) => {
                        return Ok(VmStep::Continue);
                    },
                    Err(e) => {
                        return Err(e);
                    },
                }
            },
            OpCode::Add => {
                let sn = self.stack.len();
                let both_strings = sn >= 2 && {
                    let b_is = match &self.stack[sn - 1] {
                        Value::String(_) => true,
                        _ => false,
                    };
                    let a_is = match &self.stack[sn - 2] {
                        Value::String(_) => true,
                        _ => false,
                    };
                    b_is && a_is
                };
                if both_strings {
                    match self.concatenate() {
                        Ok(()) => {
                            return Ok(VmStep::Continue);
                        },
                        Err(e) => {
                            return Err(e);
                        },
                    }
                } else {
                    match self.binary_number_op(OpCode::Add) {
                        Ok(()) => {
                            return Ok(VmStep::Continue);
                        },
                        Err(e) => {
                            return Err(e);
                        },
                    }
                }
            },
            OpCode::Subtract => {
                match self.binary_number_op(OpCode::Subtract) {
                    Ok(()) => {
                        return Ok(VmStep::Continue);
                    },
                    Err(e) => {
                        return Err(e);
                    },
                }
            },
            OpCode::Multiply => {
                match self.binary_number_op(OpCode::Multiply) {
                    Ok(()) => {
                        return Ok(VmStep::Continue);
                    },
                    Err(e) => {
                        return Err(e);
                    },
                }
            },
            OpCode::Divide => {
                match self.binary_number_op(OpCode::Divide) {
                    Ok(()) => {
                        return Ok(VmStep::Continue);
                    },
                    Err(e) => {
                        return Err(e);
                    },
                }
            },
            OpCode::Negate => {
                let sn = self.stack.len();
                if sn == 0 || sn - 1 < frame.stack_offset {
                    let e = self.runtime_error("Stack underflow.");
                    return Err(e);
                }
                let val = self.stack[sn - 1].clone();
                match val {
                    Value::Number(bits) => {
                        self.stack.truncate(sn - 1);
                        self.stack.push(Value::Number(num_neg(bits)));
                        proof {
                            assert(self.stack@.subrange(0, n - 1) =~= pre.stack@.subrange(
                                0,
                                n - 1,
                            ));
                        }
                        return Ok(VmStep::Continue);
                    },
                    _ => {
                        let e = self.runtime_error("Negate operand must be number.");
                        return Err(e);
                    },
                }
            },
            OpCode::Null => {
                self.stack.push(Value::Null);
                return Ok(VmStep::Continue);
            },
            OpCode::True => {
                self.stack.push(Value::Bool(true));
                return Ok(VmStep::Continue);
            },
            OpCode::False => {
                self.stack.push(Value::Bool(false));
                return Ok(VmStep::Continue);
            },
            OpCode::DefineGlobal => {
                let slot = match self.read_byte() {
                    Ok(b) => b,
                    Err(e) => {
                        return Err(e);
                    },
                };
                proof {
                    lemma_frames_at_compose(pre, mid0, pc0 + 1, pc0 + 2);
                }
                let sn = self.stack.len();
                if sn == 0 || sn - 1 < frame.stack_offset {
                    let e = self.runtime_error("Stack underflow.");
                    return Err(e);
                }
                if slot as usize >= self.globals.len() {
                    let e = self.runtime_error("Global slot out of range.");
                    return Err(e);
                }
                let val = self.stack[sn - 1].clone();
                self.globals[slot as usize] = Some(val);
                self.stack.pop();
                proof {
                    assert(self.stack@ =~= pre.stack@.drop_last());
                }
                return Ok(VmStep::Continue);
            },
            OpCode::SetGlobal => {
                let slot = match self.read_byte() {
                    Ok(b) => b,
                    Err(e) => {
                        return Err(e);
                    },
                };
                proof {
                    lemma_frames_at_compose(pre, mid0, pc0 + 1, pc0 + 2);
                }
                let sn = self.stack.len();
                if sn == 0 {
                    let e = self.runtime_error("Stack underflow.");
                    return Err(e);
                }
                if slot as usize >= self.globals.len() {
                    let e = self.runtime_error("Global slot out of range.");
                    return Err(e);
                }
                let unset = match &self.globals[slot as usize] {
                    None => true,
                    Some(_) => false,
                };
                if unset {
                    let e = self.runtime_error("Undefined variable.");
                    return Err(e);
                }
                let val = self.stack[sn - 1].clone();
                self.globals[slot as usize] = Some(val);
                return Ok(VmStep::Continue);
            },
            OpCode::GetGlobal => {
                let slot = match self.read_byte() {
                    Ok(b) => b,
                    Err(e) => {
                        return Err(e);
                    },
                };
                proof {
                    lemma_frames_at_compose(pre, mid0, pc0 + 1, pc0 + 2);
                }
                if slot as usize >= self.globals.len() {
                    let e = self.runtime_error("Global slot out of range.");
                    return Err(e);
                }
                let global_val = self.globals[slot as usize].clone();
                match global_val {
                    Some(v) => {
                        self.stack.push(v);
                        return Ok(VmStep::Continue);
                    },
                    None => {
                        let e = self.runtime_error("Undefined variable.");
                        return Err(e);
                    },
                }
            },
            OpCode::GetLocal => {
                let slot = match self.read_byte() {
                    Ok(b) => b,
                    Err(e) => {
                        return Err(e);
                    },
                };
                proof {
                    lemma_frames_at_compose(pre, mid0, pc0 + 1, pc0 + 2);
                }
                let sn = self.stack.len();
                if sn - frame.stack_offset <= slot as usize {
                    let e = self.runtime_error("Stack underflow.");
                    return Err(e);
                }
                let val = self.stack[frame.stack_offset + slot as usize].clone();
                self.stack.push(val);
                return Ok(VmStep::Continue);
            },
            OpCode::SetLocal => {
                let slot = match self.read_byte() {
                    Ok(b) => b,
                    Err(e) => {
                        return Err(e);
                    },
                };
                proof {
                    lemma_frames_at_compose(pre, mid0, pc0 + 1, pc0 + 2);
                }
                let sn = self.stack.len();
                if sn == 0 || sn - frame.stack_offset <= slot as usize {
                    let e = self.runtime_error("Stack underflow.");
                    return Err(e);
                }
                let val = self.stack[sn - 1].clone();
                proof {
                    assert(val@ == pre.stack@[n - 1]@);
                }
                self.stack[frame.stack_offset + slot as usize] = val;
                return Ok(VmStep::Continue);
            },
            OpCode::JumpIfFalse => {
                let jump = match self.read_short() {
                    Ok(j) => j,
                    Err(e) => {
                        return Err(e);
                    },
                };
                proof {
                    lemma_frames_at_compose(pre, mid0, pc0 + 1, pc0 + 3);
                }
                let sn = self.stack.len();
                if sn == 0 {
                    let e = self.runtime_error("Stack underflow.");
                    return Err(e);
                }
                let falsey = is_falsey(&self.stack[sn - 1]);
                if falsey {
                    let m = self.call_frames.len();
                    let pc_now = self.call_frames[m - 1].pc;
                    if jump as usize > usize::MAX - pc_now {
                        let e = self.runtime_error("Jump out of range.");
                        return Err(e);
                    }
                    self.call_frames[m - 1].pc = pc_now + jump as usize;
                    proof {
                        assert(self.call_frames@ =~= frames_at(pre, pc0 + 3 + operand16(pre)));
                    }
                }
                return Ok(VmStep::Continue);
            },
            OpCode::Jump => {
                let jump = match self.read_short() {
                    Ok(j) => j,
                    Err(e) => {
                        return Err(e);
                    },
                };
                proof {
                    lemma_frames_at_compose(pre, mid0, pc0 + 1, pc0 + 3);
                }
                let m = self.call_frames.len();
                let pc_now = self.call_frames[m - 1].pc;
                if jump as usize > usize::MAX - pc_now {
                    let e = self.runtime_error("Jump out of range.");
                    return Err(e);
                }
                self.call_frames[m - 1].pc = pc_now + jump as usize;
                proof {
                    assert(self.call_frames@ =~= frames_at(pre, pc0 + 3 + operand16(pre)));
                }
                return Ok(VmStep::Continue);
            },
            OpCode::JumpBack => {
                let jump = match self.read_short() {
                    Ok(j) => j,
                    Err(e) => {
                        return Err(e);
                    },
                };
                proof {
                    lemma_frames_at_compose(pre, mid0, pc0 + 1, pc0 + 3);
                }
                let m = self.call_frames.len();
                let pc_now = self.call_frames[m - 1].pc;
                if jump as usize > pc_now {
                    let e = self.runtime_error("Jump out of range.");
                    return Err(e);
                }
                self.call_frames[m - 1].pc = pc_now - jump as usize;
                proof {
                    assert(self.call_frames@ =~= frames_at(pre, pc0 + 3 - operand16(pre)));
                }
                return Ok(VmStep::Continue);
            },
            OpCode::Call => {
                let arg_count_byte = match self.read_byte() {
                    Ok(b) => b,
                    Err(e) => {
                        return Err(e);
                    },
                };
                proof {
                    lemma_frames_at_compose(pre, mid0, pc0 + 1, pc0 + 2);
                }
                let arg_count = arg_count_byte as usize;
                let sn = self.stack.len();
                if sn == 0 || sn - 1 < arg_count {
                    let e = self.runtime_error("Stack underflow.");
                    return Err(e);
                }
                let callee_idx = sn - 1 - arg_count;
                if callee_idx < frame.stack_offset {
                    let e = self.runtime_error("Stack underflow.");
                    return Err(e);
                }
                let callee = self.stack[callee_idx].clone();
                match callee {
                    Value::Func(findex) => {
                        if findex as usize >= self.functions.len() {
                            let e = self.runtime_error("Failed to call callee");
                            return Err(e);
                        }
                        if arg_count_byte != self.functions[findex as usize].arity {
                            let e = self.runtime_error("Incorrect argument count.");
                            return Err(e);
                        }
                        self.call_frames.push(
                            CallFrame { function: findex, stack_offset: callee_idx, pc: 0 },
                        );
                        proof {
                            assert(self.call_frames@ == frames_at(pre, pc0 + 2).push(
                                CallFrame { function: findex, stack_offset: callee_idx, pc: 0 },
                            ));
                            let frames = self.call_frames@;
                            assert forall|i: int, j: int|
                                0 <= i < j < frames.len() implies (
                            #[trigger] frames[i]).stack_offset <= (
                            #[trigger] frames[j]).stack_offset by {
                                if j == frames.len() - 1 && i < frames.len() - 2 {
                                    assert(pre.call_frames@[i].stack_offset
                                        <= pre.call_frames@[pre.call_frames@.len()
                                        - 1].stack_offset);
                                }
                            }
                        }
                        return Ok(VmStep::Continue);
                    },
                    Value::NativeFunc(nindex) => {
                        if nindex as usize >= self.natives.len() {
                            let e = self.runtime_error("Failed to call callee");
                            return Err(e);
                        }
                        let ghost st = self.stack@;
                        let mut args: Vec<Value> = Vec::new();
                        let mut k: usize = 0;
                        while k < arg_count
                            invariant
                                self.stack@ == st,
                                args@.len() == k,
                                k <= arg_count,
                                arg_count < st.len(),
                                sn == st.len(),
                                forall|t: int|
                                    0 <= t < k ==> (#[trigger] args@[t])@ == st[sn - arg_count
                                        + t]@,
                            decreases arg_count - k,
                        {
                            let v = self.stack[sn - arg_count + k].clone();
                            args.push(v);
                            k = k + 1;
                        }
                        self.stack.truncate(callee_idx);
                        self.waiting_native = true;
                        return Ok(VmStep::NativeCall(nindex, args));
                    },
                    _ => {
                        let e = self.runtime_error("Failed to call callee");
                        return Err(e);
                    },
                }
            },
            OpCode::Return => {
                let sn = self.stack.len();
                if sn == 0 || sn - 1 < frame.stack_offset {
                    let e = self.runtime_error("Stack underflow.");
                    return Err(e);
                }
                let return_val = match self.stack.pop() {
                    Some(v) => v,
                    None => Value::Null,
                };
                proof {
                    assert(self.stack@ =~= pre.stack@.subrange(0, n - 1));
                }
                self.stack.truncate(frame.stack_offset);
                proof {
                    assert(self.stack@ =~= pre.stack@.subrange(
                        0,
                        frame.stack_offset as int,
                    ));
                }
                self.call_frames.pop();
                proof {
                    assert(self.call_frames@ =~= pre.call_frames@.drop_last());
                }

                if self.call_frames.len() == 0 {
                    return Ok(VmStep::Done);
                }

                self.stack.push(return_val);
                return Ok(VmStep::Continue);
            },
        }
    }
}

} // verus!
